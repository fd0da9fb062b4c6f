//! Values that can stand in a closed set, and what they read as.

use crate::text;
use crate::validate::rules;
use vstd::prelude::*;
use vstd::string::*;

verus! {

/// A value that can be compared and shown.
pub trait Choice {
    /// Whether two values are equal.
    open spec fn same(&self, other: &Self) -> bool {
        true
    }

    /// How the value is shown, as `{:?}` shows it.
    open spec fn shown(&self) -> Seq<char> {
        Seq::empty()
    }

    fn is_same(&self, other: &Self) -> (r: bool)
        ensures
            r == self.same(other),
    ;

    fn show(&self) -> (out: String)
        ensures
            out@ == self.shown(),
    ;
}

/// How a list of values is shown.
pub open spec fn shown_list<T: Choice>(list: Seq<T>) -> Seq<char> {
    "["@ + text::join(list.map_values(|v: T| v.shown()), ", "@) + "]"@
}

/// Whether a list holds a value.
pub open spec fn offers<T: Choice>(list: Seq<T>, value: &T) -> bool {
    exists|i: int| 0 <= i < list.len() && (#[trigger] list[i]).same(value)
}

/// Shows a list of values.
pub fn show_list<T: Choice>(list: &[T]) -> (out: String)
    ensures
        out@ == shown_list(list@),
{
    let mut shown: Vec<String> = Vec::new();
    for i in 0..list.len()
        invariant
            shown@.len() == i,
            forall|j: int| 0 <= j < i ==> (#[trigger] shown@[j])@ == list@[j].shown(),
    {
        shown.push(list[i].show());
    }
    assert(text::views(shown@).skip(0) =~= list@.map_values(|v: T| v.shown()));
    let mut out = "[".to_owned();
    out.append(text::join_text(&shown, 0, ", ").as_str());
    out.append("]");
    out
}

/// Whether a list holds a value.
pub fn is_offered<T: Choice>(list: &[T], value: &T) -> (r: bool)
    ensures
        r == offers(list@, value),
{
    for i in 0..list.len()
        invariant
            forall|j: int| 0 <= j < i ==> !(#[trigger] list@[j]).same(value),
    {
        if list[i].is_same(value) {
            return true;
        }
    }
    false
}

/// How `{:?}` prints a character.
pub uninterp spec fn quoted_char(c: char) -> Seq<char>;

/// The `Debug` form of a `char`. How it is escaped is named, not described.
#[verifier::external_body]
fn debug_char(c: char) -> (out: String)
    ensures
        out@ == quoted_char(c),
{
    format!("{c:?}")
}

impl Choice for char {
    open spec fn same(&self, other: &Self) -> bool {
        *self == *other
    }

    open spec fn shown(&self) -> Seq<char> {
        quoted_char(*self)
    }

    fn is_same(&self, other: &Self) -> (r: bool) {
        *self == *other
    }

    fn show(&self) -> (out: String) {
        debug_char(*self)
    }
}

impl<'a> Choice for &'a str {
    open spec fn same(&self, other: &Self) -> bool {
        self@ == other@
    }

    open spec fn shown(&self) -> Seq<char> {
        rules::quoted(self@)
    }

    fn is_same(&self, other: &Self) -> (r: bool) {
        text::same(*self, *other)
    }

    fn show(&self) -> (out: String) {
        rules::debug_text(*self)
    }
}

impl Choice for String {
    open spec fn same(&self, other: &Self) -> bool {
        self@ == other@
    }

    open spec fn shown(&self) -> Seq<char> {
        rules::quoted(self@)
    }

    fn is_same(&self, other: &Self) -> (r: bool) {
        text::same(self.as_str(), other.as_str())
    }

    fn show(&self) -> (out: String) {
        rules::debug_text(self.as_str())
    }
}

impl<T: Choice> Choice for Option<T> {
    open spec fn same(&self, other: &Self) -> bool {
        match (self, other) {
            (Some(a), Some(b)) => a.same(b),
            (None, None) => true,
            _ => false,
        }
    }

    open spec fn shown(&self) -> Seq<char> {
        match self {
            Some(v) => "Some("@ + v.shown() + ")"@,
            None => "None"@,
        }
    }

    fn is_same(&self, other: &Self) -> (r: bool) {
        match (self, other) {
            (Some(a), Some(b)) => a.is_same(b),
            (None, None) => true,
            _ => false,
        }
    }

    fn show(&self) -> (out: String) {
        match self {
            Some(v) => {
                let mut out = "Some(".to_owned();
                out.append(v.show().as_str());
                out.append(")");
                out
            },
            None => "None".to_owned(),
        }
    }
}

impl Choice for bool {
    open spec fn same(&self, other: &Self) -> bool {
        *self == *other
    }

    open spec fn shown(&self) -> Seq<char> {
        if *self {
            "true"@
        } else {
            "false"@
        }
    }

    fn is_same(&self, other: &Self) -> (r: bool) {
        *self == *other
    }

    fn show(&self) -> (out: String) {
        if *self {
            "true".to_owned()
        } else {
            "false".to_owned()
        }
    }
}

impl Choice for i8 {
    open spec fn same(&self, other: &Self) -> bool {
        *self == *other
    }

    open spec fn shown(&self) -> Seq<char> {
        text::integer(*self as int)
    }

    fn is_same(&self, other: &Self) -> (r: bool) {
        *self == *other
    }

    fn show(&self) -> (out: String) {
        text::integer_text(*self as i128)
    }
}

impl Choice for i16 {
    open spec fn same(&self, other: &Self) -> bool {
        *self == *other
    }

    open spec fn shown(&self) -> Seq<char> {
        text::integer(*self as int)
    }

    fn is_same(&self, other: &Self) -> (r: bool) {
        *self == *other
    }

    fn show(&self) -> (out: String) {
        text::integer_text(*self as i128)
    }
}

impl Choice for i32 {
    open spec fn same(&self, other: &Self) -> bool {
        *self == *other
    }

    open spec fn shown(&self) -> Seq<char> {
        text::integer(*self as int)
    }

    fn is_same(&self, other: &Self) -> (r: bool) {
        *self == *other
    }

    fn show(&self) -> (out: String) {
        text::integer_text(*self as i128)
    }
}

impl Choice for i64 {
    open spec fn same(&self, other: &Self) -> bool {
        *self == *other
    }

    open spec fn shown(&self) -> Seq<char> {
        text::integer(*self as int)
    }

    fn is_same(&self, other: &Self) -> (r: bool) {
        *self == *other
    }

    fn show(&self) -> (out: String) {
        text::integer_text(*self as i128)
    }
}

impl Choice for i128 {
    open spec fn same(&self, other: &Self) -> bool {
        *self == *other
    }

    open spec fn shown(&self) -> Seq<char> {
        text::integer(*self as int)
    }

    fn is_same(&self, other: &Self) -> (r: bool) {
        *self == *other
    }

    fn show(&self) -> (out: String) {
        text::integer_text(*self)
    }
}

impl Choice for isize {
    open spec fn same(&self, other: &Self) -> bool {
        *self == *other
    }

    open spec fn shown(&self) -> Seq<char> {
        text::integer(*self as int)
    }

    fn is_same(&self, other: &Self) -> (r: bool) {
        *self == *other
    }

    fn show(&self) -> (out: String) {
        text::integer_text(*self as i128)
    }
}

impl Choice for u8 {
    open spec fn same(&self, other: &Self) -> bool {
        *self == *other
    }

    open spec fn shown(&self) -> Seq<char> {
        text::integer(*self as int)
    }

    fn is_same(&self, other: &Self) -> (r: bool) {
        *self == *other
    }

    fn show(&self) -> (out: String) {
        text::integer_text(*self as i128)
    }
}

impl Choice for u16 {
    open spec fn same(&self, other: &Self) -> bool {
        *self == *other
    }

    open spec fn shown(&self) -> Seq<char> {
        text::integer(*self as int)
    }

    fn is_same(&self, other: &Self) -> (r: bool) {
        *self == *other
    }

    fn show(&self) -> (out: String) {
        text::integer_text(*self as i128)
    }
}

impl Choice for u32 {
    open spec fn same(&self, other: &Self) -> bool {
        *self == *other
    }

    open spec fn shown(&self) -> Seq<char> {
        text::integer(*self as int)
    }

    fn is_same(&self, other: &Self) -> (r: bool) {
        *self == *other
    }

    fn show(&self) -> (out: String) {
        text::integer_text(*self as i128)
    }
}

impl Choice for u64 {
    open spec fn same(&self, other: &Self) -> bool {
        *self == *other
    }

    open spec fn shown(&self) -> Seq<char> {
        text::integer(*self as int)
    }

    fn is_same(&self, other: &Self) -> (r: bool) {
        *self == *other
    }

    fn show(&self) -> (out: String) {
        text::integer_text(*self as i128)
    }
}

impl Choice for u128 {
    open spec fn same(&self, other: &Self) -> bool {
        *self == *other
    }

    open spec fn shown(&self) -> Seq<char> {
        text::integer(*self as int)
    }

    fn is_same(&self, other: &Self) -> (r: bool) {
        *self == *other
    }

    fn show(&self) -> (out: String) {
        text::decimal_wide(*self)
    }
}

impl Choice for usize {
    open spec fn same(&self, other: &Self) -> bool {
        *self == *other
    }

    open spec fn shown(&self) -> Seq<char> {
        text::integer(*self as int)
    }

    fn is_same(&self, other: &Self) -> (r: bool) {
        *self == *other
    }

    fn show(&self) -> (out: String) {
        text::integer_text(*self as i128)
    }
}

/// A key of a map whose entries can be walked: an integer, which reads the same
/// wherever it is shown.
pub trait MapKey: Choice + Sized {
    /// The keys are hashed and ordered by their values.
    proof fn orderly()
        ensures
            vstd::std_specs::hash::obeys_key_model::<Self>(),
            vstd::std_specs::btree::key_obeys_cmp_spec::<Self>(),
    ;
}

impl MapKey for i8 {
    proof fn orderly() {
    }
}

impl MapKey for i16 {
    proof fn orderly() {
    }
}

impl MapKey for i32 {
    proof fn orderly() {
    }
}

impl MapKey for i64 {
    proof fn orderly() {
    }
}

impl MapKey for i128 {
    proof fn orderly() {
    }
}

impl MapKey for isize {
    proof fn orderly() {
    }
}

impl MapKey for u8 {
    proof fn orderly() {
    }
}

impl MapKey for u16 {
    proof fn orderly() {
    }
}

impl MapKey for u32 {
    proof fn orderly() {
    }
}

impl MapKey for u64 {
    proof fn orderly() {
    }
}

impl MapKey for u128 {
    proof fn orderly() {
    }
}

impl MapKey for usize {
    proof fn orderly() {
    }
}

} // verus!
