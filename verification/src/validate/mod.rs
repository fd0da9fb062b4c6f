//! Declarative validation.
//!
//! A validation rule on a field does two things from one declaration: it emits
//! the matching JSON Schema keyword, and it is checked at run time. There is no
//! way for the documented constraint and the enforced constraint to disagree,
//! because they are the same annotation.

pub mod choice;
pub mod rules;

use crate::error;
use crate::error::{ApiError, FieldError, FieldFailure, Problem};
use crate::openapi::ordered::OrderedMap;
use crate::text;
use crate::validate::choice::MapKey;
use vstd::prelude::*;
use vstd::std_specs::btree;
use vstd::std_specs::hash;
use vstd::std_specs::iter::IteratorSpec;
use vstd::string::*;

verus! {

/// Accumulated field-level failures.
pub struct ValidationErrors {
    errors: Vec<FieldError>,
}

impl View for ValidationErrors {
    type V = Seq<FieldFailure>;

    closed spec fn view(&self) -> Seq<FieldFailure> {
        error::failures(self.errors@)
    }
}

/// The failures of a nested value, seen from outside.
pub open spec fn prefixed(list: Seq<FieldFailure>, prefix: Seq<char>) -> Seq<FieldFailure> {
    list.map_values(
        |e: FieldFailure| FieldFailure { pointer: prefix + e.pointer, ..e },
    )
}

/// What a list of failures reads as.
pub open spec fn listing(list: Seq<FieldFailure>) -> Seq<char>
    decreases list.len(),
{
    if list.len() == 0 {
        Seq::empty()
    } else {
        let before = listing(list.drop_last());
        let sep = if list.len() > 1 {
            before + "; "@
        } else {
            before
        };
        sep + list.last().pointer + ": "@ + list.last().message
    }
}

impl ValidationErrors {
    pub fn new() -> (e: Self)
        ensures
            e@ == Seq::<FieldFailure>::empty(),
    {
        let e = ValidationErrors { errors: Vec::new() };
        assert(e@ =~= Seq::<FieldFailure>::empty());
        e
    }

    /// Records a failure at `pointer`.
    pub fn push(&mut self, pointer: &str, code: &str, message: &str)
        ensures
            final(self)@ == old(self)@.push(
                (FieldFailure { pointer: pointer@, code: code@, message: message@ }),
            ),
    {
        let e = FieldError::new(pointer, code, message);
        proof {
            error::lemma_failures_push(self.errors@, e);
        }
        self.errors.push(e);
    }

    /// Merges nested errors, prefixing their pointers with `prefix`.
    pub fn merge_at(&mut self, prefix: &str, other: ValidationErrors)
        ensures
            final(self)@ == old(self)@ + prefixed(other@, prefix@),
    {
        let ghost before = self@;
        let nested = other.errors;
        let ghost given = nested@;
        for i in 0..nested.len()
            invariant
                given == nested@,
                self@ == before + prefixed(error::failures(given.take(i as int)), prefix@),
        {
            let mut pointer = prefix.to_owned();
            pointer.append(nested[i].pointer.as_str());
            let ghost e = nested@[i as int]@;
            self.push(pointer.as_str(), nested[i].code.as_str(), nested[i].message.as_str());
            proof {
                let a = prefixed(error::failures(given.take(i as int)), prefix@);
                let b = prefixed(error::failures(given.take(i + 1)), prefix@);
                assert(b =~= a.push(FieldFailure { pointer: prefix@ + e.pointer, ..e }));
                assert(before + b =~= (before + a).push(
                    FieldFailure { pointer: prefix@ + e.pointer, ..e },
                ));
            }
        }
        assert(given.take(given.len() as int) =~= given);
    }

    pub fn is_empty(&self) -> (r: bool)
        ensures
            r == (self@.len() == 0),
    {
        self.errors.len() == 0
    }

    pub fn len(&self) -> (n: usize)
        ensures
            n == self@.len(),
    {
        self.errors.len()
    }

    pub fn as_slice(&self) -> (list: &[FieldError])
        ensures
            error::failures(list@) == self@,
    {
        self.errors.as_slice()
    }

    pub fn into_inner(self) -> (list: Vec<FieldError>)
        ensures
            error::failures(list@) == self@,
    {
        self.errors
    }

    /// `Ok(())` when nothing failed, otherwise `Err(self)`.
    pub fn into_result(self) -> (r: Result<(), ValidationErrors>)
        ensures
            match r {
                Ok(_) => self@.len() == 0,
                Err(e) => e == self && self@.len() > 0,
            },
    {
        if self.is_empty() {
            Ok(())
        } else {
            Err(self)
        }
    }

    /// The failures on one line.
    pub fn message(&self) -> (out: String)
        ensures
            out@ == listing(self@),
    {
        let mut out = String::new();
        assert(self@.take(0) =~= Seq::<FieldFailure>::empty());
        for i in 0..self.errors.len()
            invariant
                out@ == listing(self@.take(i as int)),
        {
            assert(self@.take(i + 1).drop_last() =~= self@.take(i as int));
            if i > 0 {
                out.append("; ");
            }
            out.append(self.errors[i].pointer.as_str());
            out.append(": ");
            out.append(self.errors[i].message.as_str());
        }
        assert(self@.take(self@.len() as int) =~= self@);
        out
    }

    /// The 422 that answers a request with these failures.
    pub fn into_api_error(self) -> (e: ApiError)
        ensures
            e@ == Problem::unprocessable(self@),
    {
        ApiError::unprocessable(self.into_inner())
    }
}

impl Default for ValidationErrors {
    fn default() -> (e: Self)
        ensures
            e@ == Seq::<FieldFailure>::empty(),
    {
        ValidationErrors::new()
    }
}

/// A type whose values can be checked beyond what deserialisation guarantees.
///
/// The implementations below make the containers transparently validatable, so
/// nested validation works through `Vec`, `Option`, and maps.
pub trait Validate {
    /// What is wrong with the value, with pointers relative to it.
    open spec fn faults(&self) -> Seq<FieldFailure> {
        Seq::empty()
    }

    /// Checks `self`, reporting failures with pointers relative to `self`.
    fn validate(&self) -> (r: Result<(), ValidationErrors>)
        ensures
            match r {
                Ok(_) => self.faults().len() == 0,
                Err(e) => e@ == self.faults() && self.faults().len() > 0,
            },
    ;
}

/// What is wrong with the elements of a list, each under its index.
pub open spec fn indexed_faults<T: Validate>(items: Seq<T>) -> Seq<FieldFailure>
    decreases items.len(),
{
    if items.len() == 0 {
        Seq::empty()
    } else {
        indexed_faults(items.drop_last()) + prefixed(
            items.last().faults(),
            "/"@ + text::decimal((items.len() - 1) as nat),
        )
    }
}

/// What is wrong with the values of a map, each under its escaped key.
pub open spec fn keyed_faults<V: Validate>(entries: Seq<(Seq<char>, V)>) -> Seq<FieldFailure>
    decreases entries.len(),
{
    if entries.len() == 0 {
        Seq::empty()
    } else {
        keyed_faults(entries.drop_last()) + prefixed(
            entries.last().1.faults(),
            "/"@ + escaped(entries.last().0),
        )
    }
}

impl<T: Validate> Validate for Option<T> {
    open spec fn faults(&self) -> Seq<FieldFailure> {
        match self {
            Some(value) => value.faults(),
            None => Seq::empty(),
        }
    }

    fn validate(&self) -> (r: Result<(), ValidationErrors>) {
        match self {
            Some(value) => value.validate(),
            None => Ok(()),
        }
    }
}

impl<T: Validate + ?Sized> Validate for Box<T> {
    open spec fn faults(&self) -> Seq<FieldFailure> {
        (**self).faults()
    }

    fn validate(&self) -> (r: Result<(), ValidationErrors>) {
        (**self).validate()
    }
}

impl<T: Validate + ?Sized> Validate for std::sync::Arc<T> {
    open spec fn faults(&self) -> Seq<FieldFailure> {
        (**self).faults()
    }

    fn validate(&self) -> (r: Result<(), ValidationErrors>) {
        (**self).validate()
    }
}

/// The entries of a map, with what their keys read as.
pub open spec fn shown_entries<K: MapKey, V>(entries: Seq<(K, V)>) -> Seq<(Seq<char>, V)> {
    entries.map_values(|e: (K, V)| (e.0.shown(), e.1))
}

/// The list holds each entry of a map, once.
pub open spec fn lists<K, V>(entries: Seq<(K, V)>, map: Map<K, V>) -> bool {
    &&& entries.len() == map.dom().len()
    &&& forall|i: int|
        0 <= i < entries.len() ==> map.contains_key((#[trigger] entries[i]).0)
            && map[entries[i].0] == entries[i].1
    &&& forall|k: K| #[trigger] map.contains_key(k) ==> entries.contains((k, map[k]))
}

/// The entries of a map with texts for keys.
pub open spec fn text_entries<V>(entries: Seq<(String, V)>) -> Seq<(Seq<char>, V)> {
    entries.map_values(|e: (String, V)| (e.0@, e.1))
}

/// The entries stand in the order of their keys.
pub open spec fn in_order<K, V>(entries: Seq<(K, V)>) -> bool {
    btree::increasing_seq(entries.map_values(|e: (K, V)| e.0))
}

/// The entries stand in the order of their keys, each of which is a text.
pub open spec fn in_text_order<V>(entries: Seq<(String, V)>) -> bool {
    forall|i: int, j: int|
        0 <= i < j < entries.len() ==> text::precedes(
            (#[trigger] entries[i]).0@,
            (#[trigger] entries[j]).0@,
        )
}

proof fn lemma_lists<K, V>(walked: Seq<(&K, &V)>, map: Map<K, V>)
    requires
        walked.len() == map.dom().len(),
        forall|i: int|
            #![trigger map.contains_key(*walked[i].0)]
            0 <= i < walked.len() ==> map.contains_key(*walked[i].0) && map[*walked[i].0]
                == *walked[i].1,
        forall|k: K| #[trigger] map.contains_key(k) ==> walked.contains((&k, &map[k])),
    ensures
        lists(walked.unref(), map),
{
    let entries = walked.unref();
    assert forall|i: int| 0 <= i < entries.len() implies map.contains_key((#[trigger] entries[i]).0)
        && map[entries[i].0] == entries[i].1 by {
        assert(map.contains_key(*walked[i].0));
    }
    assert forall|k: K| #[trigger] map.contains_key(k) implies entries.contains((k, map[k])) by {
        let i = choose|i: int| 0 <= i < walked.len() && walked[i] == (&k, &map[k]);
        assert(entries[i] == (k, map[k]));
    }
}

impl ValidationErrors {
    /// Takes over what was found of the value at a pointer.
    fn merge_found(
        &mut self,
        pointer: &str,
        found: Result<(), ValidationErrors>,
        Ghost(faults): Ghost<Seq<FieldFailure>>,
    )
        requires
            match found {
                Ok(_) => faults.len() == 0,
                Err(e) => e@ == faults,
            },
        ensures
            final(self)@ == old(self)@ + prefixed(faults, pointer@),
    {
        match found {
            Ok(_) => {
                assert(self@ + prefixed(faults, pointer@) =~= self@);
            },
            Err(nested) => {
                self.merge_at(pointer, nested);
            },
        }
    }

    /// Takes over what was found of an element of a list.
    fn merge_item(
        &mut self,
        i: usize,
        found: Result<(), ValidationErrors>,
        Ghost(faults): Ghost<Seq<FieldFailure>>,
    )
        requires
            match found {
                Ok(_) => faults.len() == 0,
                Err(e) => e@ == faults,
            },
        ensures
            final(self)@ == old(self)@ + prefixed(faults, "/"@ + text::decimal(i as nat)),
    {
        let mut pointer = "/".to_owned();
        pointer.append(text::decimal_text(i as u64).as_str());
        self.merge_found(pointer.as_str(), found, Ghost(faults));
    }

    /// Takes over what was found of the value of a map under a key.
    fn merge_entry(
        &mut self,
        key: &str,
        found: Result<(), ValidationErrors>,
        Ghost(faults): Ghost<Seq<FieldFailure>>,
    )
        requires
            match found {
                Ok(_) => faults.len() == 0,
                Err(e) => e@ == faults,
            },
        ensures
            final(self)@ == old(self)@ + prefixed(faults, "/"@ + escaped(key@)),
    {
        let mut pointer = "/".to_owned();
        pointer.append(escape_pointer(key).as_str());
        self.merge_found(pointer.as_str(), found, Ghost(faults));
    }
}

impl<T: Validate> Validate for [T] {
    open spec fn faults(&self) -> Seq<FieldFailure> {
        indexed_faults(self@)
    }

    fn validate(&self) -> (r: Result<(), ValidationErrors>) {
        let mut errors = ValidationErrors::new();
        let ghost items = self@;
        assert(items.take(0) =~= Seq::<T>::empty());
        let n: usize = self.len();
        for i in 0..n
            invariant
                n == self@.len(),
                items == self@,
                errors@ == indexed_faults(items.take(i as int)),
        {
            assert(items.take(i + 1).drop_last() =~= items.take(i as int));
            let found = self[i].validate();
            errors.merge_item(i, found, Ghost(items[i as int].faults()));
        }
        assert(items.take(items.len() as int) =~= items);
        errors.into_result()
    }
}

impl<T: Validate> Validate for Vec<T> {
    open spec fn faults(&self) -> Seq<FieldFailure> {
        indexed_faults(self@)
    }

    fn validate(&self) -> (r: Result<(), ValidationErrors>) {
        self.as_slice().validate()
    }
}

impl<T: Validate> Validate for std::collections::VecDeque<T> {
    open spec fn faults(&self) -> Seq<FieldFailure> {
        indexed_faults(self@)
    }

    fn validate(&self) -> (r: Result<(), ValidationErrors>) {
        let mut errors = ValidationErrors::new();
        let ghost items = self@;
        assert(items.take(0) =~= Seq::<T>::empty());
        let n: usize = self.len();
        for i in 0..n
            invariant
                n == self@.len(),
                items == self@,
                errors@ == indexed_faults(items.take(i as int)),
        {
            assert(items.take(i + 1).drop_last() =~= items.take(i as int));
            let found = self[i].validate();
            errors.merge_item(i, found, Ghost(items[i as int].faults()));
        }
        assert(items.take(items.len() as int) =~= items);
        errors.into_result()
    }
}

impl<V: Validate> Validate for OrderedMap<V> {
    open spec fn faults(&self) -> Seq<FieldFailure> {
        keyed_faults(self@)
    }

    fn validate(&self) -> (r: Result<(), ValidationErrors>) {
        let mut errors = ValidationErrors::new();
        let ghost entries = self@;
        assert(entries.take(0) =~= Seq::<(Seq<char>, V)>::empty());
        let n: usize = self.len();
        for i in 0..n
            invariant
                n == self@.len(),
                entries == self@,
                errors@ == keyed_faults(entries.take(i as int)),
        {
            assert(entries.take(i + 1).drop_last() =~= entries.take(i as int));
            let found = self.value_at(i).validate();
            errors.merge_entry(self.key_at(i), found, Ghost(entries[i as int].1.faults()));
        }
        assert(entries.take(entries.len() as int) =~= entries);
        errors.into_result()
    }
}

impl<K: MapKey, V: Validate> Validate for std::collections::HashMap<K, V> {
    open spec fn faults(&self) -> Seq<FieldFailure> {
        keyed_faults(shown_entries(hash::into_iter(hash::spec_hash_map_iter(self))))
    }

    fn validate(&self) -> (r: Result<(), ValidationErrors>)
        ensures
            lists(hash::into_iter(hash::spec_hash_map_iter(self)), self@),
    {
        proof {
            K::orderly();
        }
        let mut errors = ValidationErrors::new();
        let ghost walked = hash::into_iter(hash::spec_hash_map_iter(self));
        let ghost entries = shown_entries(walked);
        assert(entries.take(0) =~= Seq::<(Seq<char>, V)>::empty());
        for entry in it: self.iter()
            invariant
                walked == hash::into_iter(hash::spec_hash_map_iter(self)),
                it.seq() == hash::spec_hash_map_iter(self).remaining(),
                it.seq().unref() == walked,
                entries == shown_entries(walked),
                errors@ == keyed_faults(entries.take(it.index())),
        {
            let ghost i = it.index();
            assert(entries.take(i + 1).drop_last() =~= entries.take(i));
            let key = entry.0.show();
            let found = entry.1.validate();
            errors.merge_entry(key.as_str(), found, Ghost(entries[i].1.faults()));
        }
        assert(entries.take(entries.len() as int) =~= entries);
        proof {
            lemma_lists(hash::spec_hash_map_iter(self).remaining(), self@);
        }
        errors.into_result()
    }
}

impl<K: MapKey, V: Validate> Validate for std::collections::BTreeMap<K, V> {
    open spec fn faults(&self) -> Seq<FieldFailure> {
        keyed_faults(shown_entries(btree::into_iter(btree::spec_btree_map_iter(self))))
    }

    fn validate(&self) -> (r: Result<(), ValidationErrors>)
        ensures
            lists(btree::into_iter(btree::spec_btree_map_iter(self)), self@),
            in_order(btree::into_iter(btree::spec_btree_map_iter(self))),
    {
        proof {
            K::orderly();
        }
        let mut errors = ValidationErrors::new();
        let ghost walked = btree::into_iter(btree::spec_btree_map_iter(self));
        let ghost entries = shown_entries(walked);
        assert(entries.take(0) =~= Seq::<(Seq<char>, V)>::empty());
        let walk = self.iter();
        assert(walk.remaining().map_values(|e: (&K, &V)| *e.0) =~= walked.map_values(
            |e: (K, V)| e.0,
        ));
        for entry in it: walk
            invariant
                walked == btree::into_iter(btree::spec_btree_map_iter(self)),
                it.seq() == btree::spec_btree_map_iter(self).remaining(),
                it.seq().unref() == walked,
                entries == shown_entries(walked),
                in_order(walked),
                errors@ == keyed_faults(entries.take(it.index())),
        {
            let ghost i = it.index();
            assert(entries.take(i + 1).drop_last() =~= entries.take(i));
            let key = entry.0.show();
            let found = entry.1.validate();
            errors.merge_entry(key.as_str(), found, Ghost(entries[i].1.faults()));
        }
        assert(entries.take(entries.len() as int) =~= entries);
        proof {
            lemma_lists(btree::spec_btree_map_iter(self).remaining(), self@);
        }
        errors.into_result()
    }
}

/// `BTreeMap::iter` on a map with texts for keys: it walks the entries, which
/// are sorted by key, from the first to the last.
#[verifier::external_body]
fn walk_texts<'a, V>(
    map: &'a std::collections::BTreeMap<String, V>,
) -> (walk: std::collections::btree_map::Iter<'a, String, V>)
    ensures
        walk == btree::spec_btree_map_iter(map),
        IteratorSpec::decrease(&walk) is Some,
        IteratorSpec::initial_value_relation(&walk, &walk),
        in_text_order(btree::into_iter(walk)),
{
    map.iter()
}

impl<V: Validate> Validate for std::collections::BTreeMap<String, V> {
    open spec fn faults(&self) -> Seq<FieldFailure> {
        keyed_faults(text_entries(btree::into_iter(btree::spec_btree_map_iter(self))))
    }

    fn validate(&self) -> (r: Result<(), ValidationErrors>)
        ensures
            lists(btree::into_iter(btree::spec_btree_map_iter(self)), self@),
            in_text_order(btree::into_iter(btree::spec_btree_map_iter(self))),
    {
        let mut errors = ValidationErrors::new();
        let ghost walked = btree::into_iter(btree::spec_btree_map_iter(self));
        let ghost entries = text_entries(walked);
        assert(entries.take(0) =~= Seq::<(Seq<char>, V)>::empty());
        for entry in it: walk_texts(self)
            invariant
                walked == btree::into_iter(btree::spec_btree_map_iter(self)),
                it.seq() == btree::spec_btree_map_iter(self).remaining(),
                it.seq().unref() == walked,
                entries == text_entries(walked),
                in_text_order(walked),
                errors@ == keyed_faults(entries.take(it.index())),
        {
            let ghost i = it.index();
            assert(entries.take(i + 1).drop_last() =~= entries.take(i));
            let found = entry.1.validate();
            errors.merge_entry(entry.0.as_str(), found, Ghost(entries[i].1.faults()));
        }
        assert(entries.take(entries.len() as int) =~= entries);
        proof {
            lemma_lists(btree::spec_btree_map_iter(self).remaining(), self@);
        }
        errors.into_result()
    }
}

// ---- values that are always valid ----

impl Validate for () {
    open spec fn faults(&self) -> Seq<FieldFailure> {
        Seq::empty()
    }

    fn validate(&self) -> (r: Result<(), ValidationErrors>) {
        Ok(())
    }
}

impl Validate for bool {
    open spec fn faults(&self) -> Seq<FieldFailure> {
        Seq::empty()
    }

    fn validate(&self) -> (r: Result<(), ValidationErrors>) {
        Ok(())
    }
}

impl Validate for char {
    open spec fn faults(&self) -> Seq<FieldFailure> {
        Seq::empty()
    }

    fn validate(&self) -> (r: Result<(), ValidationErrors>) {
        Ok(())
    }
}

impl Validate for String {
    open spec fn faults(&self) -> Seq<FieldFailure> {
        Seq::empty()
    }

    fn validate(&self) -> (r: Result<(), ValidationErrors>) {
        Ok(())
    }
}

impl Validate for i8 {
    open spec fn faults(&self) -> Seq<FieldFailure> {
        Seq::empty()
    }

    fn validate(&self) -> (r: Result<(), ValidationErrors>) {
        Ok(())
    }
}

impl Validate for i16 {
    open spec fn faults(&self) -> Seq<FieldFailure> {
        Seq::empty()
    }

    fn validate(&self) -> (r: Result<(), ValidationErrors>) {
        Ok(())
    }
}

impl Validate for i32 {
    open spec fn faults(&self) -> Seq<FieldFailure> {
        Seq::empty()
    }

    fn validate(&self) -> (r: Result<(), ValidationErrors>) {
        Ok(())
    }
}

impl Validate for i64 {
    open spec fn faults(&self) -> Seq<FieldFailure> {
        Seq::empty()
    }

    fn validate(&self) -> (r: Result<(), ValidationErrors>) {
        Ok(())
    }
}

impl Validate for i128 {
    open spec fn faults(&self) -> Seq<FieldFailure> {
        Seq::empty()
    }

    fn validate(&self) -> (r: Result<(), ValidationErrors>) {
        Ok(())
    }
}

impl Validate for isize {
    open spec fn faults(&self) -> Seq<FieldFailure> {
        Seq::empty()
    }

    fn validate(&self) -> (r: Result<(), ValidationErrors>) {
        Ok(())
    }
}

impl Validate for u8 {
    open spec fn faults(&self) -> Seq<FieldFailure> {
        Seq::empty()
    }

    fn validate(&self) -> (r: Result<(), ValidationErrors>) {
        Ok(())
    }
}

impl Validate for u16 {
    open spec fn faults(&self) -> Seq<FieldFailure> {
        Seq::empty()
    }

    fn validate(&self) -> (r: Result<(), ValidationErrors>) {
        Ok(())
    }
}

impl Validate for u32 {
    open spec fn faults(&self) -> Seq<FieldFailure> {
        Seq::empty()
    }

    fn validate(&self) -> (r: Result<(), ValidationErrors>) {
        Ok(())
    }
}

impl Validate for u64 {
    open spec fn faults(&self) -> Seq<FieldFailure> {
        Seq::empty()
    }

    fn validate(&self) -> (r: Result<(), ValidationErrors>) {
        Ok(())
    }
}

impl Validate for u128 {
    open spec fn faults(&self) -> Seq<FieldFailure> {
        Seq::empty()
    }

    fn validate(&self) -> (r: Result<(), ValidationErrors>) {
        Ok(())
    }
}

impl Validate for usize {
    open spec fn faults(&self) -> Seq<FieldFailure> {
        Seq::empty()
    }

    fn validate(&self) -> (r: Result<(), ValidationErrors>) {
        Ok(())
    }
}

impl Validate for str {
    open spec fn faults(&self) -> Seq<FieldFailure> {
        Seq::empty()
    }

    fn validate(&self) -> (r: Result<(), ValidationErrors>) {
        Ok(())
    }
}

impl Validate for std::path::PathBuf {
    open spec fn faults(&self) -> Seq<FieldFailure> {
        Seq::empty()
    }

    fn validate(&self) -> (r: Result<(), ValidationErrors>) {
        Ok(())
    }
}

impl Validate for std::time::Duration {
    open spec fn faults(&self) -> Seq<FieldFailure> {
        Seq::empty()
    }

    fn validate(&self) -> (r: Result<(), ValidationErrors>) {
        Ok(())
    }
}

impl Validate for uuid::Uuid {
    open spec fn faults(&self) -> Seq<FieldFailure> {
        Seq::empty()
    }

    fn validate(&self) -> (r: Result<(), ValidationErrors>) {
        Ok(())
    }
}

impl Validate for chrono::NaiveDate {
    open spec fn faults(&self) -> Seq<FieldFailure> {
        Seq::empty()
    }

    fn validate(&self) -> (r: Result<(), ValidationErrors>) {
        Ok(())
    }
}

impl Validate for chrono::NaiveTime {
    open spec fn faults(&self) -> Seq<FieldFailure> {
        Seq::empty()
    }

    fn validate(&self) -> (r: Result<(), ValidationErrors>) {
        Ok(())
    }
}

impl Validate for chrono::NaiveDateTime {
    open spec fn faults(&self) -> Seq<FieldFailure> {
        Seq::empty()
    }

    fn validate(&self) -> (r: Result<(), ValidationErrors>) {
        Ok(())
    }
}

impl Validate for crate::json::Value {
    open spec fn faults(&self) -> Seq<FieldFailure> {
        Seq::empty()
    }

    fn validate(&self) -> (r: Result<(), ValidationErrors>) {
        Ok(())
    }
}

/// One segment of a JSON pointer, escaped per RFC 6901.
pub open spec fn escaped(segment: Seq<char>) -> Seq<char> {
    text::replaced(text::replaced(segment, '~', "~0"@), '/', "~1"@)
}

/// Escapes `~` and `/` per RFC 6901 so map keys cannot forge pointer segments.
pub fn escape_pointer(segment: &str) -> (out: String)
    ensures
        out@ == escaped(segment@),
{
    let tildes = text::replace_char(segment, '~', "~0");
    text::replace_char(tildes.as_str(), '/', "~1")
}

/// What an escaped segment stands for.
pub open spec fn unescaped(s: Seq<char>) -> Seq<char>
    decreases s.len(),
{
    if s.len() == 0 {
        Seq::empty()
    } else if s.len() >= 2 && s[0] == '~' && s[1] == '0' {
        seq!['~'] + unescaped(s.skip(2))
    } else if s.len() >= 2 && s[0] == '~' && s[1] == '1' {
        seq!['/'] + unescaped(s.skip(2))
    } else {
        seq![s[0]] + unescaped(s.skip(1))
    }
}

/// How one character is escaped.
spec fn escape_of(c: char) -> Seq<char> {
    if c == '~' {
        "~0"@
    } else if c == '/' {
        "~1"@
    } else {
        seq![c]
    }
}

proof fn lemma_escaped_front(s: Seq<char>)
    requires
        s.len() > 0,
    ensures
        escaped(s) == escape_of(s[0]) + escaped(s.skip(1)),
{
    reveal_with_fuel(text::replaced, 4);
    reveal_strlit("~0");
    reveal_strlit("~1");
    let a = text::replaced(s, '~', "~0"@);
    text::lemma_replaced_concat(seq![s[0]], s.skip(1), '~', "~0"@);
    assert(seq![s[0]] + s.skip(1) =~= s);
    let head = text::replaced(seq![s[0]], '~', "~0"@);
    text::lemma_replaced_concat(head, text::replaced(s.skip(1), '~', "~0"@), '/', "~1"@);
    assert(seq![s[0]].drop_last() =~= Seq::<char>::empty());
    if s[0] == '~' {
        assert(head =~= "~0"@);
        assert("~0"@.drop_last() =~= seq!['~']);
        assert(seq!['~'].drop_last() =~= Seq::<char>::empty());
        assert(text::replaced(seq!['~'], '/', "~1"@) =~= seq!['~']);
        assert(text::replaced("~0"@, '/', "~1"@) =~= "~0"@);
    } else {
        assert(head =~= seq![s[0]]);
        assert(text::replaced(seq![s[0]], '/', "~1"@) =~= escape_of(s[0]));
    }
}

/// An escaped segment holds no slash, and what it stands for can be told.
pub proof fn an_escaped_segment_is_one_segment(s: Seq<char>)
    ensures
        !escaped(s).contains('/'),
        unescaped(escaped(s)) == s,
    decreases s.len(),
{
    if s.len() == 0 {
        assert(escaped(s) =~= Seq::<char>::empty());
        assert(s =~= Seq::<char>::empty());
    } else {
        an_escaped_segment_is_one_segment(s.skip(1));
        lemma_escaped_front(s);
        reveal_strlit("~0");
        reveal_strlit("~1");
        let head = escape_of(s[0]);
        let tail = escaped(s.skip(1));
        let e = escaped(s);
        assert(e == head + tail);
        assert(e.skip(head.len() as int) =~= tail);
        if e.contains('/') {
            let i = choose|i: int| 0 <= i < e.len() && e[i] == '/';
            if i >= head.len() {
                assert(tail[i - head.len()] == '/');
            }
        }
        assert(e[0] == head[0]);
        if s[0] == '~' || s[0] == '/' {
            assert(e[1] == head[1]);
        }
        assert(seq![s[0]] + s.skip(1) =~= s);
    }
}

/// Two keys never share a pointer segment.
pub proof fn escaping_keeps_keys_apart(a: Seq<char>, b: Seq<char>)
    requires
        escaped(a) == escaped(b),
    ensures
        a == b,
{
    an_escaped_segment_is_one_segment(a);
    an_escaped_segment_is_one_segment(b);
}

/// Merging in two steps is merging under the joined prefix.
pub proof fn prefixes_compose(list: Seq<FieldFailure>, inner: Seq<char>, outer: Seq<char>)
    ensures
        prefixed(prefixed(list, inner), outer) == prefixed(list, outer + inner),
{
    let a = prefixed(prefixed(list, inner), outer);
    let b = prefixed(list, outer + inner);
    assert forall|i: int| 0 <= i < list.len() implies a[i] == b[i] by {
        assert(outer + (inner + list[i].pointer) =~= (outer + inner) + list[i].pointer);
    }
    assert(a =~= b);
}

} // verus!
