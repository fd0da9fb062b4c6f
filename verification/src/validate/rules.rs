//! The checks a validation rule stands for.
//!
//! These are what derived validation calls; they are public so hand-written
//! validation can reuse them. Where a check compares floating-point numbers or
//! reads a network address, the caller compares or reads, and the rule records
//! the outcome.

use crate::error::FieldFailure;
use crate::text;
use crate::validate::choice;
use crate::validate::choice::Choice;
use crate::validate::ValidationErrors;
use vstd::prelude::*;
use vstd::string::*;
use vstd::utf8::*;

verus! {

/// Anything with a meaningful length: strings count characters, containers
/// count elements.
pub trait Length {
    /// The length, as a number.
    spec fn size(&self) -> nat;

    /// What the length is counting, as a text.
    spec fn counted() -> Seq<char>;

    fn measure(&self) -> (n: usize)
        ensures
            n == self.size(),
    ;

    /// What the length is counting, used in messages.
    fn unit() -> (unit: String)
        ensures
            unit@ == Self::counted(),
    ;
}

// Characters, not bytes: JSON Schema counts code points, and a byte count would
// reject valid non-ASCII input.
impl Length for str {
    open spec fn size(&self) -> nat {
        self@.len()
    }

    open spec fn counted() -> Seq<char> {
        "characters"@
    }

    fn measure(&self) -> (n: usize) {
        self.unicode_len()
    }

    fn unit() -> (unit: String) {
        "characters".to_owned()
    }
}

impl Length for String {
    open spec fn size(&self) -> nat {
        self@.len()
    }

    open spec fn counted() -> Seq<char> {
        "characters"@
    }

    fn measure(&self) -> (n: usize) {
        self.as_str().unicode_len()
    }

    fn unit() -> (unit: String) {
        "characters".to_owned()
    }
}

impl<T> Length for Vec<T> {
    open spec fn size(&self) -> nat {
        self@.len()
    }

    open spec fn counted() -> Seq<char> {
        "items"@
    }

    fn measure(&self) -> (n: usize) {
        self.len()
    }

    fn unit() -> (unit: String) {
        "items".to_owned()
    }
}

impl<T> Length for [T] {
    open spec fn size(&self) -> nat {
        self@.len()
    }

    open spec fn counted() -> Seq<char> {
        "items"@
    }

    fn measure(&self) -> (n: usize) {
        self.len()
    }

    fn unit() -> (unit: String) {
        "items".to_owned()
    }
}

impl<K, V, S> Length for std::collections::HashMap<K, V, S> {
    open spec fn size(&self) -> nat {
        vstd::std_specs::hash::spec_hash_map_len(self) as nat
    }

    open spec fn counted() -> Seq<char> {
        "entries"@
    }

    fn measure(&self) -> (n: usize) {
        self.len()
    }

    fn unit() -> (unit: String) {
        "entries".to_owned()
    }
}

impl<T, S> Length for std::collections::HashSet<T, S> {
    open spec fn size(&self) -> nat {
        vstd::std_specs::hash::spec_hash_set_len(self) as nat
    }

    open spec fn counted() -> Seq<char> {
        "items"@
    }

    fn measure(&self) -> (n: usize) {
        self.len()
    }

    fn unit() -> (unit: String) {
        "items".to_owned()
    }
}

impl<K, V> Length for std::collections::BTreeMap<K, V> {
    open spec fn size(&self) -> nat {
        vstd::std_specs::btree::spec_btree_map_len(self) as nat
    }

    open spec fn counted() -> Seq<char> {
        "entries"@
    }

    fn measure(&self) -> (n: usize) {
        self.len()
    }

    fn unit() -> (unit: String) {
        "entries".to_owned()
    }
}

impl<T> Length for std::collections::BTreeSet<T> {
    open spec fn size(&self) -> nat {
        vstd::std_specs::btree::spec_btree_set_len(self) as nat
    }

    open spec fn counted() -> Seq<char> {
        "items"@
    }

    fn measure(&self) -> (n: usize) {
        self.len()
    }

    fn unit() -> (unit: String) {
        "items".to_owned()
    }
}

impl<V> Length for crate::openapi::ordered::OrderedMap<V> {
    open spec fn size(&self) -> nat {
        self@.len()
    }

    open spec fn counted() -> Seq<char> {
        "entries"@
    }

    fn measure(&self) -> (n: usize) {
        self.len()
    }

    fn unit() -> (unit: String) {
        "entries".to_owned()
    }
}

/// The failures after a check: one more if it failed.
pub open spec fn checked(
    before: Seq<FieldFailure>,
    ok: bool,
    pointer: Seq<char>,
    code: Seq<char>,
    message: Seq<char>,
) -> Seq<FieldFailure> {
    if ok {
        before
    } else {
        before.push(FieldFailure { pointer, code, message })
    }
}

fn check(ok: bool, pointer: &str, code: &str, message: &str, errors: &mut ValidationErrors)
    ensures
        final(errors)@ == checked(old(errors)@, ok, pointer@, code@, message@),
{
    if !ok {
        errors.push(pointer, code, message);
    }
}

pub open spec fn min_length_text(min: nat, unit: Seq<char>, actual: nat) -> Seq<char> {
    "must be at least "@ + text::decimal(min) + " "@ + unit + ", got "@ + text::decimal(actual)
}

pub open spec fn max_length_text(max: nat, unit: Seq<char>, actual: nat) -> Seq<char> {
    "must be at most "@ + text::decimal(max) + " "@ + unit + ", got "@ + text::decimal(actual)
}

pub open spec fn min_items_text(min: nat) -> Seq<char> {
    "must have at least "@ + text::decimal(min) + " items"@
}

pub open spec fn max_items_text(max: nat) -> Seq<char> {
    "must have at most "@ + text::decimal(max) + " items"@
}

pub fn min_length<T: Length + ?Sized>(
    value: &T,
    min: usize,
    pointer: &str,
    errors: &mut ValidationErrors,
)
    ensures
        final(errors)@ == checked(
            old(errors)@,
            value.size() >= min,
            pointer@,
            "min_length"@,
            min_length_text(min as nat, T::counted(), value.size()),
        ),
{
    min_length_of(value.measure(), T::unit().as_str(), min as u64, pointer, errors);
}

/// Records a length that is out of bounds.
pub fn min_length_of(
    actual: usize,
    unit: &str,
    min: u64,
    pointer: &str,
    errors: &mut ValidationErrors,
)
    ensures
        final(errors)@ == checked(
            old(errors)@,
            actual >= min,
            pointer@,
            "min_length"@,
            min_length_text(min as nat, unit@, actual as nat),
        ),
{
    let mut message = "must be at least ".to_owned();
    message.append(text::decimal_text(min).as_str());
    message.append(" ");
    message.append(unit);
    message.append(", got ");
    message.append(text::decimal_text(actual as u64).as_str());
    check(actual as u64 >= min, pointer, "min_length", message.as_str(), errors);
}

pub fn max_length<T: Length + ?Sized>(
    value: &T,
    max: usize,
    pointer: &str,
    errors: &mut ValidationErrors,
)
    ensures
        final(errors)@ == checked(
            old(errors)@,
            value.size() <= max,
            pointer@,
            "max_length"@,
            max_length_text(max as nat, T::counted(), value.size()),
        ),
{
    max_length_of(value.measure(), T::unit().as_str(), max as u64, pointer, errors);
}

/// Records a length that is out of bounds.
pub fn max_length_of(
    actual: usize,
    unit: &str,
    max: u64,
    pointer: &str,
    errors: &mut ValidationErrors,
)
    ensures
        final(errors)@ == checked(
            old(errors)@,
            actual <= max,
            pointer@,
            "max_length"@,
            max_length_text(max as nat, unit@, actual as nat),
        ),
{
    let mut message = "must be at most ".to_owned();
    message.append(text::decimal_text(max).as_str());
    message.append(" ");
    message.append(unit);
    message.append(", got ");
    message.append(text::decimal_text(actual as u64).as_str());
    check(actual as u64 <= max, pointer, "max_length", message.as_str(), errors);
}

pub fn min_items<T: Length + ?Sized>(
    value: &T,
    min: usize,
    pointer: &str,
    errors: &mut ValidationErrors,
)
    ensures
        final(errors)@ == checked(
            old(errors)@,
            value.size() >= min,
            pointer@,
            "min_items"@,
            min_items_text(min as nat),
        ),
{
    min_items_of(value.measure(), min as u64, pointer, errors);
}

/// Records a number of items that is out of bounds.
pub fn min_items_of(actual: usize, min: u64, pointer: &str, errors: &mut ValidationErrors)
    ensures
        final(errors)@ == checked(
            old(errors)@,
            actual >= min,
            pointer@,
            "min_items"@,
            min_items_text(min as nat),
        ),
{
    let mut message = "must have at least ".to_owned();
    message.append(text::decimal_text(min).as_str());
    message.append(" items");
    check(actual as u64 >= min, pointer, "min_items", message.as_str(), errors);
}

pub fn max_items<T: Length + ?Sized>(
    value: &T,
    max: usize,
    pointer: &str,
    errors: &mut ValidationErrors,
)
    ensures
        final(errors)@ == checked(
            old(errors)@,
            value.size() <= max,
            pointer@,
            "max_items"@,
            max_items_text(max as nat),
        ),
{
    max_items_of(value.measure(), max as u64, pointer, errors);
}

/// Records a number of items that is out of bounds.
pub fn max_items_of(actual: usize, max: u64, pointer: &str, errors: &mut ValidationErrors)
    ensures
        final(errors)@ == checked(
            old(errors)@,
            actual <= max,
            pointer@,
            "max_items"@,
            max_items_text(max as nat),
        ),
{
    let mut message = "must have at most ".to_owned();
    message.append(text::decimal_text(max).as_str());
    message.append(" items");
    check(actual as u64 <= max, pointer, "max_items", message.as_str(), errors);
}

/// Records a value below its minimum; `min` is the bound in decimal.
pub fn minimum(ok: bool, min: &str, pointer: &str, errors: &mut ValidationErrors)
    ensures
        final(errors)@ == checked(old(errors)@, ok, pointer@, "minimum"@, "must be >= "@ + min@),
{
    let mut message = "must be >= ".to_owned();
    message.append(min);
    check(ok, pointer, "minimum", message.as_str(), errors);
}

/// Records a value above its maximum; `max` is the bound in decimal.
pub fn maximum(ok: bool, max: &str, pointer: &str, errors: &mut ValidationErrors)
    ensures
        final(errors)@ == checked(old(errors)@, ok, pointer@, "maximum"@, "must be <= "@ + max@),
{
    let mut message = "must be <= ".to_owned();
    message.append(max);
    check(ok, pointer, "maximum", message.as_str(), errors);
}

/// Records a value that does not exceed its exclusive minimum.
pub fn exclusive_minimum(ok: bool, min: &str, pointer: &str, errors: &mut ValidationErrors)
    ensures
        final(errors)@ == checked(
            old(errors)@,
            ok,
            pointer@,
            "exclusive_minimum"@,
            "must be > "@ + min@,
        ),
{
    let mut message = "must be > ".to_owned();
    message.append(min);
    check(ok, pointer, "exclusive_minimum", message.as_str(), errors);
}

/// Records a value that reaches its exclusive maximum.
pub fn exclusive_maximum(ok: bool, max: &str, pointer: &str, errors: &mut ValidationErrors)
    ensures
        final(errors)@ == checked(
            old(errors)@,
            ok,
            pointer@,
            "exclusive_maximum"@,
            "must be < "@ + max@,
        ),
{
    let mut message = "must be < ".to_owned();
    message.append(max);
    check(ok, pointer, "exclusive_maximum", message.as_str(), errors);
}

/// Records a value that is no multiple of `divisor`.
pub fn multiple_of(ok: bool, divisor: &str, pointer: &str, errors: &mut ValidationErrors)
    ensures
        final(errors)@ == checked(
            old(errors)@,
            ok,
            pointer@,
            "multiple_of"@,
            "must be a multiple of "@ + divisor@,
        ),
{
    let mut message = "must be a multiple of ".to_owned();
    message.append(divisor);
    check(ok, pointer, "multiple_of", message.as_str(), errors);
}

/// Rejects strings that are empty or entirely whitespace. `min_length = 1`
/// accepts `" "`, which is almost never what the author meant.
pub fn non_blank(value: &str, pointer: &str, errors: &mut ValidationErrors)
    ensures
        final(errors)@ == checked(
            old(errors)@,
            text::trim(value@).len() > 0,
            pointer@,
            "non_blank"@,
            "must not be blank"@,
        ),
{
    check(!text::blank(value), pointer, "non_blank", "must not be blank", errors);
}

/// What `{:?}` prints of a text.
pub uninterp spec fn quoted(s: Seq<char>) -> Seq<char>;

/// The characters that `{:?}` prints as they are.
pub open spec fn is_plain(c: char) -> bool {
    32 <= c as int && c as int <= 126 && c != '"' && c != '\\'
}

/// The `Debug` form of a `str`: in double quotes, with printable ASCII other
/// than quotes and backslashes as it is. How the rest is escaped is named.
#[verifier::external_body]
pub(crate) fn debug_text(s: &str) -> (out: String)
    ensures
        out@ == quoted(s@),
        (forall|i: int| 0 <= i < s@.len() ==> is_plain(#[trigger] s@[i])) ==> out@ == seq!['"']
            + s@ + seq!['"'],
{
    format!("{s:?}")
}

/// Rejects strings without `needle`.
pub fn contains(value: &str, needle: &str, pointer: &str, errors: &mut ValidationErrors)
    ensures
        final(errors)@ == checked(
            old(errors)@,
            text::has_part(value@, needle@),
            pointer@,
            "contains"@,
            "must contain "@ + quoted(needle@),
        ),
{
    let mut message = "must contain ".to_owned();
    message.append(debug_text(needle).as_str());
    check(text::contains_text(value, needle), pointer, "contains", message.as_str(), errors);
}

/// Rejects values outside a closed set.
pub fn one_of<T: Choice>(value: &T, allowed: &[T], pointer: &str, errors: &mut ValidationErrors)
    ensures
        final(errors)@ == checked(
            old(errors)@,
            choice::offers(allowed@, value),
            pointer@,
            "one_of"@,
            "must be one of "@ + choice::shown_list(allowed@),
        ),
{
    let mut message = "must be one of ".to_owned();
    message.append(choice::show_list(allowed).as_str());
    check(choice::is_offered(allowed, value), pointer, "one_of", message.as_str(), errors);
}

/// Whether a regular expression matches somewhere in a text, if it compiles.
pub uninterp spec fn regex_verdict(pattern: Seq<char>, value: Seq<char>) -> Option<bool>;

/// `regex::Regex::new` followed by `is_match`: nothing where the pattern does
/// not compile, otherwise whether it matches somewhere in the text. What a
/// pattern matches is named, not described.
#[verifier::external_body]
pub(crate) fn regex_match(pattern: &str, value: &str) -> (verdict: Option<bool>)
    ensures
        verdict == regex_verdict(pattern@, value@),
{
    regex::Regex::new(pattern).ok().map(|re| re.is_match(value))
}

/// What is recorded for a verdict on a pattern.
pub open spec fn pattern_checked(
    before: Seq<FieldFailure>,
    verdict: Option<bool>,
    regex: Seq<char>,
    pointer: Seq<char>,
) -> Seq<FieldFailure> {
    match verdict {
        Some(ok) => checked(before, ok, pointer, "pattern"@, "must match /"@ + regex + "/"@),
        None => checked(before, false, pointer, "pattern"@, "server-side pattern is invalid"@),
    }
}

/// Records the verdict of a pattern: matched or not, or `None` for one that
/// does not compile.
pub fn pattern_verdict(
    verdict: Option<bool>,
    regex: &str,
    pointer: &str,
    errors: &mut ValidationErrors,
)
    ensures
        final(errors)@ == pattern_checked(old(errors)@, verdict, regex@, pointer@),
{
    match verdict {
        Some(ok) => pattern_compiled(ok, regex, pointer, errors),
        None => errors.push(pointer, "pattern", "server-side pattern is invalid"),
    }
}

/// Rejects texts that a regular expression does not match.
pub fn pattern(value: &str, regex: &str, pointer: &str, errors: &mut ValidationErrors)
    ensures
        final(errors)@ == pattern_checked(
            old(errors)@,
            regex_verdict(regex@, value@),
            regex@,
            pointer@,
        ),
{
    let verdict = regex_match(regex, value);
    pattern_verdict(verdict, regex, pointer, errors);
}

/// Records whether a compiled pattern, whose source is `regex`, matched.
pub fn pattern_compiled(matched: bool, regex: &str, pointer: &str, errors: &mut ValidationErrors)
    ensures
        final(errors)@ == checked(
            old(errors)@,
            matched,
            pointer@,
            "pattern"@,
            "must match /"@ + regex@ + "/"@,
        ),
{
    let mut message = "must match /".to_owned();
    message.append(regex);
    message.append("/");
    check(matched, pointer, "pattern", message.as_str(), errors);
}

/// Whether a text has a format. Unknown formats hold of every text; whether an
/// address is one is given by `address`.
pub open spec fn has_format(value: Seq<char>, format: Seq<char>, address: bool) -> bool {
    if format == "email"@ {
        email(value)
    } else if format == "uri"@ || format == "url"@ {
        uri(value)
    } else if format == "uuid"@ {
        uuid(encode_utf8(value))
    } else if format == "ipv4"@ || format == "ipv6"@ {
        address
    } else if format == "hostname"@ {
        hostname(value)
    } else if format == "date-time"@ {
        rfc3339(encode_utf8(value))
    } else {
        true
    }
}

/// Validates a `format` keyword. Unknown formats pass, matching JSON Schema's
/// annotation-by-default semantics. `address` tells whether the value is an
/// address of the family that an `ipv4` or `ipv6` format asks for.
pub fn format(
    value: &str,
    format: &str,
    address: bool,
    pointer: &str,
    errors: &mut ValidationErrors,
)
    ensures
        final(errors)@ == checked(
            old(errors)@,
            has_format(value@, format@, address),
            pointer@,
            "format"@,
            "must be a valid "@ + format@,
        ),
{
    let ok = if text::same(format, "email") {
        is_email(value)
    } else if text::same(format, "uri") || text::same(format, "url") {
        is_uri(value)
    } else if text::same(format, "uuid") {
        is_uuid(value)
    } else if text::same(format, "ipv4") || text::same(format, "ipv6") {
        address
    } else if text::same(format, "hostname") {
        is_hostname(value)
    } else if text::same(format, "date-time") {
        is_rfc3339(value)
    } else {
        true
    };
    let mut message = "must be a valid ".to_owned();
    message.append(format);
    check(ok, pointer, "format", message.as_str(), errors);
}

/// The number of bytes a text takes in UTF-8.
pub open spec fn bytes_in(s: Seq<char>) -> nat {
    encode_utf8(s).len()
}

/// Two dots stand next to each other.
pub open spec fn doubled_dot(s: Seq<char>) -> bool {
    exists|i: int| 0 <= i < s.len() - 1 && #[trigger] s[i] == '.' && s[i + 1] == '.'
}

pub open spec fn is_alnum(c: char) -> bool {
    let n = c as int;
    (48 <= n <= 57) || (65 <= n <= 90) || (97 <= n <= 122)
}

pub open spec fn is_alpha(c: char) -> bool {
    let n = c as int;
    (65 <= n <= 90) || (97 <= n <= 122)
}

/// One label of a host name.
pub open spec fn label(s: Seq<char>) -> bool {
    &&& s.len() > 0
    &&& bytes_in(s) <= 63
    &&& s.first() != '-'
    &&& s.last() != '-'
    &&& forall|i: int| 0 <= i < s.len() ==> is_alnum(#[trigger] s[i]) || s[i] == '-'
}

/// Labels separated by dots, 253 bytes at most.
pub open spec fn hostname(s: Seq<char>) -> bool {
    &&& s.len() > 0
    &&& bytes_in(s) <= 253
    &&& s.first() != '.'
    &&& s.last() != '.'
    &&& forall|i: int|
        0 <= i < text::split(s, '.').len() ==> label(#[trigger] text::split(s, '.')[i])
}

/// One `@` between a local part of at most 64 bytes without stray dots and a
/// host name with a dot in it.
pub open spec fn email(s: Seq<char>) -> bool {
    let parts = text::split(s, '@');
    &&& parts.len() == 2
    &&& parts[0].len() > 0
    &&& bytes_in(parts[0]) <= 64
    &&& parts[0].first() != '.'
    &&& parts[0].last() != '.'
    &&& !doubled_dot(parts[0])
    &&& hostname(parts[1])
    &&& parts[1].contains('.')
}

pub open spec fn scheme_char(c: char) -> bool {
    is_alnum(c) || c == '+' || c == '-' || c == '.'
}

/// A scheme that starts with a letter, a colon, and something after it.
pub open spec fn uri(s: Seq<char>) -> bool {
    match text::split_once(s, ':') {
        None => false,
        Some((scheme, rest)) => {
            &&& rest.len() > 0
            &&& scheme.len() > 0
            &&& is_alpha(scheme.first())
            &&& forall|i: int| 0 <= i < scheme.len() ==> scheme_char(#[trigger] scheme[i])
        },
    }
}

pub open spec fn is_hex(b: u8) -> bool {
    (48 <= b <= 57) || (65 <= b <= 70) || (97 <= b <= 102)
}

pub open spec fn is_digit(b: u8) -> bool {
    48 <= b <= 57
}

/// 36 bytes: hexadecimal digits with dashes after 8, 12, 16 and 20 of them.
pub open spec fn uuid(b: Seq<u8>) -> bool {
    &&& b.len() == 36
    &&& forall|i: int|
        0 <= i < 36 ==> if i == 8 || i == 13 || i == 18 || i == 23 {
            #[trigger] b[i] == 45
        } else {
            is_hex(b[i])
        }
}

/// The shape of a timestamp: four digits, and separators where they belong.
pub open spec fn rfc3339(b: Seq<u8>) -> bool {
    &&& b.len() >= 20
    &&& is_digit(b[0]) && is_digit(b[1]) && is_digit(b[2]) && is_digit(b[3])
    &&& b[4] == 45
    &&& b[7] == 45
    &&& b[10] == 84 || b[10] == 116 || b[10] == 32
    &&& b[13] == 58
    &&& b[16] == 58
}

fn alnum(c: char) -> (r: bool)
    ensures
        r == is_alnum(c),
{
    let n: u32 = c as u32;
    (48 <= n && n <= 57) || (65 <= n && n <= 90) || (97 <= n && n <= 122)
}

fn alpha(c: char) -> (r: bool)
    ensures
        r == is_alpha(c),
{
    let n: u32 = c as u32;
    (65 <= n && n <= 90) || (97 <= n && n <= 122)
}

fn has_doubled_dot(v: &Vec<char>) -> (r: bool)
    ensures
        r == doubled_dot(v@),
{
    let n: usize = v.len();
    let mut i: usize = 0;
    while i < n && i < n - 1
        invariant
            i <= n == v@.len(),
            forall|j: int| 0 <= j < i && j < v@.len() - 1 && #[trigger] v@[j] == '.' ==> v@[j + 1]
                != '.',
        decreases v@.len() - i,
    {
        if v[i] == '.' && v[i + 1] == '.' {
            return true;
        }
        i += 1;
    }
    false
}

/// A deliberately structural email check.
///
/// Regex-based email validation is famously either wrong or unreadable; this
/// rejects what is unambiguously invalid and leaves the rest to a confirmation
/// mail, which is the only real check anyway.
pub fn is_email(value: &str) -> (r: bool)
    ensures
        r == email(value@),
{
    let parts = text::split_text(value, '@');
    let ghost all = text::split(value@, '@');
    if parts.len() != 2 {
        return false;
    }
    assert(all[0] == parts@[0]@ && all[1] == parts@[1]@);
    let v = text::chars(parts[0].as_str());
    let n: usize = v.len();
    if n == 0 || parts[0].as_str().as_bytes().len() > 64 || v[0] == '.' || v[n - 1] == '.' {
        return false;
    }
    !has_doubled_dot(&v) && is_hostname(parts[1].as_str()) && text::has_char(
        parts[1].as_str(),
        '.',
    )
}

fn is_label(s: &str) -> (r: bool)
    ensures
        r == label(s@),
{
    let v = text::chars(s);
    let n: usize = v.len();
    if n == 0 || s.as_bytes().len() > 63 || v[0] == '-' || v[n - 1] == '-' {
        return false;
    }
    for i in 0..n
        invariant
            n == v@.len(),
            v@ == s@,
            forall|j: int| 0 <= j < i ==> is_alnum(#[trigger] v@[j]) || v@[j] == '-',
    {
        if !alnum(v[i]) && v[i] != '-' {
            assert(!is_alnum(s@[i as int]) && s@[i as int] != '-');
            return false;
        }
    }
    true
}

pub fn is_hostname(value: &str) -> (r: bool)
    ensures
        r == hostname(value@),
{
    let v = text::chars(value);
    let n: usize = v.len();
    if n == 0 || value.as_bytes().len() > 253 || v[0] == '.' || v[n - 1] == '.' {
        return false;
    }
    let labels = text::split_text(value, '.');
    let ghost all = text::split(value@, '.');
    for i in 0..labels.len()
        invariant
            text::views(labels@) == all,
            all == text::split(value@, '.'),
            forall|j: int| 0 <= j < i ==> label(#[trigger] all[j]),
    {
        assert(all[i as int] == labels@[i as int]@);
        if !is_label(labels[i].as_str()) {
            return false;
        }
    }
    true
}

pub fn is_uri(value: &str) -> (r: bool)
    ensures
        r == uri(value@),
{
    match text::cut(value, ':') {
        None => false,
        Some((scheme, rest)) => {
            let v = text::chars(scheme.as_str());
            if rest.as_str().is_empty() || v.len() == 0 || !alpha(v[0]) {
                return false;
            }
            for i in 0..v.len()
                invariant
                    v@ == scheme@,
                    text::split_once(value@, ':') == Some((scheme@, rest@)),
                    forall|j: int| 0 <= j < i ==> scheme_char(#[trigger] v@[j]),
            {
                let c = v[i];
                if !alnum(c) && c != '+' && c != '-' && c != '.' {
                    assert(!scheme_char(scheme@[i as int]));
                    return false;
                }
            }
            true
        },
    }
}

pub fn is_uuid(value: &str) -> (r: bool)
    ensures
        r == uuid(encode_utf8(value@)),
{
    let b = value.as_bytes();
    if b.len() != 36 {
        return false;
    }
    for i in 0..36
        invariant
            b@.len() == 36,
            b@ == encode_utf8(value@),
            forall|j: int|
                0 <= j < i ==> if j == 8 || j == 13 || j == 18 || j == 23 {
                    #[trigger] b@[j] == 45
                } else {
                    is_hex(b@[j])
                },
    {
        let x: u8 = b[i];
        let ok = if i == 8 || i == 13 || i == 18 || i == 23 {
            x == 45
        } else {
            (48 <= x && x <= 57) || (65 <= x && x <= 70) || (97 <= x && x <= 102)
        };
        if !ok {
            assert(encode_utf8(value@)[i as int] == x);
            return false;
        }
    }
    true
}

pub fn is_rfc3339(value: &str) -> (r: bool)
    ensures
        r == rfc3339(encode_utf8(value@)),
{
    // Cheap shape check: YYYY-MM-DDT..
    let b = value.as_bytes();
    b.len() >= 20 && digit(b[0]) && digit(b[1]) && digit(b[2]) && digit(b[3]) && b[4] == 45 && b[7]
        == 45 && (b[10] == 84 || b[10] == 116 || b[10] == 32) && b[13] == 58 && b[16] == 58
}

fn digit(b: u8) -> (r: bool)
    ensures
        r == is_digit(b),
{
    48 <= b && b <= 57
}

} // verus!
