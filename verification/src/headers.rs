//! Header fields, kept in the `http` crate's header map.

use crate::text;
use http::{HeaderMap, HeaderName, HeaderValue};
use vstd::prelude::*;
use vstd::string::*;
use vstd::utf8::*;

verus! {

/// A header name of the `http` crate.
#[verifier::external_type_specification]
#[verifier::external_body]
pub struct ExHeaderName(HeaderName);

/// A header value of the `http` crate.
#[verifier::external_type_specification]
#[verifier::external_body]
pub struct ExHeaderValue(HeaderValue);

/// A header map of the `http` crate.
#[verifier::external_type_specification]
#[verifier::external_body]
#[verifier::reject_recursive_types(T)]
pub struct ExHeaderMap<T>(HeaderMap<T>);

/// The text of a header name.
pub uninterp spec fn name_text(name: HeaderName) -> Seq<char>;

/// The bytes of a header value.
pub uninterp spec fn value_bytes(value: HeaderValue) -> Seq<u8>;

/// The values under each name of a header map, in the order they were added.
pub uninterp spec fn fields_of(map: HeaderMap<HeaderValue>) -> Map<Seq<char>, Seq<Seq<u8>>>;

/// Header fields, as a value.
pub type Fields = Map<Seq<char>, Seq<Seq<u8>>>;

/// No fields at all.
pub open spec fn no_fields() -> Fields {
    Map::empty()
}

/// A character that can stand in a header name.
pub open spec fn is_name_char(c: char) -> bool {
    ||| '0' <= c && c <= '9'
    ||| 'a' <= c && c <= 'z'
    ||| 'A' <= c && c <= 'Z'
    ||| c == '!' || c == '#' || c == '$' || c == '%' || c == '&' || c == '\'' || c == '*'
    ||| c == '+' || c == '-' || c == '.' || c == '^' || c == '_' || c == '`' || c == '|'
    ||| c == '~'
}

/// A text that is a header name.
pub open spec fn is_name(s: Seq<char>) -> bool {
    0 < s.len() <= 65535 && forall|i: int| 0 <= i < s.len() ==> is_name_char(#[trigger] s[i])
}

/// A text that can be a header value: no control characters but tabs.
pub open spec fn is_value(s: Seq<char>) -> bool {
    forall|i: int|
        0 <= i < s.len() ==> (32 <= (#[trigger] s[i]) as int && s[i] as int != 127) || s[i] as int
            == 9
}

/// Bytes that are visible ASCII, spaces or tabs.
pub open spec fn is_visible(bytes: Seq<u8>) -> bool {
    forall|i: int| 0 <= i < bytes.len() ==> 32 <= (#[trigger] bytes[i]) < 127 || bytes[i] == 9
}

/// Few enough names for another always to be taken.
pub open spec fn has_room(fields: Fields) -> bool {
    fields.dom().finite() && fields.dom().len() < 6000
}

/// `HeaderName::from_bytes`: a text of name characters, at most 65,535 of them,
/// is a name, in small letters.
#[verifier::external_body]
fn header_name(s: &str) -> (name: Option<HeaderName>)
    ensures
        name is Some <==> is_name(s@),
        name is Some ==> name_text(name->0) == text::ascii_lower(s@),
{
    HeaderName::from_bytes(s.as_bytes()).ok()
}

/// `HeaderValue::from_str`: a text without control characters other than tabs
/// is a value, byte for byte.
#[verifier::external_body]
fn header_value(s: &str) -> (value: Option<HeaderValue>)
    ensures
        value is Some <==> is_value(s@),
        value is Some ==> value_bytes(value->0) == encode_utf8(s@),
{
    HeaderValue::from_str(s).ok()
}

/// `HeaderValue::to_str`: the text of a value that is visible ASCII throughout,
/// tabs included.
#[verifier::external_body]
fn value_text(value: &HeaderValue) -> (out: Option<&str>)
    ensures
        match out {
            Some(s) => is_visible(value_bytes(*value)) && encode_utf8(s@) == value_bytes(*value),
            None => !is_visible(value_bytes(*value)),
        },
{
    value.to_str().ok()
}

/// `HeaderMap::new`: no fields.
#[verifier::external_body]
fn map_new() -> (fields: HeaderMap<HeaderValue>)
    ensures
        fields_of(fields) == no_fields(),
{
    HeaderMap::new()
}

/// `HeaderMap::try_insert`: the value takes the place of all values under the
/// name. A map refuses only for want of room, and one of fewer than 6,000
/// names has room; a map that refuses is left as it was.
#[verifier::external_body]
fn map_insert(fields: &mut HeaderMap<HeaderValue>, name: HeaderName, value: HeaderValue) -> (done:
    bool)
    ensures
        done ==> fields_of(*final(fields)) == fields_of(*old(fields)).insert(
            name_text(name),
            seq![value_bytes(value)],
        ),
        !done ==> fields_of(*final(fields)) == fields_of(*old(fields)),
        has_room(fields_of(*old(fields))) ==> done,
{
    fields.try_insert(name, value).is_ok()
}

/// `HeaderMap::try_append`: the value comes after those under the name. A map
/// refuses only for want of room, and one of fewer than 6,000 names has room; a
/// map that refuses is left as it was.
#[verifier::external_body]
fn map_append(fields: &mut HeaderMap<HeaderValue>, name: HeaderName, value: HeaderValue) -> (done:
    bool)
    ensures
        done ==> fields_of(*final(fields)) == fields_of(*old(fields)).insert(
            name_text(name),
            under(fields_of(*old(fields)), name_text(name)).push(value_bytes(value)),
        ),
        !done ==> fields_of(*final(fields)) == fields_of(*old(fields)),
        has_room(fields_of(*old(fields))) ==> done,
{
    fields.try_append(name, value).is_ok()
}

/// `HeaderMap::get`: the first value under a name, whatever its case.
#[verifier::external_body]
fn map_get<'a>(fields: &'a HeaderMap<HeaderValue>, name: &str) -> (value: Option<&'a HeaderValue>)
    ensures
        match value {
            Some(v) => {
                &&& under(fields_of(*fields), text::ascii_lower(name@)).len() > 0
                &&& value_bytes(*v) == under(fields_of(*fields), text::ascii_lower(name@))[0]
            },
            None => under(fields_of(*fields), text::ascii_lower(name@)).len() == 0,
        },
{
    fields.get(name)
}

/// The values under a name.
pub open spec fn under(fields: Fields, name: Seq<char>) -> Seq<Seq<u8>> {
    if fields.dom().contains(name) {
        fields[name]
    } else {
        Seq::empty()
    }
}

/// The fields with one value under a name.
pub open spec fn set(fields: Fields, name: Seq<char>, value: Seq<char>) -> Fields {
    fields.insert(text::ascii_lower(name), seq![encode_utf8(value)])
}

/// The fields with one more value under a name.
pub open spec fn appended(fields: Fields, name: Seq<char>, value: Seq<char>) -> Fields {
    fields.insert(
        text::ascii_lower(name),
        under(fields, text::ascii_lower(name)).push(encode_utf8(value)),
    )
}

/// The first value under a name, where it is plain text.
pub open spec fn first(fields: Fields, name: Seq<char>) -> Option<Seq<char>> {
    let values = under(fields, text::ascii_lower(name));
    if values.len() > 0 && is_visible(values[0]) {
        Some(decode_utf8(values[0]))
    } else {
        None
    }
}

/// Pairs of names and values, as a value.
pub open spec fn pairs_model(pairs: Seq<(String, String)>) -> Seq<(Seq<char>, Seq<char>)> {
    pairs.map_values(|p: (String, String)| (p.0@, p.1@))
}

/// The fields after several were set, one after the other.
pub open spec fn all_set(fields: Fields, pairs: Seq<(Seq<char>, Seq<char>)>) -> Fields
    decreases pairs.len(),
{
    if pairs.len() == 0 {
        fields
    } else {
        set(all_set(fields, pairs.drop_last()), pairs.last().0, pairs.last().1)
    }
}

/// Pairs that are header syntax throughout.
pub open spec fn all_allowed(pairs: Seq<(Seq<char>, Seq<char>)>) -> bool {
    forall|i: int|
        0 <= i < pairs.len() ==> is_name((#[trigger] pairs[i]).0) && is_value(pairs[i].1)
}

/// Header fields.
pub struct Headers {
    pub map: HeaderMap<HeaderValue>,
}

impl View for Headers {
    type V = Fields;

    open spec fn view(&self) -> Fields {
        fields_of(self.map)
    }
}

impl Headers {
    pub fn new() -> (headers: Self)
        ensures
            headers@ == no_fields(),
    {
        Headers { map: map_new() }
    }

    /// Puts one value under a name, in place of those that were there. Nothing
    /// changes where the two are not header syntax, or there is no room.
    pub fn insert(&mut self, name: &str, value: &str) -> (done: bool)
        ensures
            done ==> is_name(name@) && is_value(value@) && final(self)@ == set(
                old(self)@,
                name@,
                value@,
            ),
            !done ==> final(self)@ == old(self)@,
            is_name(name@) && is_value(value@) && has_room(old(self)@) ==> done,
    {
        match (header_name(name), header_value(value)) {
            (Some(name), Some(value)) => map_insert(&mut self.map, name, value),
            _ => false,
        }
    }

    /// Sets several fields, one after the other.
    pub fn insert_all(&mut self, pairs: &Vec<(String, String)>)
        requires
            all_allowed(pairs_model(pairs@)),
            old(self)@.dom().finite(),
            old(self)@.dom().len() + pairs@.len() <= 6000,
        ensures
            final(self)@ == all_set(old(self)@, pairs_model(pairs@)),
    {
        let ghost model = pairs_model(pairs@);
        let ghost start = self@;
        assert(model.take(0) =~= Seq::<(Seq<char>, Seq<char>)>::empty());
        for i in 0..pairs.len()
            invariant
                model == pairs_model(pairs@),
                all_allowed(model),
                start.dom().len() + pairs@.len() <= 6000,
                self@ == all_set(start, model.take(i as int)),
                self@.dom().finite(),
                self@.dom().len() <= start.dom().len() + i,
        {
            assert(model.take(i + 1).drop_last() =~= model.take(i as int));
            assert(model[i as int] == (pairs@[i as int].0@, pairs@[i as int].1@));
            self.insert(pairs[i].0.as_str(), pairs[i].1.as_str());
        }
        assert(model.take(model.len() as int) =~= model);
    }

    /// Adds a value after those under a name. Nothing changes where the two are
    /// not header syntax, or there is no room.
    pub fn append(&mut self, name: &str, value: &str) -> (done: bool)
        ensures
            done ==> is_name(name@) && is_value(value@) && final(self)@ == appended(
                old(self)@,
                name@,
                value@,
            ),
            !done ==> final(self)@ == old(self)@,
            is_name(name@) && is_value(value@) && has_room(old(self)@) ==> done,
    {
        match (header_name(name), header_value(value)) {
            (Some(name), Some(value)) => map_append(&mut self.map, name, value),
            _ => false,
        }
    }

    /// Whether there is a value under a name.
    pub fn has(&self, name: &str) -> (r: bool)
        ensures
            r == (under(self@, text::ascii_lower(name@)).len() > 0),
    {
        map_get(&self.map, name).is_some()
    }

    /// The first value under a name, if it is plain text.
    pub fn get(&self, name: &str) -> (value: Option<String>)
        ensures
            text::opt(value) == first(self@, name@),
    {
        match map_get(&self.map, name) {
            Some(value) => match value_text(value) {
                Some(s) => {
                    proof {
                        encode_utf8_decode_utf8(s@);
                    }
                    Some(s.to_owned())
                },
                None => None,
            },
            None => None,
        }
    }
}

/// Whether a text is a header name.
pub fn name_allowed(s: &str) -> (r: bool)
    ensures
        r == is_name(s@),
{
    header_name(s).is_some()
}

/// Whether a text can be a header value.
pub fn value_allowed(s: &str) -> (r: bool)
    ensures
        r == is_value(s@),
{
    header_value(s).is_some()
}

/// Text that is visible ASCII throughout is visible byte by byte.
pub proof fn lemma_visible(s: Seq<char>)
    requires
        forall|i: int| 0 <= i < s.len() ==> 32 <= (#[trigger] s[i]) as int && (s[i] as int) < 127,
    ensures
        is_visible(encode_utf8(s)),
        is_value(s),
{
    is_ascii_chars_encode_utf8(s);
}

/// What was put under a name is what is found there, whatever the case of the
/// name, and nothing is changed under any other name.
pub proof fn a_field_reads_back(
    fields: Fields,
    name: Seq<char>,
    value: Seq<char>,
    other: Seq<char>,
)
    ensures
        is_visible(encode_utf8(value)) ==> first(set(fields, name, value), other) == if text::ascii_lower(
            other,
        ) == text::ascii_lower(name) {
            Some(value)
        } else {
            first(fields, other)
        },
{
    encode_utf8_decode_utf8(value);
}

} // verus!
