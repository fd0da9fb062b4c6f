//! The flat, stringly-typed key/value data that arrives in query strings, form
//! bodies, and path segments.
//!
//! Repeated keys are grouped, so sequences, options, and scalars all behave the
//! way callers expect.

use crate::percent;
use crate::text;
use vstd::prelude::*;
use vstd::string::*;

verus! {

/// A deserialisation failure, carrying a message suitable for a 422 response.
pub struct DeError(pub String);

// ---------------------------------------------------------------------------
// pairs
// ---------------------------------------------------------------------------

/// Key/value pairs with repeats grouped under one key, order preserved.
pub struct Pairs {
    entries: Vec<(String, Vec<String>)>,
}

/// Grouped pairs, as a value.
pub type Groups = Seq<(Seq<char>, Seq<Seq<char>>)>;

pub open spec fn groups_of(entries: Seq<(String, Vec<String>)>) -> Groups {
    entries.map_values(|e: (String, Vec<String>)| (e.0@, text::views(e.1@)))
}

impl View for Pairs {
    type V = Groups;

    closed spec fn view(&self) -> Groups {
        groups_of(self.entries@)
    }
}

/// The first group of a key, at or after `from`.
pub open spec fn group_from(groups: Groups, key: Seq<char>, from: int) -> Option<int>
    decreases groups.len() - from,
{
    if from < 0 || from >= groups.len() {
        None
    } else if groups[from].0 == key {
        Some(from)
    } else {
        group_from(groups, key, from + 1)
    }
}

/// The groups after one more pair: a key that is there gets one more value, a
/// new one goes to the end.
pub open spec fn pushed(groups: Groups, key: Seq<char>, value: Seq<char>) -> Groups {
    match group_from(groups, key, 0) {
        Some(i) => groups.update(i, (groups[i].0, groups[i].1.push(value))),
        None => groups.push((key, seq![value])),
    }
}

/// The groups of pairs, taken one after the other.
pub open spec fn grouped(pairs: Seq<(Seq<char>, Seq<char>)>) -> Groups
    decreases pairs.len(),
{
    if pairs.len() == 0 {
        Seq::empty()
    } else {
        pushed(grouped(pairs.drop_last()), pairs.last().0, pairs.last().1)
    }
}

/// Percent-decoded text, with `+` for a space.
pub open spec fn form_decoded(s: Seq<char>) -> Seq<char> {
    percent::unescaped(text::replaced(s, '+', " "@))
}

/// The pair a segment stands for. A bare key (`?flag`) is a present-but-empty
/// value, which is how HTML forms encode checkboxes and how flags read best.
pub open spec fn pair_of(segment: Seq<char>) -> (Seq<char>, Seq<char>) {
    match text::split_once(segment, '=') {
        Some((key, value)) => (form_decoded(key), form_decoded(value)),
        None => (form_decoded(segment), form_decoded(Seq::empty())),
    }
}

/// The pairs that `a=1&b=2&a=3` spells, in order.
pub open spec fn urlencoded_pairs(input: Seq<char>) -> Seq<(Seq<char>, Seq<char>)> {
    text::non_empty(text::split(input, '&')).map_values(|s: Seq<char>| pair_of(s))
}

/// The groups that `a=1&b=2&a=3` spells.
pub open spec fn urlencoded(input: Seq<char>) -> Groups {
    grouped(urlencoded_pairs(input))
}

/// Percent-decodes and converts `+` to space.
pub fn decode(input: &str) -> (out: String)
    ensures
        out@ == form_decoded(input@),
{
    let replaced = text::replace_char(input, '+', " ");
    percent::decode_segment(replaced.as_str())
}

impl Pairs {
    pub fn new() -> (out: Self)
        ensures
            out@ == grouped(Seq::empty()),
    {
        let out = Pairs { entries: Vec::new() };
        assert(out@ =~= Seq::empty());
        out
    }

    /// Adds a value, appending to an existing key rather than replacing it.
    pub fn push(&mut self, key: &str, value: &str)
        ensures
            final(self)@ == pushed(old(self)@, key@, value@),
    {
        let ghost before = self@;
        let n: usize = self.entries.len();
        let mut i: usize = 0;
        while i < n
            invariant
                i <= n,
                n == self.entries@.len(),
                self@ == before,
                before == old(self)@,
                group_from(before, key@, 0) == group_from(before, key@, i as int),
            decreases n - i,
        {
            assert(before[i as int].0 == self.entries@[i as int].0@);
            if text::same(self.entries[i].0.as_str(), key) {
                let value = value.to_owned();
                proof {
                    text::lemma_views_push(self.entries@[i as int].1@, value);
                }
                self.entries[i].1.push(value);
                assert(self@ =~= pushed(before, key@, value@));
                return ;
            }
            i += 1;
        }
        let mut values: Vec<String> = Vec::new();
        values.push(value.to_owned());
        assert(text::views(values@) =~= seq![value@]);
        self.entries.push((key.to_owned(), values));
        assert(self@ =~= pushed(before, key@, value@));
    }

    /// Groups pairs, taken one after the other.
    pub fn from_pairs(pairs: &Vec<(String, String)>) -> (out: Self)
        ensures
            out@ == grouped(crate::headers::pairs_model(pairs@)),
    {
        let ghost model = crate::headers::pairs_model(pairs@);
        let mut out = Pairs::new();
        assert(model.take(0) =~= Seq::<(Seq<char>, Seq<char>)>::empty());
        for i in 0..pairs.len()
            invariant
                model == crate::headers::pairs_model(pairs@),
                out@ == grouped(model.take(i as int)),
        {
            assert(model.take(i + 1).drop_last() =~= model.take(i as int));
            assert(model[i as int] == (pairs@[i as int].0@, pairs@[i as int].1@));
            out.push(pairs[i].0.as_str(), pairs[i].1.as_str());
        }
        assert(model.take(model.len() as int) =~= model);
        out
    }

    /// Parses `a=1&b=2&a=3`, percent-decoding keys and values and treating `+`
    /// as a space.
    pub fn parse_urlencoded(input: &str) -> (out: Self)
        ensures
            out@ == urlencoded(input@),
    {
        let segments = text::split_text(input, '&');
        let ghost all = text::views(segments@);
        let ghost f = |s: Seq<char>| pair_of(s);
        let mut out = Pairs::new();
        assert(all.take(0) =~= Seq::<Seq<char>>::empty());
        assert(text::non_empty(all.take(0)).map_values(f) =~= Seq::<
            (Seq<char>, Seq<char>),
        >::empty());
        for i in 0..segments.len()
            invariant
                all == text::views(segments@),
                f == |s: Seq<char>| pair_of(s),
                out@ == grouped(text::non_empty(all.take(i as int)).map_values(f)),
        {
            let segment = segments[i].as_str();
            let ghost before = text::non_empty(all.take(i as int));
            assert(all.take(i + 1).drop_last() =~= all.take(i as int));
            assert(all[i as int] == segment@);
            if !segment.is_empty() {
                proof {
                    let after = before.push(segment@).map_values(f);
                    assert(after.drop_last() =~= before.map_values(f));
                    assert(after.last() == pair_of(segment@));
                }
                match text::cut(segment, '=') {
                    Some((key, value)) => out.push(
                        decode(key.as_str()).as_str(),
                        decode(value.as_str()).as_str(),
                    ),
                    None => {
                        proof {
                            reveal_strlit("");
                            assert(""@ =~= Seq::<char>::empty());
                        }
                        out.push(decode(segment).as_str(), decode("").as_str())
                    },
                }
            }
        }
        assert(all.take(all.len() as int) =~= all);
        out
    }

    pub fn is_empty(&self) -> (r: bool)
        ensures
            r == (self@.len() == 0),
    {
        self.entries.len() == 0
    }

    pub fn len(&self) -> (n: usize)
        ensures
            n == self@.len(),
    {
        self.entries.len()
    }

    /// The keys, in the order they first arrived.
    pub fn keys(&self) -> (out: Vec<String>)
        ensures
            text::views(out@) == self@.map_values(|e: (Seq<char>, Seq<Seq<char>>)| e.0),
    {
        let mut out: Vec<String> = Vec::new();
        for i in 0..self.entries.len()
            invariant
                out@.len() == i,
                forall|j: int| 0 <= j < i ==> (#[trigger] out@[j])@ == self.entries@[j].0@,
        {
            out.push(self.entries[i].0.clone());
        }
        assert(text::views(out@) =~= self@.map_values(|e: (Seq<char>, Seq<Seq<char>>)| e.0));
        out
    }

    /// The values of the group at a position.
    pub fn values_at(&self, i: usize) -> (values: &Vec<String>)
        requires
            i < self@.len(),
        ensures
            text::views(values@) == self@[i as int].1,
    {
        &self.entries[i].1
    }

    /// The first value recorded for `key`.
    pub fn get(&self, key: &str) -> (value: Option<&str>)
        ensures
            match value {
                Some(v) => first_value(self@, key@) == Some(v@),
                None => first_value(self@, key@) is None,
            },
    {
        let ghost groups = self@;
        for i in 0..self.entries.len()
            invariant
                groups == self@,
                group_from(groups, key@, 0) == group_from(groups, key@, i as int),
        {
            assert(groups[i as int].0 == self.entries@[i as int].0@);
            if text::same(self.entries[i].0.as_str(), key) {
                assert(groups[i as int].1 == text::views(self.entries@[i as int].1@));
                if self.entries[i].1.len() > 0 {
                    return Some(self.entries[i].1[0].as_str());
                } else {
                    return None;
                }
            }
        }
        None
    }
}

/// The first value recorded for a key.
pub open spec fn first_value(groups: Groups, key: Seq<char>) -> Option<Seq<char>> {
    match group_from(groups, key, 0) {
        Some(i) => if groups[i].1.len() > 0 {
            Some(groups[i].1[0])
        } else {
            None
        },
        None => None,
    }
}

// ---------------------------------------------------------------------------
// reading pairs as values
// ---------------------------------------------------------------------------

/// An integer type a value can be read as.
#[derive(Clone, Copy, Debug, PartialEq, Eq, Structural)]
pub enum IntType {
    I8,
    I16,
    I32,
    I64,
    U8,
    U16,
    U32,
    U64,
}

impl IntType {
    pub open spec fn text(self) -> Seq<char> {
        match self {
            IntType::I8 => "i8"@,
            IntType::I16 => "i16"@,
            IntType::I32 => "i32"@,
            IntType::I64 => "i64"@,
            IntType::U8 => "u8"@,
            IntType::U16 => "u16"@,
            IntType::U32 => "u32"@,
            IntType::U64 => "u64"@,
        }
    }

    pub open spec fn least(self) -> int {
        match self {
            IntType::I8 => i8::MIN as int,
            IntType::I16 => i16::MIN as int,
            IntType::I32 => i32::MIN as int,
            IntType::I64 => i64::MIN as int,
            _ => 0,
        }
    }

    pub open spec fn greatest(self) -> int {
        match self {
            IntType::I8 => i8::MAX as int,
            IntType::I16 => i16::MAX as int,
            IntType::I32 => i32::MAX as int,
            IntType::I64 => i64::MAX as int,
            IntType::U8 => u8::MAX as int,
            IntType::U16 => u16::MAX as int,
            IntType::U32 => u32::MAX as int,
            IntType::U64 => u64::MAX as int,
        }
    }

    pub fn name(self) -> (out: &'static str)
        ensures
            out@ == self.text(),
    {
        match self {
            IntType::I8 => "i8",
            IntType::I16 => "i16",
            IntType::I32 => "i32",
            IntType::I64 => "i64",
            IntType::U8 => "u8",
            IntType::U16 => "u16",
            IntType::U32 => "u32",
            IntType::U64 => "u64",
        }
    }

    fn bounds(self) -> (out: (i128, i128))
        ensures
            out.0 == self.least(),
            out.1 == self.greatest(),
    {
        match self {
            IntType::I8 => (i8::MIN as i128, i8::MAX as i128),
            IntType::I16 => (i16::MIN as i128, i16::MAX as i128),
            IntType::I32 => (i32::MIN as i128, i32::MAX as i128),
            IntType::I64 => (i64::MIN as i128, i64::MAX as i128),
            IntType::U8 => (0, u8::MAX as i128),
            IntType::U16 => (0, u16::MAX as i128),
            IntType::U32 => (0, u32::MAX as i128),
            IntType::U64 => (0, u64::MAX as i128),
        }
    }
}

pub open spec fn is_digit(c: char) -> bool {
    '0' <= c && c <= '9'
}

/// The value of decimal digits.
pub open spec fn digits_value(s: Seq<char>) -> int
    decreases s.len(),
{
    if s.len() == 0 {
        0
    } else {
        digits_value(s.drop_last()) * 10 + (s.last() as int - 48)
    }
}

/// Decimal digits, at least one.
pub open spec fn is_number(s: Seq<char>) -> bool {
    s.len() > 0 && forall|i: int| 0 <= i < s.len() ==> is_digit(#[trigger] s[i])
}

/// The integer a text spells: digits, after a `+` or, for a signed type, a `-`.
/// It has to fit the type.
pub open spec fn integer_in(raw: Seq<char>, ty: IntType) -> Option<int> {
    let negative = ty.least() < 0 && raw.len() > 0 && raw[0] == '-';
    let digits = if negative || (raw.len() > 0 && raw[0] == '+') {
        raw.skip(1)
    } else {
        raw
    };
    let value = if negative {
        -digits_value(digits)
    } else {
        digits_value(digits)
    };
    if is_number(digits) && ty.least() <= value <= ty.greatest() {
        Some(value)
    } else {
        None
    }
}

proof fn lemma_digits_grow(s: Seq<char>, i: int)
    requires
        0 <= i <= s.len(),
        forall|j: int| 0 <= j < s.len() ==> is_digit(#[trigger] s[j]),
    ensures
        0 <= digits_value(s.take(i)) <= digits_value(s),
    decreases s.len(),
{
    if i == s.len() {
        assert(s.take(i) =~= s);
        if s.len() > 0 {
            lemma_digits_grow(s.drop_last(), s.len() - 1);
            assert(s.drop_last().take(s.len() - 1) =~= s.drop_last());
            assert(is_digit(s[s.len() - 1]));
        }
    } else {
        lemma_digits_grow(s.drop_last(), i);
        assert(s.drop_last().take(i) =~= s.take(i));
        assert(is_digit(s[s.len() - 1]));
    }
}

/// Reads an integer.
fn read_integer(raw: &str, ty: IntType) -> (out: Option<i128>)
    ensures
        match out {
            Some(v) => integer_in(raw@, ty) == Some(v as int),
            None => integer_in(raw@, ty) is None,
        },
{
    let v = text::chars(raw);
    let n: usize = v.len();
    let (least, greatest) = ty.bounds();
    let negative = least < 0 && n > 0 && v[0] == '-';
    let from: usize = if negative || (n > 0 && v[0] == '+') {
        1
    } else {
        0
    };
    let ghost digits = raw@.skip(from as int);
    assert(raw@.skip(0) =~= raw@);
    if from == n {
        return None;
    }
    let mut value: i128 = 0;
    // Past the widest type the exact value no longer matters.
    let mut huge = false;
    assert(digits.take(0) =~= Seq::<char>::empty());
    for i in from..n
        invariant
            from <= n,
            n == v@.len(),
            v@ == raw@,
            digits == raw@.skip(from as int),
            0 <= value <= u64::MAX,
            forall|j: int| 0 <= j < i - from ==> is_digit(#[trigger] digits[j]),
            !huge ==> value == digits_value(digits.take(i - from)),
            huge ==> digits_value(digits.take(i - from)) > u64::MAX,
            integer_in(raw@, ty) is Some ==> is_number(digits),
    {
        let c = v[i];
        assert(digits[i - from] == c);
        if !('0' <= c && c <= '9') {
            return None;
        }
        assert(is_digit(digits[i - from]));
        assert(digits.take(i + 1 - from).drop_last() =~= digits.take(i - from));
        if !huge {
            let next: i128 = value * 10 + (c as u32 as i128 - 48);
            if next > u64::MAX as i128 {
                huge = true;
            } else {
                value = next;
            }
        }
    }
    assert(digits.take(n - from) =~= digits);
    assert(is_number(digits));
    if huge {
        return None;
    }
    let value: i128 = if negative {
        -value
    } else {
        value
    };
    if least <= value && value <= greatest {
        Some(value)
    } else {
        None
    }
}

pub open spec fn not_valid(raw: Seq<char>, what: Seq<char>) -> Seq<char> {
    "`"@ + raw + "` is not a valid "@ + what
}

fn invalid(raw: &str, what: &str) -> (e: DeError)
    ensures
        e.0@ == not_valid(raw@, what@),
{
    let mut message = "`".to_owned();
    message.append(raw);
    message.append("` is not a valid ");
    message.append(what);
    DeError(message)
}

/// Reads an integer, naming the offending value where it is none.
pub fn parse_integer(raw: &str, ty: IntType) -> (r: Result<i128, DeError>)
    ensures
        match r {
            Ok(v) => integer_in(raw@, ty) == Some(v as int),
            Err(e) => integer_in(raw@, ty) is None && e.0@ == not_valid(raw@, ty.text()),
        },
{
    match read_integer(raw, ty) {
        Some(v) => Ok(v),
        None => Err(invalid(raw, ty.name())),
    }
}

/// The boolean a text spells. A bare `?flag` with no value reads as enabling
/// the flag.
pub open spec fn boolean_in(raw: Seq<char>) -> Option<bool> {
    if raw == "true"@ || raw == "1"@ || raw == "on"@ || raw == "yes"@ || raw == ""@ {
        Some(true)
    } else if raw == "false"@ || raw == "0"@ || raw == "off"@ || raw == "no"@ {
        Some(false)
    } else {
        None
    }
}

/// Reads a boolean.
pub fn parse_bool(raw: &str) -> (r: Result<bool, DeError>)
    ensures
        match r {
            Ok(v) => boolean_in(raw@) == Some(v),
            Err(e) => boolean_in(raw@) is None && e.0@ == not_valid(raw@, "boolean"@),
        },
{
    if text::same(raw, "true") || text::same(raw, "1") || text::same(raw, "on") || text::same(
        raw,
        "yes",
    ) || text::same(raw, "") {
        Ok(true)
    } else if text::same(raw, "false") || text::same(raw, "0") || text::same(raw, "off")
        || text::same(raw, "no") {
        Ok(false)
    } else {
        Err(invalid(raw, "boolean"))
    }
}

/// Reads a single character.
pub fn parse_char(raw: &str) -> (r: Result<char, DeError>)
    ensures
        match r {
            Ok(c) => raw@ == seq![c],
            Err(e) => raw@.len() != 1 && e.0@ == "`"@ + raw@ + "` is not a single character"@,
        },
{
    let v = text::chars(raw);
    if v.len() == 1 {
        assert(raw@ =~= seq![v@[0]]);
        Ok(v[0])
    } else {
        let mut message = "`".to_owned();
        message.append(raw);
        message.append("` is not a single character");
        Err(DeError(message))
    }
}

/// Every value in order, keys ignored.
pub open spec fn flat(groups: Groups) -> Seq<Seq<char>>
    decreases groups.len(),
{
    if groups.len() == 0 {
        Seq::empty()
    } else {
        flat(groups.drop_last()) + groups.last().1
    }
}

/// Reads [`Pairs`] as a map, a sequence, or a lone scalar.
pub struct PairsDeserializer {
    pub pairs: Pairs,
}

impl PairsDeserializer {
    pub fn new(pairs: Pairs) -> (out: Self)
        ensures
            out.pairs == pairs,
    {
        PairsDeserializer { pairs }
    }

    /// Scalars are only meaningful when exactly one value was supplied, which
    /// is the single path parameter case.
    pub fn sole_value(&self) -> (r: Result<&str, DeError>)
        ensures
            match r {
                Ok(v) => self.pairs@.len() == 1 && self.pairs@[0].1 == seq![v@],
                Err(e) => {
                    &&& !(self.pairs@.len() == 1 && self.pairs@[0].1.len() == 1)
                    &&& e.0@ == "expected exactly one value, found "@ + text::decimal(
                        self.pairs@.len(),
                    )
                },
            },
    {
        let n: usize = self.pairs.entries.len();
        if n == 1 {
            let values = &self.pairs.entries[0].1;
            assert(self.pairs@[0].1 == text::views(values@));
            if values.len() == 1 {
                assert(text::views(values@) =~= seq![values@[0]@]);
                return Ok(values[0].as_str());
            }
        }
        let mut message = "expected exactly one value, found ".to_owned();
        message.append(text::decimal_text(n as u64).as_str());
        Err(DeError(message))
    }

    /// Every value in order, ignoring keys: what positional data needs.
    pub fn into_values(self) -> (out: Vec<String>)
        ensures
            text::views(out@) == flat(self.pairs@),
    {
        let ghost groups = self.pairs@;
        let mut out: Vec<String> = Vec::new();
        assert(groups.take(0) =~= Seq::empty());
        assert(text::views(out@) =~= Seq::<Seq<char>>::empty());
        let n: usize = self.pairs.entries.len();
        for i in 0..n
            invariant
                n == self.pairs.entries@.len(),
                groups == self.pairs@,
                text::views(out@) == flat(groups.take(i as int)),
        {
            assert(groups.take(i + 1).drop_last() =~= groups.take(i as int));
            assert(groups[i as int].1 == text::views(self.pairs.entries@[i as int].1@));
            let mut more = text::copy_texts(&self.pairs.entries[i].1);
            let ghost a = out@;
            let ghost b = more@;
            out.append(&mut more);
            assert(text::views(out@) =~= text::views(a) + text::views(b));
        }
        assert(groups.take(groups.len() as int) =~= groups);
        out
    }
}

/// The group of values recorded under a single key.
pub struct ValuesDeserializer {
    pub values: Vec<String>,
}

/// An optional field counts as absent without a value, and with one that is
/// explicitly empty (`?q=`), which is how browsers submit untouched form inputs.
pub open spec fn reads_as_absent(values: Seq<Seq<char>>) -> bool {
    values.len() == 0 || (values.len() == 1 && values[0].len() == 0)
}

impl ValuesDeserializer {
    /// The first value.
    pub fn first(&self) -> (r: Result<&str, DeError>)
        ensures
            match r {
                Ok(v) => self.values@.len() > 0 && v@ == self.values@[0]@,
                Err(e) => self.values@.len() == 0 && e.0@ == "missing value"@,
            },
    {
        if self.values.len() > 0 {
            Ok(self.values[0].as_str())
        } else {
            Err(DeError("missing value".to_owned()))
        }
    }

    /// Whether an optional field is absent.
    pub fn is_absent(&self) -> (r: bool)
        ensures
            r == reads_as_absent(text::views(self.values@)),
    {
        self.values.len() == 0 || (self.values.len() == 1 && self.values[0].as_str().is_empty())
    }

    /// Without type information, a single value is a string and repeats are a
    /// list.
    pub fn is_single(&self) -> (r: bool)
        ensures
            r == (self.values@.len() == 1),
    {
        self.values.len() == 1
    }
}

// ---------------------------------------------------------------------------
// what grouping keeps
// ---------------------------------------------------------------------------

/// No key has two groups.
pub open spec fn keys_distinct(groups: Groups) -> bool {
    forall|i: int, j: int|
        0 <= i < j < groups.len() ==> (#[trigger] groups[i]).0 != (#[trigger] groups[j]).0
}

proof fn lemma_group_from(groups: Groups, key: Seq<char>, from: int)
    requires
        0 <= from,
    ensures
        match group_from(groups, key, from) {
            Some(i) => from <= i < groups.len() && groups[i].0 == key,
            None => forall|i: int| from <= i < groups.len() ==> (#[trigger] groups[i]).0 != key,
        },
    decreases groups.len() - from,
{
    if from < groups.len() && groups[from].0 != key {
        lemma_group_from(groups, key, from + 1);
    }
}

/// The values that pairs give a key, in order.
pub open spec fn values_for(pairs: Seq<(Seq<char>, Seq<char>)>, key: Seq<char>) -> Seq<Seq<char>>
    decreases pairs.len(),
{
    if pairs.len() == 0 {
        Seq::empty()
    } else {
        let before = values_for(pairs.drop_last(), key);
        if pairs.last().0 == key {
            before.push(pairs.last().1)
        } else {
            before
        }
    }
}

/// The values recorded for a key.
pub open spec fn recorded(groups: Groups, key: Seq<char>) -> Seq<Seq<char>> {
    match group_from(groups, key, 0) {
        Some(i) => groups[i].1,
        None => Seq::empty(),
    }
}

/// Repeats of a key are grouped: every key occurs once, with all of its values
/// in the order they arrived, and no value goes to another key.
pub proof fn repeated_keys_are_grouped_in_order(
    pairs: Seq<(Seq<char>, Seq<char>)>,
    key: Seq<char>,
)
    ensures
        keys_distinct(grouped(pairs)),
        recorded(grouped(pairs), key) == values_for(pairs, key),
    decreases pairs.len(),
{
    if pairs.len() > 0 {
        let before = grouped(pairs.drop_last());
        let after = grouped(pairs);
        let (k, v) = pairs.last();
        repeated_keys_are_grouped_in_order(pairs.drop_last(), key);
        lemma_group_from(before, k, 0);
        lemma_group_from(before, key, 0);
        lemma_group_from(after, key, 0);
        if let Some(i) = group_from(before, key, 0) {
            assert(after[i].0 == key);
        } else if k == key {
            assert(after.last().0 == key);
        }
        if let Some(i) = group_from(after, key, 0) {
            assert(i < before.len() ==> before[i].0 == key);
        }
    }
}

/// Every group of a key holds a value.
pub proof fn every_group_holds_a_value(pairs: Seq<(Seq<char>, Seq<char>)>)
    ensures
        forall|i: int| 0 <= i < grouped(pairs).len() ==> (#[trigger] grouped(pairs)[i]).1.len() > 0,
    decreases pairs.len(),
{
    if pairs.len() > 0 {
        let before = grouped(pairs.drop_last());
        let after = grouped(pairs);
        every_group_holds_a_value(pairs.drop_last());
        lemma_group_from(before, pairs.last().0, 0);
        assert forall|i: int| 0 <= i < after.len() implies (#[trigger] after[i]).1.len() > 0 by {
            if i < before.len() {
                assert(before[i].1.len() > 0);
            }
        }
    }
}

/// Two query strings joined with `&` spell the pairs of the first and then
/// those of the second.
pub proof fn joined_query_strings_spell_both(a: Seq<char>, b: Seq<char>)
    ensures
        urlencoded_pairs(a.push('&') + b) == urlencoded_pairs(a) + urlencoded_pairs(b),
        urlencoded(a.push('&') + b) == grouped(urlencoded_pairs(a) + urlencoded_pairs(b)),
{
    text::lemma_split_joined(a, b, '&');
    let x = text::split(a, '&');
    let y = text::split(b, '&');
    text::lemma_non_empty_concat(x, y);
    let f = |s: Seq<char>| pair_of(s);
    assert((text::non_empty(x) + text::non_empty(y)).map_values(f) =~= text::non_empty(
        x,
    ).map_values(f) + text::non_empty(y).map_values(f));
}

} // verus!
