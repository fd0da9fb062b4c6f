//! What a query string, a form or a path segment is read as.

use crate::extract::de;
use crate::extract::de::IntType;
use crate::percent;
use crate::text;
use vstd::prelude::*;
use vstd::string::*;

verus! {

// ---------------------------------------------------------------------------
// scalars
// ---------------------------------------------------------------------------

/// A boolean as it is written.
pub open spec fn boolean_written(b: bool) -> Seq<char> {
    if b {
        "true"@
    } else {
        "false"@
    }
}

/// A boolean reads back as it was written. `1`, `on`, `yes` and an empty value,
/// which is how a bare flag arrives, enable; `0`, `off` and `no` disable; and no
/// other text is a boolean.
pub proof fn a_boolean_reads_back(b: bool, raw: Seq<char>)
    ensures
        de::boolean_in(boolean_written(b)) == Some(b),
        de::boolean_in("1"@) == Some(true),
        de::boolean_in("on"@) == Some(true),
        de::boolean_in("yes"@) == Some(true),
        de::boolean_in(Seq::empty()) == Some(true),
        de::boolean_in("0"@) == Some(false),
        de::boolean_in("off"@) == Some(false),
        de::boolean_in("no"@) == Some(false),
        de::boolean_in(raw) == Some(true) ==> raw == "true"@ || raw == "1"@ || raw == "on"@ || raw
            == "yes"@ || raw.len() == 0,
        de::boolean_in(raw) == Some(false) ==> raw == "false"@ || raw == "0"@ || raw == "off"@
            || raw == "no"@,
{
    reveal_strlit("true");
    reveal_strlit("false");
    reveal_strlit("1");
    reveal_strlit("0");
    reveal_strlit("on");
    reveal_strlit("off");
    reveal_strlit("yes");
    reveal_strlit("no");
    reveal_strlit("");
    assert("true"@.len() == 4 && "false"@.len() == 5 && "yes"@.len() == 3 && "off"@.len() == 3);
    assert("1"@.len() == 1 && "0"@.len() == 1 && "on"@.len() == 2 && "no"@.len() == 2);
    assert("1"@[0] == '1' && "0"@[0] == '0' && "on"@[0] == 'o' && "no"@[0] == 'n');
    assert("yes"@[0] == 'y' && "off"@[0] == 'o');
    assert(""@ =~= Seq::<char>::empty());
}

/// The least and the greatest value of an integer type.
pub open spec fn range_of(ty: IntType) -> (int, int) {
    match ty {
        IntType::I8 => (-128, 127),
        IntType::I16 => (-32768, 32767),
        IntType::I32 => (-2147483648, 2147483647),
        IntType::I64 => (-9223372036854775808, 9223372036854775807),
        IntType::U8 => (0, 255),
        IntType::U16 => (0, 65535),
        IntType::U32 => (0, 4294967295),
        IntType::U64 => (0, 18446744073709551615),
    }
}

proof fn lemma_decimal_value(n: nat)
    ensures
        de::is_number(text::decimal(n)),
        de::digits_value(text::decimal(n)) == n,
    decreases n,
{
    let s = text::decimal(n);
    if n < 10 {
        assert(s.drop_last() =~= Seq::empty());
        assert(s.last() == text::digit(n));
        reveal_with_fuel(de::digits_value, 2);
    } else {
        lemma_decimal_value(n / 10);
        let front = text::decimal(n / 10);
        assert(s.drop_last() =~= front);
        assert forall|i: int| 0 <= i < s.len() implies de::is_digit(#[trigger] s[i]) by {
            if i < front.len() {
                assert(de::is_digit(front[i]));
            }
        }
    }
}

/// An integer reads back as it was written, with or without a `+` before it,
/// exactly where it fits the type.
pub proof fn an_integer_reads_back(n: int, ty: IntType)
    ensures
        de::integer_in(text::integer(n), ty) == if range_of(ty).0 <= n <= range_of(ty).1 {
            Some(n)
        } else {
            None
        },
        n >= 0 ==> de::integer_in("+"@ + text::integer(n), ty) == de::integer_in(
            text::integer(n),
            ty,
        ),
{
    reveal_strlit("-");
    reveal_strlit("+");
    let digits = text::decimal(if n < 0 {
        -n
    } else {
        n
    } as nat);
    lemma_decimal_value(if n < 0 {
        -n
    } else {
        n
    } as nat);
    assert(de::is_digit(digits[0]));
    let s = text::integer(n);
    if n < 0 {
        assert(s[0] == '-');
        assert(s.skip(1) =~= digits);
        if range_of(ty).0 == 0 {
            assert(!de::is_digit(s[0]));
        }
    } else {
        let plus = "+"@ + s;
        assert(plus[0] == '+');
        assert(plus.skip(1) =~= digits);
    }
}

/// Only digits are read, after at most one sign; a minus only where the type
/// has negative values.
pub proof fn an_integer_is_digits_after_a_sign(raw: Seq<char>, ty: IntType, i: int)
    requires
        de::integer_in(raw, ty) is Some,
        0 <= i < raw.len(),
    ensures
        raw[i] == '+' || raw[i] == '-' ==> i == 0 && raw.len() > 1,
        raw[i] == '-' ==> range_of(ty).0 < 0,
        raw[i] != '+' && raw[i] != '-' ==> '0' <= raw[i] && raw[i] <= '9',
{
    let digits = if raw[0] == '+' || (raw[0] == '-' && ty.least() < 0) {
        raw.skip(1)
    } else {
        raw
    };
    assert(de::is_number(digits));
    if digits.len() == raw.len() {
        assert(de::is_digit(digits[i]));
    } else if i > 0 {
        assert(de::is_digit(digits[i - 1]));
    }
}

/// An optional field is absent where nothing was sent for it, or one empty
/// value, and in no other case.
pub proof fn only_an_empty_value_is_absent(values: Seq<Seq<char>>)
    ensures
        de::reads_as_absent(Seq::empty()),
        de::reads_as_absent(seq![Seq::<char>::empty()]),
        de::reads_as_absent(values) && values.len() > 0 ==> values == seq![Seq::<char>::empty()],
{
    if de::reads_as_absent(values) && values.len() > 0 {
        assert(values[0] =~= Seq::<char>::empty());
        assert(values =~= seq![Seq::<char>::empty()]);
    }
}

// ---------------------------------------------------------------------------
// pairs
// ---------------------------------------------------------------------------

/// A text as a form writes it: percent-encoded, with `+` for each space that was
/// kept.
pub open spec fn form_written(t: Seq<char>, keep: spec_fn(char) -> bool, capital: bool) -> Seq<
    char,
> {
    percent::escaped(t, keep, capital).map_values(
        |c: char|
            if c == ' ' {
                '+'
            } else {
                c
            },
    )
}

/// What a form may not keep: these have a meaning of their own.
pub open spec fn keeps_apart(keep: spec_fn(char) -> bool) -> bool {
    !keep('%') && !keep('+') && !keep('&') && !keep('=')
}

/// A key and a value as a form writes them.
pub open spec fn pair_written(
    pair: (Seq<char>, Seq<char>),
    keep: spec_fn(char) -> bool,
    capital: bool,
) -> Seq<char> {
    form_written(pair.0, keep, capital) + "="@ + form_written(pair.1, keep, capital)
}

/// Pairs as a form writes them.
pub open spec fn form(
    pairs: Seq<(Seq<char>, Seq<char>)>,
    keep: spec_fn(char) -> bool,
    capital: bool,
) -> Seq<char>
    decreases pairs.len(),
{
    if pairs.len() == 0 {
        Seq::empty()
    } else if pairs.len() == 1 {
        pair_written(pairs[0], keep, capital)
    } else {
        form(pairs.drop_last(), keep, capital) + "&"@ + pair_written(pairs.last(), keep, capital)
    }
}

/// Spaces that became signs become spaces again.
proof fn lemma_spaces(e: Seq<char>)
    requires
        !e.contains('+'),
    ensures
        text::replaced(
            e.map_values(
                |c: char|
                    if c == ' ' {
                        '+'
                    } else {
                        c
                    },
            ),
            '+',
            " "@,
        ) == e,
    decreases e.len(),
{
    let f = |c: char|
        if c == ' ' {
            '+'
        } else {
            c
        };
    let s = e.map_values(f);
    reveal_strlit(" ");
    if e.len() > 0 {
        let front = e.drop_last();
        assert(!front.contains('+')) by {
            if front.contains('+') {
                let i = choose|i: int| 0 <= i < front.len() && front[i] == '+';
                assert(e[i] == '+');
            }
        }
        lemma_spaces(front);
        assert(s.drop_last() =~= front.map_values(f));
        assert(e[e.len() - 1] != '+');
        assert(s.last() == f(e.last()));
        assert(e =~= front.push(e.last()));
        if e.last() == ' ' {
            assert(front + " "@ =~= e);
        }
    } else {
        assert(text::replaced(s, '+', " "@) =~= e);
    }
}

proof fn lemma_no_digit(c: char, capital: bool)
    requires
        c == '+' || c == '&' || c == '=',
    ensures
        !percent::hex_digits(capital).contains(c),
{
    reveal_strlit("0123456789ABCDEF");
    reveal_strlit("0123456789abcdef");
}

/// A form decodes to the text it was written for.
pub proof fn a_form_value_reads_back(t: Seq<char>, keep: spec_fn(char) -> bool, capital: bool)
    requires
        keeps_apart(keep),
    ensures
        de::form_decoded(form_written(t, keep, capital)) == t,
{
    lemma_no_digit('+', capital);
    percent::lemma_escaped_within(t, keep, capital, '+');
    lemma_spaces(percent::escaped(t, keep, capital));
    percent::what_was_escaped_reads_back(t, keep, capital);
}

proof fn lemma_form_within(t: Seq<char>, keep: spec_fn(char) -> bool, capital: bool, c: char)
    requires
        c == '&' || c == '=',
        keeps_apart(keep),
    ensures
        !form_written(t, keep, capital).contains(c),
{
    lemma_no_digit(c, capital);
    percent::lemma_escaped_within(t, keep, capital, c);
    let e = percent::escaped(t, keep, capital);
    let s = form_written(t, keep, capital);
    if s.contains(c) {
        let i = choose|i: int| 0 <= i < s.len() && s[i] == c;
        assert(e[i] == c);
    }
}

proof fn lemma_one_pair(
    pair: (Seq<char>, Seq<char>),
    keep: spec_fn(char) -> bool,
    capital: bool,
)
    requires
        keeps_apart(keep),
    ensures
        de::urlencoded_pairs(pair_written(pair, keep, capital)) == seq![pair],
{
    let a = form_written(pair.0, keep, capital);
    let b = form_written(pair.1, keep, capital);
    let s = pair_written(pair, keep, capital);
    reveal_strlit("=");
    assert(s[a.len() as int] == '=');
    lemma_form_within(pair.0, keep, capital, '=');
    lemma_form_within(pair.0, keep, capital, '&');
    lemma_form_within(pair.1, keep, capital, '&');
    assert(!s.contains('&')) by {
        if s.contains('&') {
            let i = choose|i: int| 0 <= i < s.len() && s[i] == '&';
            if i < a.len() {
                assert(a[i] == '&');
            } else if i > a.len() {
                assert(b[i - a.len() - 1] == '&');
            }
        }
    }
    text::lemma_split_append(Seq::empty(), s, '&');
    assert(Seq::<char>::empty() + s =~= s);
    reveal_with_fuel(text::split, 2);
    assert(text::split(s, '&') =~= seq![s]);
    reveal_with_fuel(text::non_empty, 2);
    assert(seq![s].drop_last() =~= Seq::empty());
    assert(text::non_empty(seq![s]) =~= seq![s]);
    text::lemma_index_of(s, '=', 0);
    let at = text::index_of(s, '=', 0)->0;
    assert(s[a.len() as int] == '=');
    if at < a.len() {
        assert(a[at] == '=');
    }
    assert(at == a.len());
    assert(s.take(at) =~= a);
    assert(s.skip(at + 1) =~= b);
    a_form_value_reads_back(pair.0, keep, capital);
    a_form_value_reads_back(pair.1, keep, capital);
    assert(de::urlencoded_pairs(s) =~= seq![pair]);
}

/// A form is read as the pairs it was written for, in their order, whatever the
/// keys and values hold; and each key is then recorded once, with all of its
/// values in the order they were sent.
pub proof fn a_form_reads_back(
    pairs: Seq<(Seq<char>, Seq<char>)>,
    keep: spec_fn(char) -> bool,
    capital: bool,
    key: Seq<char>,
)
    requires
        keeps_apart(keep),
    ensures
        de::urlencoded_pairs(form(pairs, keep, capital)) == pairs,
        de::recorded(de::urlencoded(form(pairs, keep, capital)), key) == de::values_for(pairs, key),
    decreases pairs.len(),
{
    let s = form(pairs, keep, capital);
    if pairs.len() == 0 {
        reveal_with_fuel(text::split, 2);
        reveal_with_fuel(text::non_empty, 2);
        assert(text::split(s, '&') =~= seq![Seq::<char>::empty()]);
        assert(seq![Seq::<char>::empty()].drop_last() =~= Seq::empty());
        assert(de::urlencoded_pairs(s) =~= pairs);
    } else if pairs.len() == 1 {
        lemma_one_pair(pairs[0], keep, capital);
        assert(pairs =~= seq![pairs[0]]);
    } else {
        let front = pairs.drop_last();
        let last = pair_written(pairs.last(), keep, capital);
        a_form_reads_back(front, keep, capital, key);
        lemma_one_pair(pairs.last(), keep, capital);
        reveal_strlit("&");
        let q = form(front, keep, capital);
        assert(q + "&"@ + last =~= q.push('&') + last);
        de::joined_query_strings_spell_both(q, last);
        assert(front + seq![pairs.last()] =~= pairs);
    }
    de::repeated_keys_are_grouped_in_order(pairs, key);
}

/// A key without `=` is there with an empty value.
pub proof fn a_bare_key_has_an_empty_value(
    key: Seq<char>,
    keep: spec_fn(char) -> bool,
    capital: bool,
)
    requires
        keeps_apart(keep),
        key.len() > 0,
    ensures
        de::urlencoded_pairs(form_written(key, keep, capital)) == seq![
            (key, Seq::<char>::empty()),
        ],
{
    let s = form_written(key, keep, capital);
    percent::lemma_escaped_len(key, keep, capital);
    lemma_form_within(key, keep, capital, '&');
    lemma_form_within(key, keep, capital, '=');
    text::lemma_split_append(Seq::empty(), s, '&');
    assert(Seq::<char>::empty() + s =~= s);
    reveal_with_fuel(text::split, 2);
    assert(text::split(s, '&') =~= seq![s]);
    reveal_with_fuel(text::non_empty, 2);
    assert(seq![s].drop_last() =~= Seq::empty());
    assert(text::non_empty(seq![s]) =~= seq![s]);
    text::lemma_index_of(s, '=', 0);
    if let Some(i) = text::index_of(s, '=', 0) {
        assert(s[i] == '=');
    }
    a_form_value_reads_back(key, keep, capital);
    a_form_value_reads_back(Seq::empty(), keep, capital);
    assert(form_written(Seq::empty(), keep, capital) =~= Seq::empty());
    assert(de::urlencoded_pairs(s) =~= seq![(key, Seq::<char>::empty())]);
}

} // verus!
