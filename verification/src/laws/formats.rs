//! What texts have a format.

use crate::text;
use crate::validate::rules;
use vstd::prelude::*;
use vstd::string::*;
use vstd::utf8::*;

verus! {

/// Each format is checked by what it is named for, and a format without a check
/// holds of every text.
pub proof fn each_format_has_its_check(value: Seq<char>, format: Seq<char>, address: bool)
    ensures
        rules::has_format(value, "email"@, address) == rules::email(value),
        rules::has_format(value, "uri"@, address) == rules::uri(value),
        rules::has_format(value, "url"@, address) == rules::uri(value),
        rules::has_format(value, "uuid"@, address) == rules::uuid(encode_utf8(value)),
        rules::has_format(value, "ipv4"@, address) == address,
        rules::has_format(value, "ipv6"@, address) == address,
        rules::has_format(value, "hostname"@, address) == rules::hostname(value),
        rules::has_format(value, "date-time"@, address) == rules::rfc3339(encode_utf8(value)),
        format != "email"@ && format != "uri"@ && format != "url"@ && format != "uuid"@ && format
            != "ipv4"@ && format != "ipv6"@ && format != "hostname"@ && format != "date-time"@
            ==> rules::has_format(value, format, address),
{
    reveal_strlit("email");
    reveal_strlit("uri");
    reveal_strlit("url");
    reveal_strlit("uuid");
    reveal_strlit("ipv4");
    reveal_strlit("ipv6");
    reveal_strlit("hostname");
    reveal_strlit("date-time");
    assert("email"@.len() == 5 && "uri"@.len() == 3 && "url"@.len() == 3 && "uuid"@.len() == 4);
    assert("ipv4"@.len() == 4 && "ipv6"@.len() == 4 && "hostname"@.len() == 8);
    assert("date-time"@.len() == 9);
    assert("uri"@[2] == 'i' && "url"@[2] == 'l' && "uuid"@[0] == 'u');
    assert("ipv4"@[0] == 'i' && "ipv4"@[3] == '4' && "ipv6"@[0] == 'i' && "ipv6"@[3] == '6');
}

/// A letter or a digit of ASCII.
pub open spec fn is_word_char(c: char) -> bool {
    ('0' <= c && c <= '9') || ('A' <= c && c <= 'Z') || ('a' <= c && c <= 'z')
}

/// A label of a host name: 1 to 63 letters, digits and dashes, with no dash at
/// either end.
pub open spec fn is_label(s: Seq<char>) -> bool {
    &&& 1 <= s.len() <= 63
    &&& s.first() != '-'
    &&& s.last() != '-'
    &&& forall|i: int| 0 <= i < s.len() ==> is_word_char(#[trigger] s[i]) || s[i] == '-'
}

proof fn lemma_label(s: Seq<char>)
    ensures
        is_label(s) ==> rules::label(s) && !s.contains('.') && encode_utf8(s).len() == s.len(),
        rules::label(s) ==> is_label(s),
{
    if is_label(s) {
        assert forall|i: int| 0 <= i < s.len() implies '\0' <= #[trigger] s[i] && s[i]
            <= '\u{7f}' by {
            assert(is_word_char(s[i]) || s[i] == '-');
        }
        assert(is_ascii_chars(s));
        is_ascii_chars_encode_utf8(s);
        if s.contains('.') {
            let i = choose|i: int| 0 <= i < s.len() && s[i] == '.';
            assert(is_word_char(s[i]) || s[i] == '-');
        }
    }
    if rules::label(s) {
        assert forall|i: int| 0 <= i < s.len() implies '\0' <= #[trigger] s[i] && s[i]
            <= '\u{7f}' by {
        }
        assert(is_ascii_chars(s));
        is_ascii_chars_encode_utf8(s);
    }
}

/// A host name is made of labels with dots between them: labels joined with dots
/// are one, as long as they are 253 bytes at most, and every host name is.
pub proof fn a_host_name_is_labels(labels: Seq<Seq<char>>, s: Seq<char>)
    requires
        labels.len() > 0,
        forall|i: int| 0 <= i < labels.len() ==> is_label(#[trigger] labels[i]),
        encode_utf8(text::join(labels, "."@)).len() <= 253,
    ensures
        rules::hostname(text::join(labels, "."@)),
        rules::hostname(s) ==> {
            &&& encode_utf8(s).len() <= 253
            &&& text::join(text::split(s, '.'), "."@) == s
            &&& forall|i: int|
                0 <= i < text::split(s, '.').len() ==> is_label(#[trigger] text::split(s, '.')[i])
        },
{
    reveal_strlit(".");
    assert("."@ =~= seq!['.']);
    assert forall|i: int| 0 <= i < labels.len() implies rules::label(#[trigger] labels[i])
        && !labels[i].contains('.') by {
        lemma_label(labels[i]);
    }
    lemma_split_joined(labels);
    let joined = text::join(labels, "."@);
    lemma_ends(labels);
    if rules::hostname(s) {
        text::lemma_join_split(s, '.');
        assert forall|i: int| 0 <= i < text::split(s, '.').len() implies is_label(
            #[trigger] text::split(s, '.')[i],
        ) by {
            lemma_label(text::split(s, '.')[i]);
        }
    }
}

/// Labels joined with dots begin and end as the first and the last do.
proof fn lemma_ends(labels: Seq<Seq<char>>)
    requires
        labels.len() > 0,
        forall|i: int| 0 <= i < labels.len() ==> is_label(#[trigger] labels[i]),
    ensures
        text::join(labels, seq!['.']).len() > 0,
        text::join(labels, seq!['.']).first() == labels[0].first(),
        text::join(labels, seq!['.']).last() == labels.last().last(),
        text::join(labels, seq!['.']).first() != '.',
        text::join(labels, seq!['.']).last() != '.',
    decreases labels.len(),
{
    let n = labels.len() - 1;
    assert(is_label(labels[0]) && is_label(labels[n]));
    assert(is_word_char(labels[0][0]) || labels[0][0] == '-');
    let l = labels[n];
    assert(is_word_char(l[l.len() - 1]) || l[l.len() - 1] == '-');
    if labels.len() > 1 {
        let front = labels.drop_last();
        assert forall|i: int| 0 <= i < front.len() implies is_label(#[trigger] front[i]) by {
            assert(front[i] == labels[i]);
        }
        lemma_ends(front);
        let all = text::join(labels, seq!['.']);
        assert(all.first() == text::join(front, seq!['.']).first());
        assert(all.last() == l.last());
    }
}

proof fn lemma_split_joined(list: Seq<Seq<char>>)
    requires
        list.len() > 0,
        forall|i: int| 0 <= i < list.len() ==> !(#[trigger] list[i]).contains('.'),
    ensures
        text::split(text::join(list, seq!['.']), '.') == list,
    decreases list.len(),
{
    let n = list.len() - 1;
    assert(!list[n].contains('.'));
    if list.len() == 1 {
        text::lemma_split_append(Seq::empty(), list[0], '.');
        assert(Seq::<char>::empty() + list[0] =~= list[0]);
        reveal_with_fuel(text::split, 2);
        assert(text::split(list[0], '.') =~= list);
    } else {
        let front = list.drop_last();
        assert forall|i: int| 0 <= i < front.len() implies !(#[trigger] front[i]).contains('.') by {
            assert(front[i] == list[i]);
        }
        lemma_split_joined(front);
        let a = text::join(front, seq!['.']);
        text::lemma_split_joined(a, list[n], '.');
        assert(a.push('.') + list[n] =~= a + seq!['.'] + list[n]);
        text::lemma_split_append(Seq::empty(), list[n], '.');
        assert(Seq::<char>::empty() + list[n] =~= list[n]);
        reveal_with_fuel(text::split, 2);
        assert(text::split(list[n], '.') =~= seq![list[n]]);
        assert(front + seq![list[n]] =~= list);
    }
}

/// An address is a local part and a host name with a dot, around one `@`. The
/// local part has 1 to 64 bytes, no dot at either end and no two dots in a row.
/// Anything else around a single `@` is no address, and neither is a text with
/// none.
pub proof fn an_email_is_a_local_part_at_a_host(local: Seq<char>, host: Seq<char>, s: Seq<char>)
    requires
        !local.contains('@'),
        !host.contains('@'),
        !s.contains('@'),
    ensures
        rules::email(local + "@"@ + host) <==> {
            &&& 1 <= local.len() && encode_utf8(local).len() <= 64
            &&& local.first() != '.' && local.last() != '.'
            &&& forall|i: int|
                0 <= i < local.len() - 1 ==> !(#[trigger] local[i] == '.' && local[i + 1] == '.')
            &&& rules::hostname(host)
            &&& host.contains('.')
        },
        !rules::email(s),
{
    reveal_strlit("@");
    let whole = local + "@"@ + host;
    text::lemma_split_joined(local, host, '@');
    assert(whole =~= local.push('@') + host);
    text::lemma_split_append(Seq::empty(), local, '@');
    text::lemma_split_append(Seq::empty(), host, '@');
    text::lemma_split_append(Seq::empty(), s, '@');
    assert(Seq::<char>::empty() + local =~= local);
    assert(Seq::<char>::empty() + host =~= host);
    assert(Seq::<char>::empty() + s =~= s);
    reveal_with_fuel(text::split, 2);
    assert(text::split(local, '@') =~= seq![local]);
    assert(text::split(host, '@') =~= seq![host]);
    assert(text::split(s, '@') =~= seq![s]);
    assert(seq![local] + seq![host] =~= seq![local, host]);
}

/// A URI is a scheme, which begins with a letter and goes on with letters,
/// digits, `+`, `-` and `.`, then a colon and something after it.
pub proof fn a_uri_is_a_scheme_and_more(scheme: Seq<char>, rest: Seq<char>, s: Seq<char>)
    requires
        !scheme.contains(':'),
        !s.contains(':'),
    ensures
        rules::uri(scheme + ":"@ + rest) <==> {
            &&& rest.len() > 0
            &&& scheme.len() > 0
            &&& ('A' <= scheme[0] && scheme[0] <= 'Z') || ('a' <= scheme[0] && scheme[0] <= 'z')
            &&& forall|i: int|
                0 <= i < scheme.len() ==> is_word_char(#[trigger] scheme[i]) || scheme[i] == '+'
                    || scheme[i] == '-' || scheme[i] == '.'
        },
        !rules::uri(s),
{
    reveal_strlit(":");
    let whole = scheme + ":"@ + rest;
    text::lemma_index_of(whole, ':', 0);
    assert(whole[scheme.len() as int] == ':');
    let at = text::index_of(whole, ':', 0)->0;
    if at < scheme.len() {
        assert(scheme[at] == ':');
    }
    assert(at == scheme.len());
    assert(whole.take(at) =~= scheme);
    assert(whole.skip(at + 1) =~= rest);
    text::lemma_index_of(s, ':', 0);
    if let Some(i) = text::index_of(s, ':', 0) {
        assert(s[i] == ':');
    }
    if rules::uri(whole) {
        assert forall|i: int| 0 <= i < scheme.len() implies is_word_char(#[trigger] scheme[i])
            || scheme[i] == '+' || scheme[i] == '-' || scheme[i] == '.' by {
            assert(rules::scheme_char(scheme[i]));
        }
    }
}

/// A hexadecimal digit.
pub open spec fn is_hex_digit(c: char) -> bool {
    ('0' <= c && c <= '9') || ('A' <= c && c <= 'F') || ('a' <= c && c <= 'f')
}

/// An identifier is five groups of hexadecimal digits, of 8, 4, 4, 4 and 12, with
/// dashes between them.
pub proof fn a_uuid_is_five_groups(
    a: Seq<char>,
    b: Seq<char>,
    c: Seq<char>,
    d: Seq<char>,
    e: Seq<char>,
)
    requires
        a.len() == 8,
        b.len() == 4,
        c.len() == 4,
        d.len() == 4,
        e.len() == 12,
        is_ascii_chars(a + b + c + d + e),
    ensures
        rules::uuid(encode_utf8(a + "-"@ + b + "-"@ + c + "-"@ + d + "-"@ + e)) <==> forall|i: int|
            0 <= i < 32 ==> is_hex_digit(#[trigger] (a + b + c + d + e)[i]),
{
    reveal_strlit("-");
    let s = a + "-"@ + b + "-"@ + c + "-"@ + d + "-"@ + e;
    let digits = a + b + c + d + e;
    assert(s.len() == 36 && digits.len() == 32);
    assert(s[8] == '-' && s[13] == '-' && s[18] == '-' && s[23] == '-');
    assert forall|i: int| 0 <= i < 36 && i != 8 && i != 13 && i != 18 && i != 23 implies s[i]
        == digits[place(i)] by {
        if i < 8 {
            assert(s[i] == a[i] && digits[i] == a[i]);
        } else if i < 13 {
            assert(s[i] == b[i - 9] && digits[i - 1] == b[i - 9]);
        } else if i < 18 {
            assert(s[i] == c[i - 14] && digits[i - 2] == c[i - 14]);
        } else if i < 23 {
            assert(s[i] == d[i - 19] && digits[i - 3] == d[i - 19]);
        } else {
            assert(s[i] == e[i - 24] && digits[i - 4] == e[i - 24]);
        }
    }
    assert forall|i: int| 0 <= i < s.len() implies '\0' <= #[trigger] s[i] && s[i] <= '\u{7f}' by {
        if i != 8 && i != 13 && i != 18 && i != 23 {
            assert(s[i] == digits[place(i)]);
        }
    }
    assert(is_ascii_chars(s));
    is_ascii_chars_encode_utf8(s);
    let bytes = encode_utf8(s);
    assert(forall|i: int| 0 <= i < 36 ==> s[i] as u8 == bytes[i]);
    if rules::uuid(bytes) {
        assert forall|i: int| 0 <= i < 32 implies is_hex_digit(#[trigger] digits[i]) by {
            let j = if i < 8 {
                i
            } else if i < 12 {
                i + 1
            } else if i < 16 {
                i + 2
            } else if i < 20 {
                i + 3
            } else {
                i + 4
            };
            assert(place(j) == i);
            assert(s[j] == digits[i]);
            assert(bytes[j] == s[j] as u8);
            assert(rules::is_hex(bytes[j]));
        }
    }
    if forall|i: int| 0 <= i < 32 ==> is_hex_digit(#[trigger] digits[i]) {
        assert forall|i: int| 0 <= i < 36 implies if i == 8 || i == 13 || i == 18 || i == 23 {
            #[trigger] bytes[i] == 45
        } else {
            rules::is_hex(bytes[i])
        } by {
            assert(s[i] as u8 == bytes[i]);
            if i != 8 && i != 13 && i != 18 && i != 23 {
                assert(is_hex_digit(digits[place(i)]));
            }
        }
    }
}

/// Where a character of an identifier stands among its digits.
spec fn place(i: int) -> int {
    if i < 8 {
        i
    } else if i < 13 {
        i - 1
    } else if i < 18 {
        i - 2
    } else if i < 23 {
        i - 3
    } else {
        i - 4
    }
}

/// A timestamp as RFC 3339 writes it, whatever its date and its time, has the
/// format of one; with a letter for a digit of the year it has not.
pub proof fn a_timestamp_is_one(
    year: Seq<char>,
    month: Seq<char>,
    day: Seq<char>,
    hour: Seq<char>,
    minute: Seq<char>,
    rest: Seq<char>,
)
    requires
        year.len() == 4,
        month.len() == 2,
        day.len() == 2,
        hour.len() == 2,
        minute.len() == 2,
        rest.len() >= 3,
        is_ascii_chars(year + month + day + hour + minute + rest),
    ensures
        ({
            let s = year + "-"@ + month + "-"@ + day + "T"@ + hour + ":"@ + minute + ":"@ + rest;
            rules::rfc3339(encode_utf8(s)) <==> forall|i: int|
                0 <= i < 4 ==> '0' <= #[trigger] year[i] && year[i] <= '9'
        }),
{
    reveal_strlit("-");
    reveal_strlit("T");
    reveal_strlit(":");
    let all = year + month + day + hour + minute + rest;
    let s = year + "-"@ + month + "-"@ + day + "T"@ + hour + ":"@ + minute + ":"@ + rest;
    assert(s[4] == '-' && s[7] == '-' && s[10] == 'T' && s[13] == ':' && s[16] == ':');
    assert(s[0] == year[0] && s[1] == year[1] && s[2] == year[2] && s[3] == year[3]);
    assert forall|i: int| 0 <= i < s.len() implies '\0' <= #[trigger] s[i] && s[i] <= '\u{7f}' by {
        if i < 4 {
            assert(s[i] == all[i]);
        } else if i == 5 || i == 6 {
            assert(s[i] == all[i - 1]);
        } else if i == 8 || i == 9 {
            assert(s[i] == all[i - 2]);
        } else if i == 11 || i == 12 {
            assert(s[i] == all[i - 3]);
        } else if i == 14 || i == 15 {
            assert(s[i] == all[i - 4]);
        } else if i >= 17 {
            assert(s[i] == all[i - 5]);
        }
    }
    assert(is_ascii_chars(s));
    is_ascii_chars_encode_utf8(s);
    let bytes = encode_utf8(s);
    assert(forall|i: int| 0 <= i < s.len() ==> s[i] as u8 == bytes[i]);
    assert(bytes[0] == s[0] as u8 && bytes[1] == s[1] as u8 && bytes[2] == s[2] as u8 && bytes[3]
        == s[3] as u8);
    assert(bytes[4] == s[4] as u8 && bytes[7] == s[7] as u8 && bytes[10] == s[10] as u8
        && bytes[13] == s[13] as u8 && bytes[16] == s[16] as u8);
    if rules::rfc3339(bytes) {
        assert forall|i: int| 0 <= i < 4 implies '0' <= #[trigger] year[i] && year[i] <= '9' by {
            assert(s[i] == year[i]);
            assert(i == 0 || i == 1 || i == 2 || i == 3);
        }
    }
}

} // verus!
