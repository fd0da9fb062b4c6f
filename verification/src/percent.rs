//! Percent-encoding in paths, query strings and forms.

use crate::text;
use vstd::prelude::*;
use vstd::string::*;
use vstd::utf8::*;

verus! {

/// The value of a hexadecimal digit, if `byte` is one.
pub open spec fn hex_value(byte: u8) -> Option<u8> {
    if 0x30 <= byte <= 0x39 {
        Some((byte - 0x30) as u8)
    } else if 0x41 <= byte <= 0x46 {
        Some((byte - 0x41 + 10) as u8)
    } else if 0x61 <= byte <= 0x66 {
        Some((byte - 0x61 + 10) as u8)
    } else {
        None
    }
}

/// Bytes with every `%` that two hexadecimal digits follow replaced, together
/// with the digits, by the byte they spell. Any other `%` stands for itself.
pub open spec fn percent_decoded(bytes: Seq<u8>) -> Seq<u8>
    decreases bytes.len(),
{
    if bytes.len() == 0 {
        Seq::empty()
    } else if bytes[0] == 0x25 && bytes.len() >= 3 && hex_value(bytes[1]) is Some && hex_value(
        bytes[2],
    ) is Some {
        seq![(hex_value(bytes[1])->0 * 16 + hex_value(bytes[2])->0) as u8]
            + percent_decoded(bytes.skip(3))
    } else {
        seq![bytes[0]] + percent_decoded(bytes.skip(1))
    }
}

/// What `PercentDecode::decode_utf8_lossy` makes of decoded bytes that are not
/// UTF-8 throughout.
pub uninterp spec fn lossy_utf8(bytes: Seq<u8>) -> Seq<char>;

/// The text that `s` spells once percent-decoded. Bytes that are not UTF-8
/// come out as replacement characters.
pub open spec fn unescaped(s: Seq<char>) -> Seq<char> {
    let bytes = percent_decoded(encode_utf8(s));
    if valid_utf8(bytes) {
        decode_utf8(bytes)
    } else {
        lossy_utf8(bytes)
    }
}

/// `percent_encoding::percent_decode_str` followed by `decode_utf8_lossy`:
/// every `%` and two hexadecimal digits become one byte, and the bytes are read
/// as UTF-8. What replaces bytes that are not UTF-8 is named and not described.
#[verifier::external_body]
fn percent_decode_lossy(s: &str) -> (out: String)
    ensures
        valid_utf8(percent_decoded(encode_utf8(s@))) ==> out@ == decode_utf8(
            percent_decoded(encode_utf8(s@)),
        ),
        !valid_utf8(percent_decoded(encode_utf8(s@))) ==> out@ == lossy_utf8(
            percent_decoded(encode_utf8(s@)),
        ),
{
    percent_encoding::percent_decode_str(s).decode_utf8_lossy().into_owned()
}

proof fn lemma_percent_decoded_without_sign(bytes: Seq<u8>)
    requires
        forall|i: int| 0 <= i < bytes.len() ==> bytes[i] != 0x25,
    ensures
        percent_decoded(bytes) == bytes,
    decreases bytes.len(),
{
    if bytes.len() > 0 {
        lemma_percent_decoded_without_sign(bytes.skip(1));
        assert(seq![bytes[0]] + bytes.skip(1) == bytes);
    }
}

/// Text without a percent sign has no byte that is one.
proof fn lemma_no_percent_byte(s: Seq<char>)
    requires
        !s.contains('%'),
    ensures
        forall|i: int| 0 <= i < encode_utf8(s).len() ==> encode_utf8(s)[i] != 0x25,
    decreases s.len(),
{
    if s.len() > 0 {
        assert forall|c: char| !s.drop_first().contains(c) || s.contains(c) by {
            if s.drop_first().contains(c) {
                let i = choose|i: int| 0 <= i < s.drop_first().len() && s.drop_first()[i] == c;
                assert(s[i + 1] == c);
            }
        }
        lemma_no_percent_byte(s.drop_first());
        assert(s[0] != '%');
        char_is_scalar(s[0]);
        char_u32_cast(s[0], s[0] as u32);
        lemma_scalar_without_percent(s[0] as u32);
        let head = encode_scalar(s[0] as u32);
        let tail = encode_utf8(s.drop_first());
        assert(encode_utf8(s) == head + tail);
        assert forall|i: int| 0 <= i < encode_utf8(s).len() implies encode_utf8(s)[i] != 0x25 by {
            if i < head.len() {
                assert((head + tail)[i] == head[i]);
            } else {
                assert((head + tail)[i] == tail[i - head.len()]);
            }
        }
    }
}

proof fn lemma_scalar_without_percent(v: u32)
    requires
        v != 0x25,
        is_scalar(v),
    ensures
        forall|i: int| 0 <= i < encode_scalar(v).len() ==> encode_scalar(v)[i] != 0x25,
{
    assert(v <= 0x7f && v != 0x25 ==> (v & 0x7f) as u8 != 0x25) by (bit_vector);
    assert(0xC0u8 | ((v >> 6) & 0x1F) as u8 != 0x25u8) by (bit_vector);
    assert(0xE0u8 | ((v >> 12) & 0x0F) as u8 != 0x25u8) by (bit_vector);
    assert(0xF0u8 | ((v >> 18) & 0x7) as u8 != 0x25u8) by (bit_vector);
    assert(0x80u8 | (v & 0x3F) as u8 != 0x25u8) by (bit_vector);
    assert(0x80u8 | ((v >> 6) & 0x3F) as u8 != 0x25u8) by (bit_vector);
    assert(0x80u8 | ((v >> 12) & 0x3F) as u8 != 0x25u8) by (bit_vector);
}

/// Text without a percent sign spells itself.
pub proof fn text_without_percent_is_unescaped(s: Seq<char>)
    requires
        !s.contains('%'),
    ensures
        unescaped(s) == s,
{
    lemma_no_percent_byte(s);
    lemma_percent_decoded_without_sign(encode_utf8(s));
    encode_utf8_valid_utf8(s);
    encode_utf8_decode_utf8(s);
}

// ---------------------------------------------------------------------------
// what was encoded comes back
// ---------------------------------------------------------------------------

/// The sixteen hexadecimal digits, in capital or in small letters.
pub open spec fn hex_digits(capital: bool) -> Seq<char> {
    if capital {
        "0123456789ABCDEF"@
    } else {
        "0123456789abcdef"@
    }
}

/// A byte as `%` and two hexadecimal digits.
pub open spec fn escape(byte: u8, capital: bool) -> Seq<char> {
    seq!['%', hex_digits(capital)[byte as int / 16], hex_digits(capital)[byte as int % 16]]
}

/// Each byte as `%` and two hexadecimal digits.
pub open spec fn escapes(bytes: Seq<u8>, capital: bool) -> Seq<char>
    decreases bytes.len(),
{
    if bytes.len() == 0 {
        Seq::empty()
    } else {
        escape(bytes[0], capital) + escapes(bytes.skip(1), capital)
    }
}

/// A text as a client writes it into a URL: the characters that may stand there
/// are kept, and every other is written byte for byte.
pub open spec fn escaped(t: Seq<char>, keep: spec_fn(char) -> bool, capital: bool) -> Seq<char>
    decreases t.len(),
{
    if t.len() == 0 {
        Seq::empty()
    } else {
        let first = if keep(t[0]) {
            seq![t[0]]
        } else {
            escapes(encode_utf8(seq![t[0]]), capital)
        };
        first + escaped(t.skip(1), keep, capital)
    }
}

/// The bytes of two texts in a row are the bytes of the one and then those of
/// the other.
pub proof fn lemma_encode_concat(a: Seq<char>, b: Seq<char>)
    ensures
        encode_utf8(a + b) == encode_utf8(a) + encode_utf8(b),
    decreases a.len(),
{
    if a.len() == 0 {
        assert(a + b =~= b);
        assert(encode_utf8(a) + encode_utf8(b) =~= encode_utf8(b));
    } else {
        assert((a + b).drop_first() =~= a.drop_first() + b);
        lemma_encode_concat(a.drop_first(), b);
        assert(encode_utf8(a + b) =~= encode_utf8(a) + encode_utf8(b));
    }
}

/// Bytes that are no percent sign are left alone, whatever follows.
pub proof fn lemma_decoded_front(front: Seq<u8>, rest: Seq<u8>)
    requires
        forall|i: int| 0 <= i < front.len() ==> front[i] != 0x25,
    ensures
        percent_decoded(front + rest) == front + percent_decoded(rest),
    decreases front.len(),
{
    if front.len() == 0 {
        assert(front + rest =~= rest);
        assert(front + percent_decoded(rest) =~= percent_decoded(rest));
    } else {
        lemma_decoded_front(front.skip(1), rest);
        let whole = front + rest;
        assert(whole.skip(1) =~= front.skip(1) + rest);
        assert(whole[0] == front[0]);
        assert(seq![front[0]] + (front.skip(1) + percent_decoded(rest)) =~= front
            + percent_decoded(rest));
    }
}

proof fn lemma_hex_digit(d: int, capital: bool)
    requires
        0 <= d < 16,
    ensures
        hex_digits(capital).len() == 16,
        '\0' <= hex_digits(capital)[d] && hex_digits(capital)[d] <= '\u{7f}',
        hex_value(hex_digits(capital)[d] as u8) == Some(d as u8),
{
    reveal_strlit("0123456789ABCDEF");
    reveal_strlit("0123456789abcdef");
    let s = hex_digits(capital);
    if d == 0 {
        assert(s[0] == '0');
    } else if d == 1 {
        assert(s[1] == '1');
    } else if d == 2 {
        assert(s[2] == '2');
    } else if d == 3 {
        assert(s[3] == '3');
    } else if d == 4 {
        assert(s[4] == '4');
    } else if d == 5 {
        assert(s[5] == '5');
    } else if d == 6 {
        assert(s[6] == '6');
    } else if d == 7 {
        assert(s[7] == '7');
    } else if d == 8 {
        assert(s[8] == '8');
    } else if d == 9 {
        assert(s[9] == '9');
    } else if d == 10 {
        assert(s[10] == if capital { 'A' } else { 'a' });
    } else if d == 11 {
        assert(s[11] == if capital { 'B' } else { 'b' });
    } else if d == 12 {
        assert(s[12] == if capital { 'C' } else { 'c' });
    } else if d == 13 {
        assert(s[13] == if capital { 'D' } else { 'd' });
    } else if d == 14 {
        assert(s[14] == if capital { 'E' } else { 'e' });
    } else {
        assert(s[15] == if capital { 'F' } else { 'f' });
    }
}

proof fn lemma_decoded_escape(byte: u8, capital: bool, rest: Seq<u8>)
    ensures
        percent_decoded(encode_utf8(escape(byte, capital)) + rest) == seq![byte]
            + percent_decoded(rest),
{
    let e = escape(byte, capital);
    let high = byte as int / 16;
    let low = byte as int % 16;
    lemma_hex_digit(high, capital);
    lemma_hex_digit(low, capital);
    assert(e[0] == '%' && e[1] == hex_digits(capital)[high] && e[2] == hex_digits(capital)[low]);
    assert forall|i: int| 0 <= i < e.len() implies '\0' <= #[trigger] e[i] && e[i] <= '\u{7f}' by {
        assert(i == 0 || i == 1 || i == 2);
    }
    assert(is_ascii_chars(e));
    is_ascii_chars_encode_utf8(e);
    let bytes = encode_utf8(e) + rest;
    assert(bytes[0] == 0x25 && bytes[1] == e[1] as u8 && bytes[2] == e[2] as u8);
    assert(bytes.skip(3) =~= rest);
    assert(high * 16 + low == byte);
}

proof fn lemma_decoded_escapes(bytes: Seq<u8>, capital: bool, rest: Seq<u8>)
    ensures
        percent_decoded(encode_utf8(escapes(bytes, capital)) + rest) == bytes + percent_decoded(
            rest,
        ),
    decreases bytes.len(),
{
    if bytes.len() == 0 {
        assert(encode_utf8(escapes(bytes, capital)) + rest =~= rest);
        assert(bytes + percent_decoded(rest) =~= percent_decoded(rest));
    } else {
        let first = escape(bytes[0], capital);
        let others = escapes(bytes.skip(1), capital);
        lemma_encode_concat(first, others);
        lemma_decoded_escapes(bytes.skip(1), capital, rest);
        lemma_decoded_escape(bytes[0], capital, encode_utf8(others) + rest);
        assert(encode_utf8(first) + encode_utf8(others) + rest =~= encode_utf8(first) + (
        encode_utf8(others) + rest));
        assert(seq![bytes[0]] + (bytes.skip(1) + percent_decoded(rest)) =~= bytes
            + percent_decoded(rest));
    }
}

/// An encoded text is decoded up to its end, whatever follows.
pub proof fn lemma_decoded_escaped(
    t: Seq<char>,
    keep: spec_fn(char) -> bool,
    capital: bool,
    rest: Seq<u8>,
)
    requires
        !keep('%'),
    ensures
        percent_decoded(encode_utf8(escaped(t, keep, capital)) + rest) == encode_utf8(t)
            + percent_decoded(rest),
    decreases t.len(),
{
    if t.len() == 0 {
        assert(encode_utf8(escaped(t, keep, capital)) + rest =~= rest);
        assert(encode_utf8(t) + percent_decoded(rest) =~= percent_decoded(rest));
    } else {
        let c = seq![t[0]];
        let others = escaped(t.skip(1), keep, capital);
        let behind = encode_utf8(others) + rest;
        lemma_decoded_escaped(t.skip(1), keep, capital, rest);
        assert(t =~= c + t.skip(1));
        lemma_encode_concat(c, t.skip(1));
        let first = if keep(t[0]) {
            c
        } else {
            escapes(encode_utf8(c), capital)
        };
        lemma_encode_concat(first, others);
        assert(encode_utf8(first) + encode_utf8(others) + rest =~= encode_utf8(first) + behind);
        if keep(t[0]) {
            assert(!c.contains('%'));
            lemma_no_percent_byte(c);
            lemma_decoded_front(encode_utf8(c), behind);
        } else {
            lemma_decoded_escapes(encode_utf8(c), capital, behind);
        }
        assert(encode_utf8(c) + (encode_utf8(t.skip(1)) + percent_decoded(rest)) =~= encode_utf8(t)
            + percent_decoded(rest));
    }
}

/// Decoding gives back what was encoded, whichever characters the client kept
/// and in whichever letters it wrote the digits.
pub proof fn what_was_escaped_reads_back(
    t: Seq<char>,
    keep: spec_fn(char) -> bool,
    capital: bool,
)
    requires
        !keep('%'),
    ensures
        unescaped(escaped(t, keep, capital)) == t,
{
    let bytes = encode_utf8(escaped(t, keep, capital));
    lemma_decoded_escaped(t, keep, capital, Seq::empty());
    assert(bytes + Seq::<u8>::empty() =~= bytes);
    assert(encode_utf8(t) + percent_decoded(Seq::empty()) =~= encode_utf8(t));
    encode_utf8_valid_utf8(t);
    encode_utf8_decode_utf8(t);
}

/// An encoded text holds the characters that were kept, and signs and digits.
pub proof fn lemma_escaped_within(
    t: Seq<char>,
    keep: spec_fn(char) -> bool,
    capital: bool,
    c: char,
)
    requires
        !keep(c),
        c != '%',
        !hex_digits(capital).contains(c),
    ensures
        !escaped(t, keep, capital).contains(c),
    decreases t.len(),
{
    if t.len() > 0 {
        lemma_escaped_within(t.skip(1), keep, capital, c);
        let others = escaped(t.skip(1), keep, capital);
        let first = if keep(t[0]) {
            seq![t[0]]
        } else {
            escapes(encode_utf8(seq![t[0]]), capital)
        };
        if !keep(t[0]) {
            lemma_escapes_within(encode_utf8(seq![t[0]]), capital, c);
        }
        let whole = first + others;
        if whole.contains(c) {
            let i = choose|i: int| 0 <= i < whole.len() && whole[i] == c;
            if i < first.len() {
                assert(first[i] == c);
            } else {
                assert(others[i - first.len()] == c);
            }
        }
    }
}

proof fn lemma_escapes_within(bytes: Seq<u8>, capital: bool, c: char)
    requires
        c != '%',
        !hex_digits(capital).contains(c),
    ensures
        !escapes(bytes, capital).contains(c),
    decreases bytes.len(),
{
    if bytes.len() > 0 {
        lemma_escapes_within(bytes.skip(1), capital, c);
        lemma_hex_digit(bytes[0] as int / 16, capital);
        lemma_hex_digit(bytes[0] as int % 16, capital);
        let first = escape(bytes[0], capital);
        let others = escapes(bytes.skip(1), capital);
        let whole = first + others;
        if whole.contains(c) {
            let i = choose|i: int| 0 <= i < whole.len() && whole[i] == c;
            if i < 3 {
                assert(first[i] == c);
                assert(hex_digits(capital)[bytes[0] as int / 16] != c);
                assert(hex_digits(capital)[bytes[0] as int % 16] != c);
            } else {
                assert(others[i - 3] == c);
            }
        }
    }
}

/// An encoded text is empty only where the text is.
pub proof fn lemma_escaped_len(t: Seq<char>, keep: spec_fn(char) -> bool, capital: bool)
    ensures
        escaped(t, keep, capital).len() >= t.len(),
    decreases t.len(),
{
    if t.len() > 0 {
        lemma_escaped_len(t.skip(1), keep, capital);
        let bytes = encode_utf8(seq![t[0]]);
        assert(bytes.len() >= 1);
        assert(escapes(bytes, capital).len() >= 3);
    }
}

/// Percent-decodes `s`, leaving it alone where there is nothing to decode.
pub fn decode_segment(segment: &str) -> (out: String)
    ensures
        out@ == unescaped(segment@),
{
    if text::has_char(segment, '%') {
        percent_decode_lossy(segment)
    } else {
        proof {
            text_without_percent_is_unescaped(segment@);
        }
        segment.to_owned()
    }
}

} // verus!
