//! What a multipart upload is read as.

use crate::error::Problem;
use crate::extract::multipart;
use crate::extract::multipart::{Fault, PartHead, PartModel};
use crate::percent;
use crate::text;
use vstd::prelude::*;
use vstd::string::*;
use vstd::utf8::*;

verus! {

// ---------------------------------------------------------------------------
// the boundary
// ---------------------------------------------------------------------------

/// A boundary as RFC 2046 has it: of 1 to 70 bytes, and without quotes.
pub open spec fn is_boundary(b: Seq<char>) -> bool {
    1 <= encode_utf8(b).len() <= 70 && !b.contains('"')
}

/// A boundary that can do without quotes.
pub open spec fn stands_bare(b: Seq<char>) -> bool {
    b.len() > 0 && !b.contains(';') && !text::is_white(b.first()) && !text::is_white(b.last())
}

/// A content type with its boundary, bare or in quotes.
pub open spec fn content_type_of(b: Seq<char>, in_quotes: bool) -> Seq<char> {
    if in_quotes {
        "multipart/form-data; boundary=\""@ + b + "\""@
    } else {
        "multipart/form-data; boundary="@ + b
    }
}

/// Characters that are neither quotes nor separators change nothing.
proof fn lemma_plain_run(s: Seq<char>, start: int, i: int, j: int)
    requires
        0 <= i <= j <= s.len(),
        forall|k: int| i <= k < j ==> s[k] != '"' && s[k] != ';',
    ensures
        multipart::parameters_from(s, start, i, false, false) == multipart::parameters_from(
            s,
            start,
            j,
            false,
            false,
        ),
    decreases j - i,
{
    if i < j {
        lemma_plain_run(s, start, i + 1, j);
    }
}

/// Quotes that close at the very end hold everything up to there.
proof fn lemma_quoted_to_the_end(s: Seq<char>, start: int, i: int, escaped: bool)
    requires
        0 <= i <= s.len(),
        forall|k: int| i <= k < s.len() - 1 ==> s[k] != '"',
    ensures
        multipart::parameters_from(s, start, i, true, escaped) == seq![s.skip(start)],
    decreases s.len() - i,
{
    if i < s.len() {
        if i == s.len() - 1 {
            reveal_with_fuel(multipart::parameters_from, 3);
        } else if escaped {
            lemma_quoted_to_the_end(s, start, i + 1, false);
        } else if s[i] == '\\' {
            lemma_quoted_to_the_end(s, start, i + 1, true);
        } else {
            lemma_quoted_to_the_end(s, start, i + 1, false);
        }
    }
}

proof fn lemma_trim_word(front: Seq<char>, word: Seq<char>)
    requires
        word.len() > 0,
        !text::is_white(word.first()),
        !text::is_white(word.last()),
        front.len() <= 1,
        front.len() == 1 ==> front[0] == ' ',
    ensures
        text::trim(front + word) == word,
{
    let s = front + word;
    if front.len() == 1 {
        assert(s[0] == ' ');
        assert(s.skip(1) =~= word);
    } else {
        assert(s =~= word);
    }
    assert(text::trim(word) == word);
}

/// A boundary is read as it was sent, bare or in quotes, whatever it begins
/// with.
pub proof fn a_boundary_reads_back(b: Seq<char>, in_quotes: bool)
    requires
        is_boundary(b),
        in_quotes || stands_bare(b),
    ensures
        multipart::boundary_in(content_type_of(b, in_quotes)) == Ok::<Seq<char>, Fault>(b),
{
    reveal_strlit("multipart/form-data; boundary=\"");
    reveal_strlit("multipart/form-data; boundary=");
    reveal_strlit("multipart/form-data");
    reveal_strlit("boundary");
    reveal_strlit("\"");
    let s = content_type_of(b, in_quotes);
    let value = if in_quotes {
        seq!['"'] + b + seq!['"']
    } else {
        b
    };
    // The media type and what follows it.
    text::lemma_index_of(s, ';', 0);
    assert(s[19] == ';');
    let at = text::index_of(s, ';', 0)->0;
    assert(at == 19);
    let media = s.take(19);
    assert(media =~= "multipart/form-data"@);
    lemma_trim_word(Seq::empty(), media);
    assert(Seq::<char>::empty() + media =~= media);
    assert(text::ascii_lower(media) =~= "multipart/form-data"@);
    let rest = s.skip(20);
    assert(s == s.take(19) + seq![';'] + rest);
    assert(rest[9] == '=');
    assert(rest.take(9) =~= seq![' '] + "boundary"@);
    assert(rest.skip(10) =~= value);
    // One parameter.
    if in_quotes {
        assert(rest[10] == '"');
        lemma_plain_run(rest, 0, 0, 10);
        assert forall|k: int| 11 <= k < rest.len() - 1 implies rest[k] != '"' by {
            assert(rest[k] == value[k - 10]);
            assert(value[k - 10] == b[k - 11]);
        }
        lemma_quoted_to_the_end(rest, 0, 11, false);
        reveal_with_fuel(multipart::parameters_from, 2);
    } else {
        assert forall|k: int| 0 <= k < rest.len() implies rest[k] != '"' && rest[k] != ';' by {
            if k >= 10 {
                assert(rest[k] == b[k - 10]);
            }
        }
        lemma_plain_run(rest, 0, 0, rest.len() as int);
    }
    assert(rest.skip(0) =~= rest);
    let list = multipart::parameters(rest);
    assert(list =~= seq![rest]);
    // Its key and its value.
    text::lemma_index_of(rest, '=', 0);
    let eq = text::index_of(rest, '=', 0)->0;
    assert(eq == 9);
    lemma_trim_word(seq![' '], "boundary"@);
    assert(text::ascii_lower("boundary"@) =~= "boundary"@);
    if in_quotes {
        assert(value.first() == '"' && value.last() == '"');
        assert(value.subrange(1, value.len() - 1) =~= b);
    } else {
        assert(b[0] != '"');
    }
    lemma_trim_word(Seq::empty(), value);
    assert(Seq::<char>::empty() + value =~= value);
    assert(multipart::between_quotes(value) == b);
    assert(multipart::declared_boundary(list, 0) == Ok::<Seq<char>, Fault>(b));
}

// ---------------------------------------------------------------------------
// one part
// ---------------------------------------------------------------------------

/// The headers of a part as a client writes them.
pub open spec fn head_written(p: PartModel) -> Seq<char> {
    let name = "Content-Disposition: form-data; name="@ + multipart::quoted(p.name);
    let file = match p.file_name {
        Some(f) => "; filename="@ + multipart::quoted(f),
        None => Seq::empty(),
    };
    match p.content_type {
        Some(t) => name + file + "\r\nContent-Type: "@ + t,
        None => name + file,
    }
}

/// A part as a client writes it.
pub open spec fn part_written(p: PartModel) -> Seq<u8> {
    encode_utf8(head_written(p) + "\r\n\r\n"@) + p.data
}

/// Text that stays on its line.
pub open spec fn one_line(s: Seq<char>) -> bool {
    !s.contains('\r')
}

/// A part whose headers stay on their lines.
pub open spec fn can_be_written(p: PartModel) -> bool {
    &&& one_line(p.name)
    &&& p.file_name matches Some(f) ==> one_line(f)
    &&& p.content_type matches Some(t) ==> one_line(t) && t.len() > 0 && !text::is_white(t.first())
        && !text::is_white(t.last())
}

/// A quoted text is passed over, and the quotes are closed behind it.
proof fn lemma_past_quoted(s: Seq<char>, start: int, i: int, inner: Seq<char>)
    requires
        0 <= i,
        i + multipart::quoted(inner).len() <= s.len(),
        s.subrange(i, i + multipart::quoted(inner).len()) == multipart::quoted(inner),
    ensures
        multipart::parameters_from(s, start, i, false, false) == multipart::parameters_from(
            s,
            start,
            i + multipart::quoted(inner).len(),
            false,
            false,
        ),
{
    let q = multipart::quoted(inner);
    assert(s[i] == s.subrange(i, i + q.len())[0]);
    assert(q[0] == '"');
    assert(s.subrange(i + 1, i + q.len()) =~= s.subrange(i, i + q.len()).skip(1));
    assert(q.skip(1) =~= multipart::escaped(inner) + seq!['"']);
    lemma_past_inner(s, start, i + 1, inner);
}

proof fn lemma_past_inner(s: Seq<char>, start: int, i: int, inner: Seq<char>)
    requires
        0 <= i,
        i + multipart::escaped(inner).len() + 1 <= s.len(),
        s.subrange(i, i + multipart::escaped(inner).len() + 1) == multipart::escaped(inner)
            + seq!['"'],
    ensures
        multipart::parameters_from(s, start, i, true, false) == multipart::parameters_from(
            s,
            start,
            i + multipart::escaped(inner).len() + 1,
            false,
            false,
        ),
    decreases inner.len(),
{
    let e = multipart::escaped(inner);
    let n = e.len() as int;
    let here = s.subrange(i, i + n + 1);
    assert(s[i] == here[0]);
    if inner.len() == 0 {
        assert(s[i] == '"');
    } else {
        let rest = multipart::escaped(inner.skip(1));
        if inner[0] == '"' || inner[0] == '\\' {
            assert(e =~= seq!['\\', inner[0]] + rest);
            assert(here[0] == '\\' && here[1] == inner[0]);
            assert(s[i + 1] == here[1]);
            assert(s.subrange(i + 2, i + n + 1) =~= here.skip(2));
            assert(here.skip(2) =~= rest + seq!['"']);
            lemma_past_inner(s, start, i + 2, inner.skip(1));
            reveal_with_fuel(multipart::parameters_from, 3);
        } else {
            assert(e =~= seq![inner[0]] + rest);
            assert(here[0] == inner[0]);
            assert(s.subrange(i + 1, i + n + 1) =~= here.skip(1));
            assert(here.skip(1) =~= rest + seq!['"']);
            lemma_past_inner(s, start, i + 1, inner.skip(1));
        }
    }
}

proof fn lemma_parameter(head: PartHead, key: Seq<char>, value: Seq<char>)
    requires
        key == "name"@ || key == "filename"@,
    ensures
        ({
            let p = seq![' '] + key + seq!['='] + multipart::quoted(value);
            multipart::parameter_read(head, p) == if key == "name"@ {
                PartHead { name: Some(value), ..head }
            } else {
                PartHead { file_name: Some(value), ..head }
            }
        }),
{
    reveal_strlit("name");
    reveal_strlit("filename");
    let q = multipart::quoted(value);
    let p = seq![' '] + key + seq!['='] + q;
    text::lemma_index_of(p, '=', 0);
    assert(p[key.len() as int + 1] == '=');
    let at = text::index_of(p, '=', 0)->0;
    assert(forall|j: int| 0 < j < key.len() + 1 ==> p[j] == key[j - 1]);
    assert(at == key.len() + 1);
    assert(p.take(at) =~= seq![' '] + key);
    assert(p.skip(at + 1) =~= q);
    lemma_trim_word(seq![' '], key);
    assert(text::ascii_lower(key) =~= key);
    assert(q.first() == '"' && q.last() == '"');
    lemma_trim_word(Seq::empty(), q);
    assert(Seq::<char>::empty() + q =~= q);
    multipart::a_quoted_value_reads_back(Seq::empty(), value);
    assert("name"@.len() == 4 && "filename"@.len() == 8);
}

/// The content disposition of a part.
spec fn disposition(p: PartModel) -> Seq<char> {
    let name = "Content-Disposition: form-data; name="@ + multipart::quoted(p.name);
    match p.file_name {
        Some(f) => name + ("; filename="@ + multipart::quoted(f)),
        None => name,
    }
}

proof fn lemma_disposition(p: PartModel)
    ensures
        multipart::line_read(
            PartHead { name: None, file_name: None, content_type: None },
            disposition(p),
        ) == (PartHead { name: Some(p.name), file_name: p.file_name, content_type: None }),
{
    reveal_strlit("Content-Disposition: form-data; name=");
    reveal_strlit("; filename=");
    reveal_strlit("content-disposition");
    reveal_strlit("content-type");
    reveal_strlit("name");
    reveal_strlit("filename");
    let none = PartHead { name: None, file_name: None, content_type: None };
    let line = disposition(p);
    let q = multipart::quoted(p.name);
    text::lemma_index_of(line, ':', 0);
    assert(line[19] == ':');
    let at = text::index_of(line, ':', 0)->0;
    assert(at == 19);
    let key = line.take(19);
    assert(key[0] == 'C' && key[18] == 'n');
    lemma_trim_word(Seq::empty(), key);
    assert(Seq::<char>::empty() + key =~= key);
    assert(text::ascii_lower(key) =~= "content-disposition"@);
    let value = line.skip(20);
    assert(value.take(10) =~= "Content-Disposition: form-data; name="@.subrange(20, 30));
    assert(value[10] == ';');
    assert(value.subrange(11, 17) =~= seq![' '] + "name"@ + seq!['=']);
    assert(value.subrange(17, 17 + q.len() as int) =~= q);
    let first = value.subrange(0, 10);
    let end = 17 + q.len() as int;
    lemma_plain_run(value, 0, 0, 10);
    lemma_plain_run(value, 11, 11, 17);
    lemma_past_quoted(value, 11, 17, p.name);
    let second = value.subrange(11, end);
    assert(second =~= seq![' '] + "name"@ + seq!['='] + q);
    text::lemma_index_of(first, '=', 0);
    assert(multipart::parameter_read(none, first) == none);
    lemma_parameter(none, "name"@, p.name);
    let named = PartHead { name: Some(p.name), ..none };
    match p.file_name {
        None => {
            assert(value.len() == end);
            assert(value.skip(11) =~= second);
            assert(multipart::parameters_from(value, 11, end, false, false) =~= seq![second]);
            assert(multipart::parameters(value) =~= seq![first, second]);
            assert(seq![first, second].drop_last() =~= seq![first]);
        },
        Some(f) => {
            let r = multipart::quoted(f);
            let last = end + 11 + r.len() as int;
            assert(value[end] == ';');
            assert(value.subrange(end + 1, end + 11) =~= seq![' '] + "filename"@ + seq!['=']);
            assert(value.subrange(end + 11, last) =~= r);
            lemma_plain_run(value, end + 1, end + 1, end + 11);
            lemma_past_quoted(value, end + 1, end + 11, f);
            let third = value.subrange(end + 1, last);
            assert(value.len() == last);
            assert(third =~= seq![' '] + "filename"@ + seq!['='] + r);
            assert(value.skip(end + 1) =~= third);
            assert(multipart::parameters_from(value, end + 1, last, false, false) =~= seq![third]);
            assert(multipart::parameters_from(value, 11, end, false, false) =~= seq![second]
                + seq![third]);
            assert(multipart::parameters(value) =~= seq![first, second, third]);
            assert(seq![first, second, third].drop_last() =~= seq![first, second]);
            assert(seq![first, second].drop_last() =~= seq![first]);
            lemma_parameter(named, "filename"@, f);
        },
    }
    assert(seq![first].drop_last() =~= Seq::<Seq<char>>::empty());
    reveal_with_fuel(multipart::parameters_read, 4);
    assert("filename"@.len() == 8 && "name"@.len() == 4);
}

proof fn lemma_type_line(head: PartHead, t: Seq<char>)
    requires
        t.len() > 0,
        !text::is_white(t.first()),
        !text::is_white(t.last()),
    ensures
        multipart::line_read(head, "Content-Type: "@ + t) == (PartHead {
            content_type: Some(t),
            ..head
        }),
{
    reveal_strlit("Content-Type: ");
    reveal_strlit("content-type");
    reveal_strlit("content-disposition");
    let line = "Content-Type: "@ + t;
    text::lemma_index_of(line, ':', 0);
    assert(line[12] == ':');
    let at = text::index_of(line, ':', 0)->0;
    assert(at == 12);
    let key = line.take(12);
    assert(key[0] == 'C' && key[11] == 'e');
    lemma_trim_word(Seq::empty(), key);
    assert(Seq::<char>::empty() + key =~= key);
    assert(text::ascii_lower(key) =~= "content-type"@);
    assert("content-type"@.len() == 12 && "content-disposition"@.len() == 19);
    assert(line.skip(13) =~= seq![' '] + t);
    lemma_trim_word(seq![' '], t);
}

proof fn lemma_lines_run(s: Seq<char>, start: int, i: int, j: int)
    requires
        0 <= i <= j <= s.len(),
        forall|k: int| i <= k < j ==> s[k] != '\r',
    ensures
        multipart::lines_from(s, start, i) == multipart::lines_from(s, start, j),
    decreases j - i,
{
    if i < j {
        lemma_lines_run(s, start, i + 1, j);
    }
}

proof fn lemma_quoted_line(s: Seq<char>)
    requires
        one_line(s),
    ensures
        one_line(multipart::quoted(s)),
    decreases s.len(),
{
    let q = multipart::quoted(s);
    if s.len() > 0 {
        assert(one_line(s.skip(1))) by {
            if s.skip(1).contains('\r') {
                let i = choose|i: int| 0 <= i < s.skip(1).len() && s.skip(1)[i] == '\r';
                assert(s[i + 1] == '\r');
            }
        }
        lemma_quoted_line(s.skip(1));
        let p = multipart::quoted(s.skip(1));
        assert(s[0] != '\r');
        let e = multipart::escaped(s.skip(1));
        assert forall|i: int| 0 <= i < e.len() implies e[i] != '\r' by {
            assert(p[i + 1] == e[i]);
        }
    }
}

proof fn lemma_disposition_line(p: PartModel)
    requires
        can_be_written(p),
    ensures
        one_line(disposition(p)),
{
    reveal_strlit("Content-Disposition: form-data; name=");
    reveal_strlit("; filename=");
    lemma_quoted_line(p.name);
    let q = multipart::quoted(p.name);
    let a = "Content-Disposition: form-data; name="@;
    let d = disposition(p);
    match p.file_name {
        None => {
            assert forall|i: int| 0 <= i < d.len() implies d[i] != '\r' by {
                if i >= a.len() {
                    assert(d[i] == q[i - a.len()]);
                }
            }
        },
        Some(f) => {
            lemma_quoted_line(f);
            let r = multipart::quoted(f);
            let n = a.len() + q.len();
            assert forall|i: int| 0 <= i < d.len() implies d[i] != '\r' by {
                if i < a.len() {
                } else if i < n {
                    assert(d[i] == q[i - a.len()]);
                } else if i >= n + 11 {
                    assert(d[i] == r[i - n - 11]);
                } else {
                    assert(d[i] == "; filename="@[i - n]);
                }
            }
        },
    }
}

proof fn lemma_head_read(p: PartModel)
    requires
        can_be_written(p),
    ensures
        multipart::lines_read(multipart::lines(head_written(p))) == (PartHead {
            name: Some(p.name),
            file_name: p.file_name,
            content_type: p.content_type,
        }),
{
    let d = disposition(p);
    let h = head_written(p);
    let n = d.len() as int;
    lemma_disposition(p);
    lemma_disposition_line(p);
    reveal_strlit("\r\nContent-Type: ");
    reveal_strlit("Content-Type: ");
    reveal_with_fuel(multipart::lines_read, 3);
    match p.content_type {
        None => {
            assert(h =~= d);
            assert forall|k: int| 0 <= k < h.len() implies h[k] != '\r' by {
                assert(d[k] == h[k]);
            }
            lemma_lines_run(h, 0, 0, n);
            assert(h.skip(0) =~= h);
            assert(multipart::lines(h) =~= seq![d]);
            assert(seq![d].drop_last() =~= Seq::empty());
        },
        Some(t) => {
            let line = "Content-Type: "@ + t;
            assert(h =~= d + "\r\n"@ + line) by {
                reveal_strlit("\r\n");
            }
            reveal_strlit("\r\n");
            assert forall|k: int| 0 <= k < n implies h[k] != '\r' by {
                assert(d[k] == h[k]);
            }
            lemma_lines_run(h, 0, 0, n);
            assert(h[n] == '\r' && h[n + 1] == '\n');
            assert forall|k: int| n + 2 <= k < h.len() implies h[k] != '\r' by {
                assert(h[k] == line[k - n - 2]);
                if k >= n + 16 {
                    assert(h[k] == t[k - n - 16]);
                }
            }
            lemma_lines_run(h, n + 2, n + 2, h.len() as int);
            assert(h.subrange(0, n) =~= d);
            assert(h.skip(n + 2) =~= line);
            assert(multipart::lines(h) =~= seq![d, line]);
            assert(seq![d, line].drop_last() =~= seq![d]);
            assert(seq![d].drop_last() =~= Seq::empty());
            lemma_type_line(
                PartHead { name: Some(p.name), file_name: p.file_name, content_type: None },
                t,
            );
        },
    }
}

/// Text without a character of ASCII has no byte that is one.
proof fn lemma_no_byte(s: Seq<char>, c: char)
    requires
        !s.contains(c),
        (c as int) < 128,
    ensures
        forall|i: int| 0 <= i < encode_utf8(s).len() ==> encode_utf8(s)[i] != c as u8,
    decreases s.len(),
{
    if s.len() > 0 {
        let rest = s.drop_first();
        assert(!rest.contains(c)) by {
            if rest.contains(c) {
                let i = choose|i: int| 0 <= i < rest.len() && rest[i] == c;
                assert(s[i + 1] == c);
            }
        }
        lemma_no_byte(rest, c);
        assert(s[0] != c);
        char_is_scalar(s[0]);
        char_u32_cast(s[0], s[0] as u32);
        char_u32_cast(c, c as u32);
        let v = s[0] as u32;
        let b = c as u8;
        assert(v as int == s[0] as int && b as int == c as int);
        lemma_scalar_bytes(v, b);
        let head = encode_scalar(v);
        let tail = encode_utf8(rest);
        assert forall|i: int| 0 <= i < encode_utf8(s).len() implies encode_utf8(s)[i] != b by {
            if i < head.len() {
                assert((head + tail)[i] == head[i]);
            } else {
                assert((head + tail)[i] == tail[i - head.len()]);
            }
        }
    }
}

proof fn lemma_scalar_bytes(v: u32, b: u8)
    requires
        v != b,
        b < 128,
        is_scalar(v),
    ensures
        forall|i: int| 0 <= i < encode_scalar(v).len() ==> encode_scalar(v)[i] != b,
{
    assert(v <= 0x7f && v != b ==> (v & 0x7f) as u8 != b) by (bit_vector);
    assert(b < 128 ==> 0xC0u8 | ((v >> 6) & 0x1F) as u8 != b) by (bit_vector);
    assert(b < 128 ==> 0xE0u8 | ((v >> 12) & 0x0F) as u8 != b) by (bit_vector);
    assert(b < 128 ==> 0xF0u8 | ((v >> 18) & 0x7) as u8 != b) by (bit_vector);
    assert(b < 128 ==> 0x80u8 | (v & 0x3F) as u8 != b) by (bit_vector);
    assert(b < 128 ==> 0x80u8 | ((v >> 6) & 0x3F) as u8 != b) by (bit_vector);
    assert(b < 128 ==> 0x80u8 | ((v >> 12) & 0x3F) as u8 != b) by (bit_vector);
}

/// Neither line of the headers is blank.
proof fn lemma_no_blank_line(p: PartModel)
    requires
        can_be_written(p),
    ensures
        ({
            let head = encode_utf8(head_written(p));
            forall|i: int|
                0 <= i < head.len() ==> !#[trigger] multipart::stands_at(
                    head + multipart::blank_line(),
                    multipart::blank_line(),
                    i,
                )
        }),
{
    let d = disposition(p);
    let head = encode_utf8(head_written(p));
    let blank = multipart::blank_line();
    let whole = head + blank;
    lemma_disposition_line(p);
    lemma_no_byte(d, '\r');
    let a = encode_utf8(d);
    reveal_strlit("\r\nContent-Type: ");
    match p.content_type {
        None => {
            assert(head_written(p) =~= d);
            assert forall|i: int| 0 <= i < head.len() implies !#[trigger] multipart::stands_at(
                whole,
                blank,
                i,
            ) by {
                assert(whole[i] == a[i]);
                if multipart::stands_at(whole, blank, i) {
                    assert(whole.subrange(i, i + 4)[0] == whole[i]);
                }
            }
        },
        Some(t) => {
            let mid = "\r\nContent-Type: "@;
            percent::lemma_encode_concat(d + mid, t);
            percent::lemma_encode_concat(d, mid);
            assert(head_written(p) =~= d + mid + t);
            assert(is_ascii_chars(mid));
            is_ascii_chars_encode_utf8(mid);
            lemma_no_byte(t, '\r');
            let b = encode_utf8(mid);
            let c = encode_utf8(t);
            let n = a.len() as int;
            assert(head == a + b + c);
            assert(b.len() == 16);
            assert(mid[0] == '\r' && mid[2] == 'C');
            assert(b[0] == 13 && b[2] == 67);
            assert forall|i: int| 0 <= i < head.len() implies !#[trigger] multipart::stands_at(
                whole,
                blank,
                i,
            ) by {
                if multipart::stands_at(whole, blank, i) {
                    let here = whole.subrange(i, i + 4);
                    assert(here[0] == whole[i] && here[2] == whole[i + 2]);
                    assert(here[0] == 13 && here[2] == 13);
                    if i < n {
                        assert(whole[i] == a[i]);
                    } else if i == n {
                        assert(whole[i + 2] == b[2]);
                    } else if i < n + 16 {
                        assert(whole[i] == b[i - n]);
                        assert(mid[i - n] != '\r');
                    } else {
                        assert(whole[i] == c[i - n - 16]);
                    }
                }
            }
        },
    }
}

/// A part reads back as a client writes it: its name, its file name and its
/// content type where it has them, and every byte of its data.
pub proof fn a_part_reads_back(p: PartModel)
    requires
        can_be_written(p),
    ensures
        multipart::part_of(part_written(p)) == Ok::<PartModel, Fault>(p),
{
    let h = head_written(p);
    let head = encode_utf8(h);
    lemma_head_read(p);
    lemma_no_blank_line(p);
    encode_utf8_valid_utf8(h);
    encode_utf8_decode_utf8(h);
    multipart::data_survives_untouched(head, p.data);
    reveal_strlit("\r\n\r\n");
    let sep = "\r\n\r\n"@;
    percent::lemma_encode_concat(h, sep);
    assert(is_ascii_chars(sep));
    is_ascii_chars_encode_utf8(sep);
    assert(sep[0] == '\r' && sep[1] == '\n' && sep[2] == '\r' && sep[3] == '\n');
    assert(encode_utf8(sep) =~= multipart::blank_line());
    assert(part_written(p) =~= head + multipart::blank_line() + p.data);
}

// ---------------------------------------------------------------------------
// the body
// ---------------------------------------------------------------------------

/// The parts of a form as a client writes them, each behind a boundary line,
/// with the closing boundary behind the last.
pub open spec fn form_written(b: Seq<char>, parts: Seq<PartModel>) -> Seq<u8>
    decreases parts.len(),
{
    if parts.len() == 0 {
        encode_utf8("--"@ + b + "--"@)
    } else {
        encode_utf8("--"@ + b + "\r\n"@) + part_written(parts[0]) + encode_utf8("\r\n"@)
            + form_written(b, parts.skip(1))
    }
}

/// No line of a part begins with the boundary.
pub open spec fn holds_no_boundary(p: PartModel, b: Seq<char>) -> bool {
    let line = encode_utf8("\r\n--"@ + b);
    let framed = encode_utf8("\r\n"@) + part_written(p) + line;
    forall|i: int|
        0 <= i < part_written(p).len() + 2 ==> #[trigger] framed.subrange(i, i + line.len())
            != line
}

proof fn lemma_line_end()
    ensures
        encode_utf8("\r\n"@) == multipart::crlf(),
        encode_utf8("--"@) == seq![45u8, 45u8],
        "\r\n"@.len() == 2,
        "--"@.len() == 2,
{
    reveal_strlit("\r\n");
    reveal_strlit("--");
    assert(is_ascii_chars("\r\n"@));
    assert(is_ascii_chars("--"@));
    is_ascii_chars_encode_utf8("\r\n"@);
    is_ascii_chars_encode_utf8("--"@);
    assert("\r\n"@[0] == '\r' && "\r\n"@[1] == '\n' && "--"@[0] == '-' && "--"@[1] == '-');
    assert(encode_utf8("\r\n"@) =~= multipart::crlf());
    assert(encode_utf8("--"@) =~= seq![45u8, 45u8]);
}

proof fn lemma_clean(p: PartModel, b: Seq<char>)
    requires
        holds_no_boundary(p, b),
    ensures
        multipart::is_clean(part_written(p), multipart::marker_of(b)),
{
    lemma_line_end();
    reveal_strlit("\r\n--");
    reveal_strlit("\r\n");
    reveal_strlit("--");
    let content = part_written(p);
    let marker = multipart::marker_of(b);
    let line = encode_utf8("\r\n--"@ + b);
    assert("\r\n--"@ + b =~= "\r\n"@ + ("--"@ + b));
    percent::lemma_encode_concat("\r\n"@, "--"@ + b);
    percent::lemma_encode_concat("--"@, b);
    assert(line == multipart::crlf() + marker);
    let framed = multipart::crlf() + content + multipart::crlf() + marker;
    assert(encode_utf8("\r\n"@) + content + line =~= framed);
    assert forall|i: int| 2 <= i < content.len() + 4 implies !#[trigger] multipart::is_delimiter(
        framed,
        marker,
        i,
    ) by {
        if multipart::is_delimiter(framed, marker, i) {
            let here = framed.subrange(i - 2, i - 2 + line.len());
            assert(framed.subrange(i, i + marker.len()) == marker);
            assert(here.skip(2) =~= framed.subrange(i, i + marker.len()));
            assert(here[0] == 13 && here[1] == 10);
            assert(here =~= multipart::crlf() + here.skip(2));
            assert(here == line);
        }
    }
}

proof fn lemma_laid_out(b: Seq<char>, parts: Seq<PartModel>)
    ensures
        form_written(b, parts) == multipart::laid_out(
            multipart::marker_of(b),
            parts.map_values(|p: PartModel| part_written(p)),
        ),
    decreases parts.len(),
{
    lemma_line_end();
    let marker = multipart::marker_of(b);
    let f = |p: PartModel| part_written(p);
    let contents = parts.map_values(f);
    percent::lemma_encode_concat("--"@, b);
    percent::lemma_encode_concat("--"@ + b, "--"@);
    percent::lemma_encode_concat("--"@ + b, "\r\n"@);
    if parts.len() > 0 {
        lemma_laid_out(b, parts.skip(1));
        assert(contents.skip(1) =~= parts.skip(1).map_values(f));
    }
}

/// An upload is read as it was sent: for a request whose content type names a
/// boundary, bare or in quotes, and whose body holds parts laid out with that
/// boundary, exactly those parts come out, in order, whatever follows the
/// closing boundary.
pub proof fn an_upload_reads_back(
    b: Seq<char>,
    in_quotes: bool,
    parts: Seq<PartModel>,
    epilogue: Seq<u8>,
)
    requires
        is_boundary(b),
        in_quotes || stands_bare(b),
        parts.len() <= 256,
        forall|i: int|
            0 <= i < parts.len() ==> can_be_written(#[trigger] parts[i]) && holds_no_boundary(
                parts[i],
                b,
            ),
    ensures
        multipart::extracted(
            Some(content_type_of(b, in_quotes)),
            form_written(b, parts) + epilogue,
        ) == Ok::<Seq<PartModel>, Problem>(parts),
{
    a_boundary_reads_back(b, in_quotes);
    let marker = multipart::marker_of(b);
    let contents = parts.map_values(|p: PartModel| part_written(p));
    lemma_laid_out(b, parts);
    assert forall|i: int| 0 <= i < contents.len() implies multipart::is_clean(
        #[trigger] contents[i],
        marker,
    ) && multipart::part_of(contents[i]) == Ok::<PartModel, Fault>(parts[i]) by {
        assert(can_be_written(parts[i]));
        a_part_reads_back(parts[i]);
        lemma_clean(parts[i], b);
    }
    multipart::parts_come_back_as_sent(b, Seq::empty(), contents, epilogue, parts);
    assert(Seq::<u8>::empty() + multipart::laid_out(marker, contents) + epilogue
        =~= multipart::laid_out(marker, contents) + epilogue);
}

proof fn lemma_without(s: Seq<char>, c: char, from: int)
    requires
        !s.contains(c),
        0 <= from,
    ensures
        text::index_of(s, c, from) is None,
    decreases s.len() - from,
{
    if from < s.len() {
        assert(s.contains(s[from]));
        lemma_without(s, c, from + 1);
    }
}

/// A request without a content type, or with another one, is refused with 415.
pub proof fn another_content_type_is_refused(media_type: Seq<char>, body: Seq<u8>)
    requires
        media_type.len() > 0,
        !media_type.contains(';'),
        !text::is_white(media_type.first()),
        !text::is_white(media_type.last()),
        text::ascii_lower(media_type) != "multipart/form-data"@,
    ensures
        multipart::extracted(None, body) is Err,
        multipart::extracted(None, body)->Err_0.status == 415,
        multipart::extracted(Some(media_type), body) is Err,
        multipart::extracted(Some(media_type), body)->Err_0.status == 415,
        multipart::extracted(Some(media_type), body)->Err_0.detail == Some(
            "expected `multipart/form-data`, got `"@ + media_type + "`"@,
        ),
{
    lemma_without(media_type, ';', 0);
    assert(text::trim(media_type) == media_type);
}

/// A form without a boundary, and one that cannot be parsed, is the client's
/// fault; too many parts are too much.
pub proof fn faults_are_answered_as_what_they_are(fault: Fault, max: usize, body: Seq<u8>)
    ensures
        multipart::extracted(Some("multipart/form-data"@), body) is Err,
        multipart::extracted(Some("multipart/form-data"@), body)->Err_0.status == 400,
        (Fault::TooManyParts { max }).problem().status == 413,
        fault !is NotMultipart && fault !is TooManyParts ==> fault.problem().status == 400
            && fault.problem().title == "Malformed multipart body"@,
        fault.problem().detail == Some(fault.text()),
{
    reveal_strlit("multipart/form-data");
    let s = "multipart/form-data"@;
    assert(!s.contains(';'));
    lemma_without(s, ';', 0);
    assert(text::trim(s) == s);
    assert(text::ascii_lower(s) =~= s);
    let none = Seq::<char>::empty();
    let list = multipart::parameters(none);
    assert(multipart::boundary_in(s) == multipart::declared_boundary(list, 0));
    assert(none.skip(0) =~= none);
    assert(list =~= seq![none]);
    lemma_without(none, '=', 0);
    reveal_with_fuel(multipart::declared_boundary, 3);
}

/// Looking a part up by name finds the first of that name; asking for all of
/// them gives each, in order; the files are the parts with a file name.
pub proof fn parts_are_found_by_name(
    before: Seq<PartModel>,
    part: PartModel,
    after: Seq<PartModel>,
    name: Seq<char>,
)
    ensures
        part.name == name && (forall|i: int|
            0 <= i < before.len() ==> (#[trigger] before[i]).name != name)
            ==> multipart::part_from(before.push(part) + after, name, false, 0) == Some(part),
        (forall|i: int| 0 <= i < before.len() ==> (#[trigger] before[i]).name != name)
            ==> multipart::part_from(before, name, false, 0) is None,
        part.name == name && part.file_name is Some && (forall|i: int|
            0 <= i < before.len() ==> (#[trigger] before[i]).name != name || before[i].file_name
                is None) ==> multipart::part_from(before.push(part) + after, name, true, 0) == Some(
            part,
        ),
        multipart::parts_named(before.push(part), name) == if part.name == name {
            multipart::parts_named(before, name).push(part)
        } else {
            multipart::parts_named(before, name)
        },
        multipart::file_parts(before.push(part)) == if part.file_name is Some {
            multipart::file_parts(before).push(part)
        } else {
            multipart::file_parts(before)
        },
        multipart::parts_named(Seq::empty(), name).len() == 0,
        multipart::file_parts(Seq::empty()).len() == 0,
{
    let all = before.push(part) + after;
    let n = before.len() as int;
    assert(before.push(part).drop_last() =~= before);
    assert(all[n] == part);
    if forall|i: int| 0 <= i < before.len() ==> (#[trigger] before[i]).name != name {
        assert forall|i: int| 0 <= i < n implies (#[trigger] all[i]).name != name by {
            assert(all[i] == before[i]);
        }
        lemma_part_from(all, name, false, 0, n);
        lemma_part_from(before, name, false, 0, n);
    }
    if forall|i: int|
        0 <= i < before.len() ==> (#[trigger] before[i]).name != name || before[i].file_name
            is None {
        assert forall|i: int| 0 <= i < n implies (#[trigger] all[i]).name != name
            || all[i].file_name is None by {
            assert(all[i] == before[i]);
        }
        lemma_part_from(all, name, true, 0, n);
    }
}

proof fn lemma_part_from(parts: Seq<PartModel>, name: Seq<char>, file: bool, from: int, to: int)
    requires
        0 <= from <= to <= parts.len(),
        forall|i: int|
            from <= i < to ==> (#[trigger] parts[i]).name != name || (file && parts[i].file_name
                is None),
    ensures
        multipart::part_from(parts, name, file, from) == multipart::part_from(
            parts,
            name,
            file,
            to,
        ),
    decreases to - from,
{
    if from < to {
        lemma_part_from(parts, name, file, from + 1, to);
    }
}

} // verus!
