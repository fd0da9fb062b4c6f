//! `multipart/form-data` request bodies.
//!
//! Parsing happens over the already-buffered body, so this is a scanner rather
//! than a streaming state machine: no partial-boundary bookkeeping, and the
//! whole thing is straight-line byte comparison. The size ceiling that applies
//! to every body applies here too, so an upload is bounded before a byte of it
//! is examined.

use crate::error::{ApiError, FieldFailure, Problem};
use crate::extract;
use crate::extract::de;
use crate::extract::de::{DeError, Pairs};
use crate::headers;
use crate::openapi::schema;
use crate::openapi::schema::{AdditionalModel, AdditionalProperties, Schema, SchemaModel};
use crate::operation::{ContextModel, OperationContext, OperationInput};
use crate::request::Request;
use crate::text;
use crate::utf8;
use vstd::prelude::*;
use vstd::slice::*;
use vstd::string::*;
use vstd::utf8::*;

verus! {

/// The most parts a single body may contain.
///
/// The body size limit alone does not bound part *count*: a few megabytes of
/// empty parts is millions of allocations. This caps the work regardless.
pub const MAX_PARTS: usize = 256;

// ---------------------------------------------------------------------------
// quoting
// ---------------------------------------------------------------------------

/// The parameters of a header value, read from position `i` with the current
/// one begun at `start`: they are separated by `;`, but not inside quotes.
pub open spec fn parameters_from(
    s: Seq<char>,
    start: int,
    i: int,
    in_quotes: bool,
    escaped: bool,
) -> Seq<Seq<char>>
    decreases s.len() - i,
{
    if i < 0 || i >= s.len() {
        seq![s.skip(start)]
    } else if escaped {
        parameters_from(s, start, i + 1, in_quotes, false)
    } else if s[i] == '\\' && in_quotes {
        parameters_from(s, start, i + 1, in_quotes, true)
    } else if s[i] == '"' {
        parameters_from(s, start, i + 1, !in_quotes, false)
    } else if s[i] == ';' && !in_quotes {
        seq![s.subrange(start, i)] + parameters_from(s, i + 1, i + 1, false, false)
    } else {
        parameters_from(s, start, i + 1, in_quotes, false)
    }
}

/// The parameters of a header value.
pub open spec fn parameters(s: Seq<char>) -> Seq<Seq<char>> {
    parameters_from(s, 0, 0, false, false)
}

proof fn lemma_parameters_join(
    s: Seq<char>,
    start: int,
    i: int,
    in_quotes: bool,
    escaped: bool,
)
    requires
        0 <= start <= i <= s.len(),
    ensures
        parameters_from(s, start, i, in_quotes, escaped).len() > 0,
        text::join(parameters_from(s, start, i, in_quotes, escaped), ";"@) == s.skip(start),
    decreases s.len() - i,
{
    reveal_strlit(";");
    if i < s.len() {
        if escaped {
            lemma_parameters_join(s, start, i + 1, in_quotes, false);
        } else if s[i] == '\\' && in_quotes {
            lemma_parameters_join(s, start, i + 1, in_quotes, true);
        } else if s[i] == '"' {
            lemma_parameters_join(s, start, i + 1, !in_quotes, false);
        } else if s[i] == ';' && !in_quotes {
            lemma_parameters_join(s, i + 1, i + 1, false, false);
            let rest = parameters_from(s, i + 1, i + 1, false, false);
            text::lemma_join_first(s.subrange(start, i), rest, ";"@);
            assert(s.subrange(start, i) + ";"@ + s.skip(i + 1) =~= s.skip(start));
        } else {
            lemma_parameters_join(s, start, i + 1, in_quotes, false);
        }
    } else {
        assert(parameters_from(s, start, i, in_quotes, escaped) =~= seq![s.skip(start)]);
    }
}

/// Splitting a header value into parameters loses nothing: joined with `;` they
/// are the value again.
pub proof fn parameters_make_up_the_value(s: Seq<char>)
    ensures
        parameters(s).len() > 0,
        text::join(parameters(s), ";"@) == s,
{
    lemma_parameters_join(s, 0, 0, false, false);
    assert(s.skip(0) =~= s);
}

/// A text with the character behind each `\` taken as it is.
pub open spec fn unescaped(s: Seq<char>) -> Seq<char>
    decreases s.len(),
{
    if s.len() == 0 {
        Seq::empty()
    } else if s[0] != '\\' {
        seq![s[0]] + unescaped(s.skip(1))
    } else if s.len() == 1 {
        Seq::empty()
    } else {
        seq![s[1]] + unescaped(s.skip(2))
    }
}

/// Whether a text stands in double quotes.
pub open spec fn is_quoted(s: Seq<char>) -> bool {
    s.len() >= 2 && s[0] == '"' && s.last() == '"'
}

/// What stands between the quotes of a quoted text; any other stays.
pub open spec fn between_quotes(s: Seq<char>) -> Seq<char> {
    if is_quoted(s) {
        s.subrange(1, s.len() - 1)
    } else {
        s
    }
}

/// A value without its quotes, and with what is inside them unescaped.
pub open spec fn unquoted(s: Seq<char>) -> Seq<char> {
    if is_quoted(s) {
        unescaped(s.subrange(1, s.len() - 1))
    } else {
        s
    }
}

/// Splits header parameters on `;`, ignoring separators inside quotes.
///
/// A filename may legitimately contain a semicolon, and a naive split would
/// truncate it.
pub fn split_parameters(value: &str) -> (out: Vec<String>)
    ensures
        text::views(out@) == parameters(value@),
{
    let v = text::chars(value);
    let n: usize = v.len();
    let mut out: Vec<String> = Vec::new();
    let mut start: usize = 0;
    let mut in_quotes = false;
    let mut escaped = false;
    assert(text::views(out@) + parameters(value@) =~= parameters(value@));
    for i in 0..n
        invariant
            v@ == value@,
            n == v@.len(),
            start <= i,
            text::views(out@) + parameters_from(value@, start as int, i as int, in_quotes, escaped)
                == parameters(value@),
    {
        let ch = v[i];
        if escaped {
            escaped = false;
        } else if ch == '\\' && in_quotes {
            escaped = true;
        } else if ch == '"' {
            in_quotes = !in_quotes;
        } else if ch == ';' && !in_quotes {
            let part = text::text_of(&v, start, i);
            let ghost before = text::views(out@);
            let ghost rest = parameters_from(value@, i + 1, i + 1, false, false);
            proof {
                text::lemma_views_push(out@, part);
                assert(before + (seq![part@] + rest) =~= before.push(part@) + rest);
            }
            out.push(part);
            start = i + 1;
        }
    }
    let last = text::text_of(&v, start, n);
    assert(value@.subrange(start as int, n as int) =~= value@.skip(start as int));
    let ghost before = text::views(out@);
    proof {
        text::lemma_views_push(out@, last);
        assert(before + seq![last@] =~= before.push(last@));
    }
    out.push(last);
    out
}

/// Takes the character behind each `\` as it is.
fn unescape(v: &Vec<char>, from: usize, to: usize) -> (out: String)
    requires
        from <= to <= v@.len(),
    ensures
        out@ == unescaped(v@.subrange(from as int, to as int)),
{
    let ghost inner = v@.subrange(from as int, to as int);
    let mut out = String::new();
    let mut i: usize = from;
    assert(inner.skip(0) =~= inner);
    assert(out@ + unescaped(inner) =~= unescaped(inner));
    while i < to
        invariant
            from <= i <= to <= v@.len(),
            inner == v@.subrange(from as int, to as int),
            out@ + unescaped(inner.skip(i - from)) == unescaped(inner),
        decreases to - i,
    {
        let ghost rest = inner.skip(i - from);
        let ghost before = out@;
        if v[i] != '\\' {
            assert(rest.skip(1) =~= inner.skip(i + 1 - from));
            out.push(v[i]);
            assert(before + (seq![rest[0]] + unescaped(rest.skip(1))) =~= out@ + unescaped(
                rest.skip(1),
            ));
            i += 1;
        } else if i + 1 == to {
            assert(inner.skip(to - from) =~= Seq::<char>::empty());
            assert(rest.len() == 1);
            i += 1;
        } else {
            assert(rest.skip(2) =~= inner.skip(i + 2 - from));
            out.push(v[i + 1]);
            assert(before + (seq![rest[1]] + unescaped(rest.skip(2))) =~= out@ + unescaped(
                rest.skip(2),
            ));
            i += 2;
        }
    }
    assert(inner.skip(to - from) =~= Seq::<char>::empty());
    assert(out@ + Seq::<char>::empty() =~= out@);
    out
}

/// Strips surrounding quotes and unescapes what is inside them.
pub fn unquote(value: &str) -> (out: String)
    ensures
        out@ == unquoted(value@),
{
    let v = text::chars(value);
    let n: usize = v.len();
    if n >= 2 && v[0] == '"' && v[n - 1] == '"' {
        unescape(&v, 1, n - 1)
    } else {
        value.to_owned()
    }
}

/// Strips surrounding quotes.
pub fn strip_quotes(value: &str) -> (out: String)
    ensures
        out@ == between_quotes(value@),
{
    let v = text::chars(value);
    let n: usize = v.len();
    if n >= 2 && v[0] == '"' && v[n - 1] == '"' {
        text::text_of(&v, 1, n - 1)
    } else {
        value.to_owned()
    }
}

// ---------------------------------------------------------------------------
// the boundary
// ---------------------------------------------------------------------------

/// Why a multipart body could not be read.
pub enum MultipartError {
    /// The `Content-Type` was not `multipart/form-data`.
    NotMultipart(String),
    /// No `boundary` parameter, or an unusable one.
    MissingBoundary,
    /// The boundary is not a legal one.
    InvalidBoundary(String),
    /// The opening boundary never appeared.
    NoOpeningBoundary,
    /// The body ended before the closing boundary.
    Truncated,
    /// A part had no headers, or they were not terminated.
    MalformedPart,
    /// A part had no `name` in its `Content-Disposition`.
    UnnamedPart,
    /// More than [`MAX_PARTS`] parts.
    TooManyParts { max: usize },
}

/// Why a multipart body could not be read, as a value.
pub enum Fault {
    NotMultipart(Seq<char>),
    MissingBoundary,
    InvalidBoundary(Seq<char>),
    NoOpeningBoundary,
    Truncated,
    MalformedPart,
    UnnamedPart,
    TooManyParts { max: usize },
}

impl View for MultipartError {
    type V = Fault;

    open spec fn view(&self) -> Fault {
        match self {
            MultipartError::NotMultipart(got) => Fault::NotMultipart(got@),
            MultipartError::MissingBoundary => Fault::MissingBoundary,
            MultipartError::InvalidBoundary(b) => Fault::InvalidBoundary(b@),
            MultipartError::NoOpeningBoundary => Fault::NoOpeningBoundary,
            MultipartError::Truncated => Fault::Truncated,
            MultipartError::MalformedPart => Fault::MalformedPart,
            MultipartError::UnnamedPart => Fault::UnnamedPart,
            MultipartError::TooManyParts { max } => Fault::TooManyParts { max: *max },
        }
    }
}

/// The boundary that parameters declare, from the `i`-th on: the first
/// `boundary` decides.
pub open spec fn declared_boundary(list: Seq<Seq<char>>, i: int) -> Result<Seq<char>, Fault>
    decreases list.len() - i,
{
    if i < 0 || i >= list.len() {
        Err(Fault::MissingBoundary)
    } else {
        match text::split_once(list[i], '=') {
            None => declared_boundary(list, i + 1),
            Some((key, value)) => if text::ascii_lower(text::trim(key)) == "boundary"@ {
                let boundary = between_quotes(text::trim(value));
                let size = encode_utf8(boundary).len();
                if size == 0 || size > 70 {
                    Err(Fault::InvalidBoundary(boundary))
                } else {
                    Ok(boundary)
                }
            } else {
                declared_boundary(list, i + 1)
            },
        }
    }
}

/// The boundary in a content type.
pub open spec fn boundary_in(content_type: Seq<char>) -> Result<Seq<char>, Fault> {
    let (media_type, rest) = match text::split_once(content_type, ';') {
        Some((media, rest)) => (text::trim(media), rest),
        None => (text::trim(content_type), Seq::<char>::empty()),
    };
    if text::ascii_lower(media_type) != "multipart/form-data"@ {
        Err(Fault::NotMultipart(media_type))
    } else {
        declared_boundary(parameters(rest), 0)
    }
}

/// Pulls the `boundary` out of a `multipart/form-data` content type.
pub fn boundary_of(content_type: &str) -> (r: Result<String, MultipartError>)
    ensures
        match r {
            Ok(b) => boundary_in(content_type@) == Ok::<Seq<char>, Fault>(b@),
            Err(e) => boundary_in(content_type@) == Err::<Seq<char>, Fault>(e@),
        },
{
    proof {
        lemma_lower_words();
    }
    let (media_type, rest) = match text::cut(content_type, ';') {
        Some((media, rest)) => (text::trim_text(media.as_str()), rest),
        None => (text::trim_text(content_type), String::new()),
    };
    if !text::same_ignoring_case(media_type.as_str(), "multipart/form-data") {
        return Err(MultipartError::NotMultipart(media_type));
    }
    // Quote-aware, because a boundary containing `;` must be quoted and a
    // plain split would cut it in half.
    let list = split_parameters(rest.as_str());
    let ghost model = parameters(rest@);
    for i in 0..list.len()
        invariant
            model == text::views(list@),
            boundary_in(content_type@) == declared_boundary(model, 0),
            declared_boundary(model, 0) == declared_boundary(model, i as int),
    {
        assert(model[i as int] == list@[i as int]@);
        proof {
            lemma_lower_words();
        }
        if let Some((key, value)) = text::cut(list[i].as_str(), '=') {
            let key = text::trim_text(key.as_str());
            if text::same_ignoring_case(key.as_str(), "boundary") {
                // A boundary containing a `;` or spaces must be quoted, and
                // browsers quote it even when they need not.
                let boundary = strip_quotes(text::trim_text(value.as_str()).as_str());
                let size: usize = boundary.as_str().as_bytes().len();
                // RFC 2046 caps a boundary at 70 characters. Anything longer is
                // either a mistake or an attempt to make scanning expensive.
                if size == 0 || size > 70 {
                    return Err(MultipartError::InvalidBoundary(boundary));
                }
                return Ok(boundary);
            }
        }
    }
    Err(MultipartError::MissingBoundary)
}

/// The words that are compared without regard to case are in small letters.
proof fn lemma_lower_words()
    ensures
        text::ascii_lower("multipart/form-data"@) == "multipart/form-data"@,
        text::ascii_lower("boundary"@) == "boundary"@,
        text::ascii_lower("content-disposition"@) == "content-disposition"@,
        text::ascii_lower("content-type"@) == "content-type"@,
        text::ascii_lower("name"@) == "name"@,
        text::ascii_lower("filename"@) == "filename"@,
{
    reveal_strlit("multipart/form-data");
    reveal_strlit("boundary");
    reveal_strlit("content-disposition");
    reveal_strlit("content-type");
    reveal_strlit("name");
    reveal_strlit("filename");
    assert(text::ascii_lower("multipart/form-data"@) =~= "multipart/form-data"@);
    assert(text::ascii_lower("boundary"@) =~= "boundary"@);
    assert(text::ascii_lower("content-disposition"@) =~= "content-disposition"@);
    assert(text::ascii_lower("content-type"@) =~= "content-type"@);
    assert(text::ascii_lower("name"@) =~= "name"@);
    assert(text::ascii_lower("filename"@) =~= "filename"@);
}

// ---------------------------------------------------------------------------
// one part
// ---------------------------------------------------------------------------

/// The text of bytes, if they are valid UTF-8.
pub open spec fn text_in(bytes: Seq<u8>) -> Option<Seq<char>> {
    if valid_utf8(bytes) {
        Some(decode_utf8(bytes))
    } else {
        None
    }
}

/// Whether `needle` stands at position `i`.
pub open spec fn stands_at(bytes: Seq<u8>, needle: Seq<u8>, i: int) -> bool {
    0 <= i && i + needle.len() <= bytes.len() && bytes.subrange(i, i + needle.len()) == needle
}

/// The first position at or after `from` where `needle` stands.
pub open spec fn found(bytes: Seq<u8>, needle: Seq<u8>, from: int) -> Option<int>
    decreases bytes.len() - from,
{
    if from < 0 || from >= bytes.len() {
        None
    } else if stands_at(bytes, needle, from) {
        Some(from)
    } else {
        found(bytes, needle, from + 1)
    }
}

/// The bytes that end a line.
pub open spec fn crlf() -> Seq<u8> {
    seq![13u8, 10u8]
}

/// The bytes that end the headers of a part.
pub open spec fn blank_line() -> Seq<u8> {
    seq![13u8, 10u8, 13u8, 10u8]
}

/// Whether `needle` stands at position `i`.
fn at(bytes: &Vec<u8>, needle: &Vec<u8>, i: usize) -> (r: bool)
    requires
        i <= bytes@.len(),
    ensures
        r == stands_at(bytes@, needle@, i as int),
{
    let n: usize = needle.len();
    let size: usize = bytes.len();
    if size - i < n {
        return false;
    }
    for k in 0..n
        invariant
            n == needle@.len(),
            size == bytes@.len(),
            i + n <= size,
            forall|j: int| 0 <= j < k ==> bytes@[i + j] == needle@[j],
    {
        if bytes[i + k] != needle[k] {
            assert(bytes@.subrange(i as int, i + n)[k as int] != needle@[k as int]);
            return false;
        }
    }
    assert(bytes@.subrange(i as int, i + n) =~= needle@);
    true
}

/// Finds `needle` in `bytes` starting at `from`.
fn find(bytes: &Vec<u8>, needle: &Vec<u8>, from: usize) -> (out: Option<usize>)
    ensures
        match out {
            Some(i) => from <= i < bytes@.len() && stands_at(bytes@, needle@, i as int) && found(
                bytes@,
                needle@,
                from as int,
            ) == Some(i as int),
            None => found(bytes@, needle@, from as int) is None,
        },
{
    let mut i: usize = from;
    while i < bytes.len()
        invariant
            from <= i,
            found(bytes@, needle@, from as int) == found(bytes@, needle@, i as int),
        decreases bytes@.len() - i,
    {
        if at(bytes, needle, i) {
            return Some(i);
        }
        i += 1;
    }
    None
}

/// The lines of a text from position `from` on, the current one begun at
/// `start`.
pub open spec fn lines_from(s: Seq<char>, start: int, from: int) -> Seq<Seq<char>>
    decreases s.len() - from,
{
    if from < 0 || from >= s.len() {
        seq![s.skip(start)]
    } else if s[from] == '\r' && from + 1 < s.len() && s[from + 1] == '\n' {
        seq![s.subrange(start, from)] + lines_from(s, from + 2, from + 2)
    } else {
        lines_from(s, start, from + 1)
    }
}

/// The lines of a text, each ended by `\r\n` but the last.
pub open spec fn lines(s: Seq<char>) -> Seq<Seq<char>> {
    lines_from(s, 0, 0)
}

/// What the headers of a part say.
#[verifier::ext_equal]
pub struct PartHead {
    pub name: Option<Seq<char>>,
    pub file_name: Option<Seq<char>>,
    pub content_type: Option<Seq<char>>,
}

/// What is known after one more parameter of the content disposition.
pub open spec fn parameter_read(head: PartHead, parameter: Seq<char>) -> PartHead {
    match text::split_once(parameter, '=') {
        None => head,
        Some((key, value)) => {
            let key = text::ascii_lower(text::trim(key));
            let value = unquoted(text::trim(value));
            if key == "name"@ {
                PartHead { name: Some(value), ..head }
            } else if key == "filename"@ {
                PartHead { file_name: Some(value), ..head }
            } else {
                head
            }
        },
    }
}

pub open spec fn parameters_read(head: PartHead, list: Seq<Seq<char>>) -> PartHead
    decreases list.len(),
{
    if list.len() == 0 {
        head
    } else {
        parameter_read(parameters_read(head, list.drop_last()), list.last())
    }
}

/// What is known after one more header line.
pub open spec fn line_read(head: PartHead, line: Seq<char>) -> PartHead {
    match text::split_once(line, ':') {
        None => head,
        Some((key, value)) => {
            let key = text::ascii_lower(text::trim(key));
            if key == "content-disposition"@ {
                parameters_read(head, parameters(value))
            } else if key == "content-type"@ {
                PartHead { content_type: Some(text::trim(value)), ..head }
            } else {
                head
            }
        },
    }
}

pub open spec fn lines_read(list: Seq<Seq<char>>) -> PartHead
    decreases list.len(),
{
    if list.len() == 0 {
        PartHead { name: None, file_name: None, content_type: None }
    } else {
        line_read(lines_read(list.drop_last()), list.last())
    }
}

/// One part of a multipart body.
pub struct Part {
    name: String,
    file_name: Option<String>,
    content_type: Option<String>,
    data: Vec<u8>,
}

/// A part, as a value.
#[verifier::ext_equal]
pub struct PartModel {
    pub name: Seq<char>,
    pub file_name: Option<Seq<char>>,
    pub content_type: Option<Seq<char>>,
    pub data: Seq<u8>,
}

impl View for Part {
    type V = PartModel;

    closed spec fn view(&self) -> PartModel {
        PartModel {
            name: self.name@,
            file_name: text::opt(self.file_name),
            content_type: text::opt(self.content_type),
            data: self.data@,
        }
    }
}

/// What the bytes between two boundaries are: headers, a blank line, and the
/// data, which is everything after it.
pub open spec fn part_of(raw: Seq<u8>) -> Result<PartModel, Fault> {
    match found(raw, blank_line(), 0) {
        None => Err(Fault::MalformedPart),
        Some(split) => match text_in(raw.take(split)) {
            None => Err(Fault::MalformedPart),
            Some(headers) => {
                let head = lines_read(lines(headers));
                match head.name {
                    None => Err(Fault::UnnamedPart),
                    Some(name) => Ok(
                        PartModel {
                            name,
                            file_name: head.file_name,
                            content_type: head.content_type,
                            data: raw.skip(split + 4),
                        },
                    ),
                }
            },
        },
    }
}

struct Head {
    name: Option<String>,
    file_name: Option<String>,
    content_type: Option<String>,
}

impl View for Head {
    type V = PartHead;

    closed spec fn view(&self) -> PartHead {
        PartHead {
            name: text::opt(self.name),
            file_name: text::opt(self.file_name),
            content_type: text::opt(self.content_type),
        }
    }
}

fn split_lines(s: &str) -> (out: Vec<String>)
    ensures
        text::views(out@) == lines(s@),
{
    let v = text::chars(s);
    let n: usize = v.len();
    let mut out: Vec<String> = Vec::new();
    let mut start: usize = 0;
    let mut i: usize = 0;
    assert(text::views(out@) + lines(s@) =~= lines(s@));
    while i < n
        invariant
            v@ == s@,
            n == v@.len(),
            start <= i <= n,
            text::views(out@) + lines_from(s@, start as int, i as int) == lines(s@),
        decreases n - i,
    {
        if v[i] == '\r' && n - i > 1 && v[i + 1] == '\n' {
            let line = text::text_of(&v, start, i);
            let ghost before = text::views(out@);
            let ghost rest = lines_from(s@, i + 2, i + 2);
            proof {
                text::lemma_views_push(out@, line);
                assert(before + (seq![line@] + rest) =~= before.push(line@) + rest);
            }
            out.push(line);
            start = i + 2;
            i += 2;
        } else {
            i += 1;
        }
    }
    let last = text::text_of(&v, start, n);
    assert(s@.subrange(start as int, n as int) =~= s@.skip(start as int));
    let ghost before = text::views(out@);
    proof {
        text::lemma_views_push(out@, last);
        assert(before + seq![last@] =~= before.push(last@));
    }
    out.push(last);
    out
}

fn read_parameter(head: Head, parameter: &str) -> (out: Head)
    ensures
        out@ == parameter_read(head@, parameter@),
{
    proof {
        lemma_lower_words();
    }
    let mut head = head;
    if let Some((key, value)) = text::cut(parameter, '=') {
        let key = text::trim_text(key.as_str());
        let value = unquote(text::trim_text(value.as_str()).as_str());
        if text::same_ignoring_case(key.as_str(), "name") {
            head.name = Some(value);
        } else if text::same_ignoring_case(key.as_str(), "filename") {
            head.file_name = Some(value);
        }
    }
    head
}

fn read_line(head: Head, line: &str) -> (out: Head)
    ensures
        out@ == line_read(head@, line@),
{
    proof {
        lemma_lower_words();
    }
    let ghost start = head@;
    let mut head = head;
    if let Some((key, value)) = text::cut(line, ':') {
        let key = text::trim_text(key.as_str());
        if text::same_ignoring_case(key.as_str(), "content-disposition") {
            let list = split_parameters(value.as_str());
            let ghost model = parameters(value@);
            assert(model.take(0) =~= Seq::<Seq<char>>::empty());
            for i in 0..list.len()
                invariant
                    model == text::views(list@),
                    head@ == parameters_read(start, model.take(i as int)),
            {
                assert(model.take(i + 1).drop_last() =~= model.take(i as int));
                assert(model[i as int] == list@[i as int]@);
                head = read_parameter(head, list[i].as_str());
            }
            assert(model.take(model.len() as int) =~= model);
        } else if text::same_ignoring_case(key.as_str(), "content-type") {
            head.content_type = Some(text::trim_text(value.as_str()));
        }
    }
    head
}

/// Reads the bytes between two boundaries.
pub fn parse_part(raw: &Vec<u8>) -> (r: Result<Part, MultipartError>)
    ensures
        match r {
            Ok(p) => part_of(raw@) == Ok::<PartModel, Fault>(p@),
            Err(e) => part_of(raw@) == Err::<PartModel, Fault>(e@),
        },
{
    let mut ending: Vec<u8> = Vec::new();
    ending.push(13);
    ending.push(10);
    ending.push(13);
    ending.push(10);
    assert(ending@ =~= blank_line());
    let split: usize = match find(raw, &ending, 0) {
        Some(i) => i,
        None => return Err(MultipartError::MalformedPart),
    };
    assert(split + 4 <= raw@.len());
    let n: usize = raw.len();
    let front = slice_subrange(raw.as_slice(), 0, split);
    assert(front@ =~= raw@.take(split as int));
    let headers = match utf8::from_utf8(front) {
        Ok(s) => s,
        Err(_) => return Err(MultipartError::MalformedPart),
    };
    let data = slice_to_vec(slice_subrange(raw.as_slice(), split + 4, n));
    assert(data@ =~= raw@.skip(split + 4));
    let list = split_lines(headers);
    let ghost model = lines(headers@);
    let mut head = Head { name: None, file_name: None, content_type: None };
    assert(model.take(0) =~= Seq::<Seq<char>>::empty());
    for i in 0..list.len()
        invariant
            model == text::views(list@),
            head@ == lines_read(model.take(i as int)),
    {
        assert(model.take(i + 1).drop_last() =~= model.take(i as int));
        assert(model[i as int] == list@[i as int]@);
        head = read_line(head, list[i].as_str());
    }
    assert(model.take(model.len() as int) =~= model);
    match head.name {
        Some(name) => Ok(
            Part { name, file_name: head.file_name, content_type: head.content_type, data },
        ),
        None => Err(MultipartError::UnnamedPart),
    }
}

// ---------------------------------------------------------------------------
// the body
// ---------------------------------------------------------------------------

/// The bytes of a boundary line, up to what follows the boundary.
pub open spec fn marker_of(boundary: Seq<char>) -> Seq<u8> {
    seq![45u8, 45u8] + encode_utf8(boundary)
}

/// Whether a boundary stands at `i`: the marker, either at the very start or
/// after a line ending.
pub open spec fn is_delimiter(body: Seq<u8>, marker: Seq<u8>, i: int) -> bool {
    &&& stands_at(body, marker, i)
    &&& i == 0 || (i >= 2 && body[i - 2] == 13 && body[i - 1] == 10)
}

/// The first boundary at or after `from`.
pub open spec fn delimiter_from(body: Seq<u8>, marker: Seq<u8>, from: int) -> Option<int>
    decreases body.len() - from,
{
    if from < 0 || from >= body.len() {
        None
    } else if is_delimiter(body, marker, from) {
        Some(from)
    } else {
        delimiter_from(body, marker, from + 1)
    }
}

/// The first position at or after `i` that holds no space or tab.
pub open spec fn past_padding(body: Seq<u8>, i: int) -> int
    decreases body.len() - i,
{
    if 0 <= i < body.len() && (body[i] == 32 || body[i] == 9) {
        past_padding(body, i + 1)
    } else {
        i
    }
}

pub proof fn lemma_past_padding(body: Seq<u8>, i: int)
    ensures
        i <= past_padding(body, i),
        i <= body.len() ==> past_padding(body, i) <= body.len(),
    decreases body.len() - i,
{
    if 0 <= i < body.len() && (body[i] == 32 || body[i] == 9) {
        lemma_past_padding(body, i + 1);
    }
}

pub proof fn lemma_delimiter_from(body: Seq<u8>, marker: Seq<u8>, from: int)
    requires
        0 <= from,
    ensures
        match delimiter_from(body, marker, from) {
            Some(i) => {
                &&& from <= i < body.len()
                &&& is_delimiter(body, marker, i)
                &&& forall|j: int| from <= j < i ==> !#[trigger] is_delimiter(body, marker, j)
            },
            None => forall|j: int|
                from <= j < body.len() ==> !#[trigger] is_delimiter(body, marker, j),
        },
    decreases body.len() - from,
{
    if from < body.len() && !is_delimiter(body, marker, from) {
        lemma_delimiter_from(body, marker, from + 1);
    }
}

/// The parts from the boundary at `cursor` on, after `parts` have been read.
pub open spec fn sections(
    body: Seq<u8>,
    marker: Seq<u8>,
    cursor: int,
    parts: Seq<PartModel>,
) -> Result<Seq<PartModel>, Fault>
    decreases body.len() - cursor,
{
    let behind = cursor + marker.len();
    if cursor < 0 {
        Err(Fault::Truncated)
    } else if stands_at(body, seq![45u8, 45u8], behind) {
        // This was the closing boundary; the epilogue after it is ignored.
        Ok(parts)
    } else {
        // Whitespace is permitted between the boundary and the line ending.
        let padded = past_padding(body, behind);
        if !stands_at(body, crlf(), padded) {
            Err(Fault::Truncated)
        } else {
            let start = padded + 2;
            match delimiter_from(body, marker, start) {
                None => Err(Fault::Truncated),
                Some(next) => {
                    proof {
                        lemma_past_padding(body, behind);
                        lemma_delimiter_from(body, marker, start);
                    }
                    if parts.len() >= MAX_PARTS {
                        Err(Fault::TooManyParts { max: MAX_PARTS })
                    } else if next < start + 2 {
                        // Two boundaries on consecutive lines leave no room for
                        // a part.
                        Err(Fault::MalformedPart)
                    } else {
                        // The line ending before the next boundary belongs to
                        // the boundary, not to the part.
                        match part_of(body.subrange(start, next - 2)) {
                            Err(e) => Err(e),
                            Ok(part) => sections(body, marker, next, parts.push(part)),
                        }
                    }
                },
            }
        }
    }
}

/// The parts of a body.
pub open spec fn parsed(body: Seq<u8>, boundary: Seq<char>) -> Result<Seq<PartModel>, Fault> {
    let marker = marker_of(boundary);
    match delimiter_from(body, marker, 0) {
        None => Err(Fault::NoOpeningBoundary),
        Some(cursor) => sections(body, marker, cursor, Seq::empty()),
    }
}

/// Finds the next real delimiter: an occurrence of the boundary marker that is
/// either at the very start of the body or preceded by CRLF.
///
/// The marker can legitimately appear *inside* a part, so every match has to be
/// checked, and a failed check has to keep looking rather than conclude the
/// body ended.
fn find_delimiter(body: &Vec<u8>, marker: &Vec<u8>, from: usize) -> (out: Option<usize>)
    ensures
        match out {
            Some(i) => from <= i < body@.len() && is_delimiter(body@, marker@, i as int)
                && delimiter_from(body@, marker@, from as int) == Some(i as int),
            None => delimiter_from(body@, marker@, from as int) is None,
        },
{
    let mut i: usize = from;
    while i < body.len()
        invariant
            from <= i,
            delimiter_from(body@, marker@, from as int) == delimiter_from(
                body@,
                marker@,
                i as int,
            ),
        decreases body@.len() - i,
    {
        if at(body, marker, i) && (i == 0 || (i >= 2 && body[i - 2] == 13 && body[i - 1] == 10)) {
            return Some(i);
        }
        i += 1;
    }
    None
}

fn skip_padding(body: &Vec<u8>, from: usize) -> (out: usize)
    requires
        from <= body@.len(),
    ensures
        from <= out <= body@.len(),
        out == past_padding(body@, from as int),
{
    let mut i: usize = from;
    while i < body.len() && (body[i] == 32 || body[i] == 9)
        invariant
            from <= i <= body@.len(),
            past_padding(body@, from as int) == past_padding(body@, i as int),
        decreases body@.len() - i,
    {
        i += 1;
    }
    i
}

/// A parsed `multipart/form-data` body.
pub struct Multipart {
    parts: Vec<Part>,
}

/// The parts of a list.
pub open spec fn part_models(list: Seq<Part>) -> Seq<PartModel> {
    list.map_values(|p: Part| p@)
}

impl View for Multipart {
    type V = Seq<PartModel>;

    closed spec fn view(&self) -> Seq<PartModel> {
        part_models(self.parts@)
    }
}

/// Parses a body against a boundary.
fn parse(body: &Vec<u8>, boundary: &str) -> (r: Result<Multipart, MultipartError>)
    ensures
        match r {
            Ok(form) => parsed(body@, boundary@) == Ok::<Seq<PartModel>, Fault>(form@),
            Err(e) => parsed(body@, boundary@) == Err::<Seq<PartModel>, Fault>(e@),
        },
{
    let mut dashes: Vec<u8> = Vec::new();
    dashes.push(45);
    dashes.push(45);
    assert(dashes@ =~= seq![45u8, 45u8]);
    let mut ending: Vec<u8> = Vec::new();
    ending.push(13);
    ending.push(10);
    assert(ending@ =~= crlf());
    let mut marker: Vec<u8> = Vec::new();
    marker.push(45);
    marker.push(45);
    let mut tail = boundary.as_bytes_vec();
    marker.append(&mut tail);
    assert(marker@ =~= marker_of(boundary@));
    // The opening boundary is either at the very start or preceded by CRLF.
    // Anything before it is the preamble, which RFC 2046 says to ignore.
    let mut cursor: usize = match find_delimiter(body, &marker, 0) {
        Some(i) => i,
        None => return Err(MultipartError::NoOpeningBoundary),
    };
    let mut parts: Vec<Part> = Vec::new();
    assert(part_models(parts@) =~= Seq::<PartModel>::empty());
    let size: usize = body.len();
    loop
        invariant
            size == body@.len(),
            dashes@ == seq![45u8, 45u8],
            ending@ == crlf(),
            marker@ == marker_of(boundary@),
            stands_at(body@, marker@, cursor as int),
            parsed(body@, boundary@) == sections(
                body@,
                marker@,
                cursor as int,
                part_models(parts@),
            ),
        decreases body@.len() - cursor,
    {
        let behind: usize = cursor + marker.len();
        if at(body, &dashes, behind) {
            return Ok(Multipart { parts });
        }
        let padded: usize = skip_padding(body, behind);
        if !at(body, &ending, padded) {
            return Err(MultipartError::Truncated);
        }
        let start: usize = padded + 2;
        let next: usize = match find_delimiter(body, &marker, start) {
            Some(i) => i,
            None => return Err(MultipartError::Truncated),
        };
        if parts.len() >= MAX_PARTS {
            return Err(MultipartError::TooManyParts { max: MAX_PARTS });
        }
        if next - start < 2 {
            return Err(MultipartError::MalformedPart);
        }
        let raw = slice_to_vec(slice_subrange(body.as_slice(), start, next - 2));
        match parse_part(&raw) {
            Ok(part) => {
                assert(part_models(parts@.push(part)) =~= part_models(parts@).push(part@));
                parts.push(part);
            },
            Err(e) => return Err(e),
        }
        cursor = next;
    }
}

impl Multipart {
    /// Parses a body against a boundary. For callers doing their own
    /// content-type handling.
    pub fn parse(body: &Vec<u8>, boundary: &str) -> (r: Result<Multipart, MultipartError>)
        ensures
            match r {
                Ok(form) => parsed(body@, boundary@) == Ok::<Seq<PartModel>, Fault>(form@),
                Err(e) => parsed(body@, boundary@) == Err::<Seq<PartModel>, Fault>(e@),
            },
    {
        parse(body, boundary)
    }
}

// ---------------------------------------------------------------------------
// reading parts
// ---------------------------------------------------------------------------

impl Part {
    /// The `name` from the part's `Content-Disposition`.
    pub fn name(&self) -> (name: &str)
        ensures
            name@ == self@.name,
    {
        self.name.as_str()
    }

    /// The `filename`, when the part came from a file input.
    pub fn file_name(&self) -> (name: Option<&str>)
        ensures
            match name {
                Some(s) => self@.file_name == Some(s@),
                None => self@.file_name is None,
            },
    {
        match &self.file_name {
            Some(s) => Some(s.as_str()),
            None => None,
        }
    }

    /// The part's own `Content-Type`, if it declared one.
    pub fn content_type(&self) -> (content_type: Option<&str>)
        ensures
            match content_type {
                Some(s) => self@.content_type == Some(s@),
                None => self@.content_type is None,
            },
    {
        match &self.content_type {
            Some(s) => Some(s.as_str()),
            None => None,
        }
    }

    /// The raw bytes.
    pub fn bytes(&self) -> (bytes: &Vec<u8>)
        ensures
            bytes@ == self@.data,
    {
        &self.data
    }

    /// Takes the bytes.
    pub fn into_bytes(self) -> (bytes: Vec<u8>)
        ensures
            bytes@ == self@.data,
    {
        self.data
    }

    pub fn len(&self) -> (n: usize)
        ensures
            n == self@.data.len(),
    {
        self.data.len()
    }

    pub fn is_empty(&self) -> (r: bool)
        ensures
            r == (self@.data.len() == 0),
    {
        self.data.len() == 0
    }

    /// The bytes as text, if they are valid UTF-8.
    pub fn text(&self) -> (out: Option<&str>)
        ensures
            match out {
                Some(s) => text_in(self@.data) == Some(s@),
                None => text_in(self@.data) is None,
            },
    {
        match utf8::from_utf8(self.data.as_slice()) {
            Ok(s) => Some(s),
            Err(_) => None,
        }
    }

    /// True when the part carried a filename, which is how a browser marks a
    /// file input as distinct from a text field.
    pub fn is_file(&self) -> (r: bool)
        ensures
            r == self@.file_name is Some,
    {
        self.file_name.is_some()
    }
}

/// The first part of this name at or after `from`; among files only, where
/// `file` says so.
pub open spec fn part_from(
    parts: Seq<PartModel>,
    name: Seq<char>,
    file: bool,
    from: int,
) -> Option<PartModel>
    decreases parts.len() - from,
{
    if from < 0 || from >= parts.len() {
        None
    } else if parts[from].name == name && (!file || parts[from].file_name is Some) {
        Some(parts[from])
    } else {
        part_from(parts, name, file, from + 1)
    }
}

/// The parts of this name, in order.
pub open spec fn parts_named(parts: Seq<PartModel>, name: Seq<char>) -> Seq<PartModel>
    decreases parts.len(),
{
    if parts.len() == 0 {
        Seq::empty()
    } else if parts.last().name == name {
        parts_named(parts.drop_last(), name).push(parts.last())
    } else {
        parts_named(parts.drop_last(), name)
    }
}

/// The file parts, in order.
pub open spec fn file_parts(parts: Seq<PartModel>) -> Seq<PartModel>
    decreases parts.len(),
{
    if parts.len() == 0 {
        Seq::empty()
    } else if parts.last().file_name is Some {
        file_parts(parts.drop_last()).push(parts.last())
    } else {
        file_parts(parts.drop_last())
    }
}

/// The names and texts of the parts that are text fields.
pub open spec fn text_fields(parts: Seq<PartModel>) -> Seq<(Seq<char>, Seq<char>)>
    decreases parts.len(),
{
    if parts.len() == 0 {
        Seq::empty()
    } else {
        let before = text_fields(parts.drop_last());
        let part = parts.last();
        if part.file_name is None && text_in(part.data) is Some {
            before.push((part.name, text_in(part.data)->0))
        } else {
            before
        }
    }
}

/// Parts that are borrowed.
pub open spec fn borrowed(list: Seq<&Part>) -> Seq<PartModel> {
    list.map_values(|p: &Part| p@)
}

/// The error for a part that has to be there and is not.
pub open spec fn missing_part(name: Seq<char>) -> Problem {
    Problem::unprocessable(
        seq![
            FieldFailure {
                pointer: "/"@ + name,
                code: "missing"@,
                message: "`"@ + name + "` is required"@,
            },
        ],
    )
}

/// The error for a part that has to be text and is not.
pub open spec fn not_text(name: Seq<char>) -> Problem {
    Problem::unprocessable(
        seq![
            FieldFailure {
                pointer: "/"@ + name,
                code: "invalid_encoding"@,
                message: "expected UTF-8 text"@,
            },
        ],
    )
}

fn field_problem(name: &str, code: &str, message: &str) -> (e: ApiError)
    ensures
        e@ == Problem::unprocessable(
            seq![FieldFailure { pointer: "/"@ + name@, code: code@, message: message@ }],
        ),
{
    let mut pointer = "/".to_owned();
    pointer.append(name);
    crate::extract::single_failure(pointer.as_str(), code, message)
}

fn missing(name: &str) -> (e: ApiError)
    ensures
        e@ == missing_part(name@),
{
    let mut message = "`".to_owned();
    message.append(name);
    message.append("` is required");
    field_problem(name, "missing", message.as_str())
}

impl Multipart {
    /// Every part, in the order they were sent.
    pub fn parts(&self) -> (parts: &[Part])
        ensures
            part_models(parts@) == self@,
    {
        self.parts.as_slice()
    }

    pub fn len(&self) -> (n: usize)
        ensures
            n == self@.len(),
    {
        self.parts.len()
    }

    pub fn is_empty(&self) -> (r: bool)
        ensures
            r == (self@.len() == 0),
    {
        self.parts.len() == 0
    }

    fn find_part(&self, name: &str, file: bool) -> (part: Option<&Part>)
        ensures
            match part {
                Some(p) => part_from(self@, name@, file, 0) == Some(p@),
                None => part_from(self@, name@, file, 0) is None,
            },
    {
        let ghost model = self@;
        for i in 0..self.parts.len()
            invariant
                model == self@,
                part_from(model, name@, file, 0) == part_from(model, name@, file, i as int),
        {
            let part = &self.parts[i];
            assert(model[i as int] == part@);
            if text::same(part.name(), name) && (!file || part.is_file()) {
                return Some(part);
            }
        }
        None
    }

    /// The first part with this name.
    pub fn part(&self, name: &str) -> (part: Option<&Part>)
        ensures
            match part {
                Some(p) => part_from(self@, name@, false, 0) == Some(p@),
                None => part_from(self@, name@, false, 0) is None,
            },
    {
        self.find_part(name, false)
    }

    /// Every part with this name. HTML forms repeat a name for multi-select
    /// inputs and for `<input type="file" multiple>`.
    pub fn all<'a>(&'a self, name: &str) -> (out: Vec<&'a Part>)
        ensures
            borrowed(out@) == parts_named(self@, name@),
    {
        let ghost model = self@;
        let mut out: Vec<&'a Part> = Vec::new();
        assert(model.take(0) =~= Seq::<PartModel>::empty());
        assert(borrowed(out@) =~= Seq::<PartModel>::empty());
        for i in 0..self.parts.len()
            invariant
                model == self@,
                borrowed(out@) == parts_named(model.take(i as int), name@),
        {
            let part = &self.parts[i];
            assert(model.take(i + 1).drop_last() =~= model.take(i as int));
            assert(model[i as int] == part@);
            if text::same(part.name(), name) {
                assert(borrowed(out@.push(part)) =~= borrowed(out@).push(part@));
                out.push(part);
            }
        }
        assert(model.take(model.len() as int) =~= model);
        out
    }

    /// The text of the first part with this name.
    pub fn text(&self, name: &str) -> (out: Option<&str>)
        ensures
            match out {
                Some(s) => part_from(self@, name@, false, 0) is Some && text_in(
                    part_from(self@, name@, false, 0)->0.data,
                ) == Some(s@),
                None => part_from(self@, name@, false, 0) is None || text_in(
                    part_from(self@, name@, false, 0)->0.data,
                ) is None,
            },
    {
        match self.part(name) {
            Some(part) => part.text(),
            None => None,
        }
    }

    /// The first *file* part with this name.
    pub fn file(&self, name: &str) -> (part: Option<&Part>)
        ensures
            match part {
                Some(p) => part_from(self@, name@, true, 0) == Some(p@),
                None => part_from(self@, name@, true, 0) is None,
            },
    {
        self.find_part(name, true)
    }

    /// Every file part, whatever its name.
    pub fn files(&self) -> (out: Vec<&Part>)
        ensures
            borrowed(out@) == file_parts(self@),
    {
        let ghost model = self@;
        let mut out: Vec<&Part> = Vec::new();
        assert(model.take(0) =~= Seq::<PartModel>::empty());
        assert(borrowed(out@) =~= Seq::<PartModel>::empty());
        for i in 0..self.parts.len()
            invariant
                model == self@,
                borrowed(out@) == file_parts(model.take(i as int)),
        {
            let part = &self.parts[i];
            assert(model.take(i + 1).drop_last() =~= model.take(i as int));
            assert(model[i as int] == part@);
            if part.is_file() {
                assert(borrowed(out@.push(part)) =~= borrowed(out@).push(part@));
                out.push(part);
            }
        }
        assert(model.take(model.len() as int) =~= model);
        out
    }

    /// Like [`Self::text`], but a missing field is a 422 naming it rather than
    /// an `Option` every caller has to unwrap the same way.
    pub fn require_text(&self, name: &str) -> (r: Result<&str, ApiError>)
        ensures
            match part_from(self@, name@, false, 0) {
                None => r is Err && r->Err_0@ == missing_part(name@),
                Some(part) => match text_in(part.data) {
                    Some(s) => r is Ok && r->Ok_0@ == s,
                    None => r is Err && r->Err_0@ == not_text(name@),
                },
            },
    {
        match self.part(name) {
            None => Err(missing(name)),
            Some(part) => match part.text() {
                Some(s) => Ok(s),
                None => Err(field_problem(name, "invalid_encoding", "expected UTF-8 text")),
            },
        }
    }

    /// Like [`Self::file`], with the same treatment for a missing part.
    pub fn require_file(&self, name: &str) -> (r: Result<&Part, ApiError>)
        ensures
            match part_from(self@, name@, true, 0) {
                None => r is Err && r->Err_0@ == missing_part(name@),
                Some(part) => r is Ok && r->Ok_0@ == part,
            },
    {
        match self.file(name) {
            Some(part) => Ok(part),
            None => Err(missing(name)),
        }
    }

    /// The non-file parts that are text, as pairs.
    ///
    /// Repeated names collect into sequences, exactly as they do for a query
    /// string, because both are the same flat key/value shape.
    pub fn pairs(&self) -> (out: Pairs)
        ensures
            out@ == de::grouped(text_fields(self@)),
    {
        let ghost model = self@;
        let mut out = Pairs::new();
        assert(model.take(0) =~= Seq::<PartModel>::empty());
        for i in 0..self.parts.len()
            invariant
                model == self@,
                out@ == de::grouped(text_fields(model.take(i as int))),
        {
            let part = &self.parts[i];
            let ghost before = text_fields(model.take(i as int));
            assert(model.take(i + 1).drop_last() =~= model.take(i as int));
            assert(model[i as int] == part@);
            if !part.is_file() {
                if let Some(s) = part.text() {
                    assert(before.push((part@.name, s@)).drop_last() =~= before);
                    out.push(part.name(), s);
                }
            }
        }
        assert(model.take(model.len() as int) =~= model);
        out
    }

    /// Takes what [`Multipart::pairs`] were read as.
    pub fn deserialize<T>(decoded: Result<T, DeError>) -> (r: Result<T, ApiError>)
        ensures
            match decoded {
                Ok(value) => r == Ok::<T, ApiError>(value),
                Err(e) => r is Err && r->Err_0@ == (Problem {
                    title: "Invalid form data"@,
                    ..Problem::unprocessable(
                        seq![
                            FieldFailure { pointer: ""@, code: "invalid_form"@, message: e.0@ },
                        ],
                    )
                }),
            },
    {
        match decoded {
            Ok(value) => Ok(value),
            Err(e) => Err(
                extract::single_failure("", "invalid_form", e.0.as_str()).with_title(
                    "Invalid form data",
                ),
            ),
        }
    }
}

// ---------------------------------------------------------------------------
// errors
// ---------------------------------------------------------------------------

impl Fault {
    /// The fault in words.
    pub open spec fn text(self) -> Seq<char> {
        match self {
            Fault::NotMultipart(got) => "expected `multipart/form-data`, got `"@ + got + "`"@,
            Fault::MissingBoundary => "the `Content-Type` has no `boundary` parameter"@,
            Fault::InvalidBoundary(b) => "`"@ + b + "` is not a valid boundary"@,
            Fault::NoOpeningBoundary => "the body does not start with the declared boundary"@,
            Fault::Truncated => "the body ended before the closing boundary"@,
            Fault::MalformedPart => "a part's headers are malformed"@,
            Fault::UnnamedPart => "a part has no `name` in its `Content-Disposition`"@,
            Fault::TooManyParts { max } => "more than "@ + text::decimal(max as nat) + " parts"@,
        }
    }

    /// The error a client gets.
    pub open spec fn problem(self) -> Problem {
        match self {
            Fault::NotMultipart(_) => Problem::detailed(415, self.text()),
            Fault::TooManyParts { .. } => Problem::detailed(413, self.text()),
            _ => Problem {
                title: "Malformed multipart body"@,
                ..Problem::detailed(400, self.text())
            },
        }
    }
}

impl MultipartError {
    /// The error in words.
    pub fn message(&self) -> (out: String)
        ensures
            out@ == self@.text(),
    {
        match self {
            MultipartError::NotMultipart(got) => {
                let mut out = "expected `multipart/form-data`, got `".to_owned();
                out.append(got.as_str());
                out.append("`");
                out
            },
            MultipartError::MissingBoundary => {
                "the `Content-Type` has no `boundary` parameter".to_owned()
            },
            MultipartError::InvalidBoundary(b) => {
                let mut out = "`".to_owned();
                out.append(b.as_str());
                out.append("` is not a valid boundary");
                out
            },
            MultipartError::NoOpeningBoundary => {
                "the body does not start with the declared boundary".to_owned()
            },
            MultipartError::Truncated => "the body ended before the closing boundary".to_owned(),
            MultipartError::MalformedPart => "a part's headers are malformed".to_owned(),
            MultipartError::UnnamedPart => {
                "a part has no `name` in its `Content-Disposition`".to_owned()
            },
            MultipartError::TooManyParts { max } => {
                let mut out = "more than ".to_owned();
                out.append(text::decimal_text(*max as u64).as_str());
                out.append(" parts");
                out
            },
        }
    }

    /// The error a client gets.
    pub fn into_api_error(self) -> (e: ApiError)
        ensures
            e@ == self@.problem(),
    {
        let message = self.message();
        match self {
            MultipartError::NotMultipart(_) => {
                ApiError::unsupported_media_type(message.as_str())
            },
            MultipartError::TooManyParts { .. } => ApiError::payload_too_large(message.as_str()),
            _ => ApiError::bad_request(message.as_str()).with_title("Malformed multipart body"),
        }
    }
}

/// The parts of a request with this content type and body.
pub open spec fn extracted(content_type: Option<Seq<char>>, body: Seq<u8>) -> Result<
    Seq<PartModel>,
    Problem,
> {
    match content_type {
        None => Err(Problem::detailed(415, "Expected a `multipart/form-data` body."@)),
        Some(content_type) => match boundary_in(content_type) {
            Err(fault) => Err(fault.problem()),
            Ok(boundary) => match parsed(body, boundary) {
                Err(fault) => Err(fault.problem()),
                Ok(parts) => Ok(parts),
            },
        },
    }
}

impl Multipart {
    /// Reads the form out of a request.
    pub fn from_request(req: &Request) -> (r: Result<Multipart, ApiError>)
        ensures
            match r {
                Ok(form) => extracted(
                    headers::first(req@.headers, "content-type"@),
                    req@.body,
                ) == Ok::<Seq<PartModel>, Problem>(form@),
                Err(e) => extracted(headers::first(req@.headers, "content-type"@), req@.body)
                    == Err::<Seq<PartModel>, Problem>(e@),
            },
    {
        let content_type = match req.header("content-type") {
            Some(s) => s,
            None => return Err(
                ApiError::unsupported_media_type("Expected a `multipart/form-data` body."),
            ),
        };
        let boundary = match boundary_of(content_type.as_str()) {
            Ok(b) => b,
            Err(e) => return Err(e.into_api_error()),
        };
        match Multipart::parse(req.body(), boundary.as_str()) {
            Ok(form) => Ok(form),
            Err(e) => Err(e.into_api_error()),
        }
    }
}

/// The schema of a form without a declared field list: an object of strings
/// and files.
pub open spec fn form_schema() -> SchemaModel {
    SchemaModel {
        description: Some(
            "Form fields and file uploads. Text parts are strings; file parts are binary."@,
        ),
        additional_properties: Some(
            AdditionalModel::Schema(
                Box::new(
                    SchemaModel {
                        any_of: seq![
                            SchemaModel::of_type("string"@),
                            SchemaModel::typed("string"@, "binary"@),
                        ],
                        ..SchemaModel::any()
                    },
                ),
            ),
        ),
        ..SchemaModel::of_type("object"@)
    }
}

impl OperationInput for Multipart {
    open spec fn described(c: ContextModel) -> ContextModel {
        crate::extract::body_described(
            c,
            None,
            "multipart/form-data"@,
            form_schema(),
        ).with_problem("400"@, "The multipart body could not be parsed"@)
    }

    fn describe(ctx: &mut OperationContext) {
        let mut either: Vec<Schema> = Vec::new();
        either.push(Schema::of_type("string"));
        either.push(Schema::typed("string", "binary"));
        proof {
            schema::lemma_list_model(either@);
        }
        assert(schema::list_model(either@) =~= seq![
            SchemaModel::of_type("string"@),
            SchemaModel::typed("string"@, "binary"@),
        ]);
        let any = Schema { any_of: either, ..Schema::any() };
        assert(any@ =~= SchemaModel {
            any_of: seq![SchemaModel::of_type("string"@), SchemaModel::typed("string"@, "binary"@)],
            ..SchemaModel::any()
        });
        let mut form = Schema::of_type("object");
        form.description = Some(
            "Form fields and file uploads. Text parts are strings; file parts are binary.".to_owned(),
        );
        form.additional_properties = Some(AdditionalProperties::Schema(Box::new(any)));
        assert(form@ =~= form_schema());
        crate::extract::describe_body(ctx, None, "multipart/form-data", form);
        ctx.add_problem_response("400", "The multipart body could not be parsed");
    }
}

// ---------------------------------------------------------------------------
// what is sent is what is read
// ---------------------------------------------------------------------------

/// A body with these contents between its boundaries, as RFC 2046 lays it out.
pub open spec fn laid_out(marker: Seq<u8>, contents: Seq<Seq<u8>>) -> Seq<u8>
    decreases contents.len(),
{
    if contents.len() == 0 {
        marker + seq![45u8, 45u8]
    } else {
        marker + crlf() + contents[0] + crlf() + laid_out(marker, contents.skip(1))
    }
}

/// Contents in which no line begins with the boundary.
pub open spec fn is_clean(content: Seq<u8>, marker: Seq<u8>) -> bool {
    let framed = crlf() + content + crlf() + marker;
    forall|i: int| 2 <= i < content.len() + 4 ==> !#[trigger] is_delimiter(framed, marker, i)
}

/// A preamble: nothing, or lines none of which begins with the boundary.
pub open spec fn is_preamble(preamble: Seq<u8>, marker: Seq<u8>) -> bool {
    &&& preamble.len() == 0 || (preamble.len() >= 2 && preamble[preamble.len() - 2] == 13
        && preamble.last() == 10)
    &&& forall|i: int|
        0 <= i < preamble.len() ==> !#[trigger] is_delimiter(preamble + marker, marker, i)
}

proof fn lemma_starts_with_marker(marker: Seq<u8>, contents: Seq<Seq<u8>>)
    ensures
        laid_out(marker, contents).len() >= marker.len() + 2,
        laid_out(marker, contents).take(marker.len() as int) == marker,
    decreases contents.len(),
{
    if contents.len() == 0 {
        assert((marker + seq![45u8, 45u8]).take(marker.len() as int) =~= marker);
    } else {
        let rest = laid_out(marker, contents.skip(1));
        assert((marker + crlf() + contents[0] + crlf() + rest).take(marker.len() as int)
            =~= marker);
    }
}

/// A boundary inside a stretch of a body is one of the body, and the other way
/// round.
proof fn lemma_delimiter_within(body: Seq<u8>, marker: Seq<u8>, from: int, to: int, i: int)
    requires
        0 <= from <= to <= body.len(),
        2 <= i,
        from + i + marker.len() <= to,
    ensures
        is_delimiter(body.subrange(from, to), marker, i) == is_delimiter(body, marker, from + i),
{
    let part = body.subrange(from, to);
    assert(part.subrange(i, i + marker.len()) =~= body.subrange(
        from + i,
        from + i + marker.len(),
    ));
}

/// One content and the boundary after it, as the scanner meets them.
proof fn lemma_one_section(
    before: Seq<u8>,
    marker: Seq<u8>,
    content: Seq<u8>,
    after: Seq<u8>,
)
    requires
        is_clean(content, marker),
        after.len() >= marker.len() + 1,
        after.take(marker.len() as int) == marker,
    ensures
        ({
            let body = before + marker + crlf() + content + crlf() + after;
            let behind = before.len() as int + marker.len();
            let next = behind + content.len() + 4;
            &&& !stands_at(body, seq![45u8, 45u8], behind)
            &&& past_padding(body, behind) == behind
            &&& stands_at(body, crlf(), behind)
            &&& delimiter_from(body, marker, behind + 2) == Some(next)
            &&& body.subrange(behind + 2, next - 2) == content
        }),
{
    let body = before + marker + crlf() + content + crlf() + after;
    let behind = before.len() as int + marker.len();
    let start = behind + 2;
    let next = start + content.len() + 2;
    let to = next + marker.len();
    assert(body[behind] == 13 && body[behind + 1] == 10);
    assert(body.subrange(behind, behind + 2)[0] == 13);
    assert(body.subrange(behind, behind + 2) =~= crlf());
    assert(body.subrange(next, to) =~= after.take(marker.len() as int));
    assert(body[next - 2] == 13 && body[next - 1] == 10);
    let framed = crlf() + content + crlf() + marker;
    assert(framed =~= crlf() + content + crlf() + after.take(marker.len() as int));
    assert(body.subrange(behind, to) =~= framed);
    assert forall|i: int| start <= i < next implies !#[trigger] is_delimiter(
        body,
        marker,
        i,
    ) by {
        lemma_delimiter_within(body, marker, behind, to, i - behind);
        assert(!is_delimiter(framed, marker, i - behind));
    }
    assert(is_delimiter(body, marker, next));
    lemma_delimiter_from(body, marker, start);
    assert(body.subrange(start, next - 2) =~= content);
}

/// The scanner takes one part and goes on at the boundary after it.
proof fn lemma_step(
    body: Seq<u8>,
    marker: Seq<u8>,
    cursor: int,
    parts: Seq<PartModel>,
    next: int,
    part: PartModel,
)
    requires
        0 <= cursor,
        parts.len() < MAX_PARTS,
        ({
            let behind = cursor + marker.len();
            &&& !stands_at(body, seq![45u8, 45u8], behind)
            &&& past_padding(body, behind) == behind
            &&& stands_at(body, crlf(), behind)
            &&& delimiter_from(body, marker, behind + 2) == Some(next)
            &&& next >= behind + 4
            &&& part_of(body.subrange(behind + 2, next - 2)) == Ok::<PartModel, Fault>(part)
        }),
    ensures
        sections(body, marker, cursor, parts) == sections(body, marker, next, parts.push(part)),
{
}

#[verifier::spinoff_prover]
proof fn lemma_sections(
    before: Seq<u8>,
    marker: Seq<u8>,
    contents: Seq<Seq<u8>>,
    epilogue: Seq<u8>,
    parts: Seq<PartModel>,
    sent: Seq<PartModel>,
)
    requires
        contents.len() == sent.len(),
        parts.len() + sent.len() <= MAX_PARTS,
        forall|i: int|
            0 <= i < contents.len() ==> is_clean(#[trigger] contents[i], marker) && part_of(
                contents[i],
            ) == Ok::<PartModel, Fault>(sent[i]),
    ensures
        sections(
            before + laid_out(marker, contents) + epilogue,
            marker,
            before.len() as int,
            parts,
        ) == Ok::<Seq<PartModel>, Fault>(parts + sent),
    decreases contents.len(),
{
    let body = before + laid_out(marker, contents) + epilogue;
    let cursor = before.len() as int;
    let behind = cursor + marker.len();
    if contents.len() == 0 {
        assert(body.subrange(behind, behind + 2) =~= seq![45u8, 45u8]);
        assert(stands_at(body, seq![45u8, 45u8], behind));
        assert(parts + sent =~= parts);
    } else {
        let content = contents[0];
        let rest = laid_out(marker, contents.skip(1));
        let after = rest + epilogue;
        let front = before + marker + crlf() + content + crlf();
        let next = behind + content.len() + 4;
        assert(after.len() >= marker.len() + 1 && after.take(marker.len() as int) == marker) by {
            lemma_starts_with_marker(marker, contents.skip(1));
            assert(after.take(marker.len() as int) =~= rest.take(marker.len() as int));
        }
        assert(body == front + after) by {
            assert(laid_out(marker, contents) == marker + crlf() + content + crlf() + rest);
            assert(body =~= front + after);
        }
        assert(body == front + rest + epilogue) by {
            assert(front + after =~= front + rest + epilogue);
        }
        lemma_one_section(before, marker, content, after);
        lemma_step(body, marker, cursor, parts, next, sent[0]);
        assert forall|i: int| 0 <= i < contents.skip(1).len() implies is_clean(
            #[trigger] contents.skip(1)[i],
            marker,
        ) && part_of(contents.skip(1)[i]) == Ok::<PartModel, Fault>(sent.skip(1)[i]) by {
            assert(contents.skip(1)[i] == contents[i + 1]);
        }
        lemma_sections(
            front,
            marker,
            contents.skip(1),
            epilogue,
            parts.push(sent[0]),
            sent.skip(1),
        );
        assert(front.len() == next);
        assert(parts.push(sent[0]) + sent.skip(1) =~= parts + sent);
    }
}

/// What a client lays out between boundaries is what is read back, part for
/// part and in order, whatever comes before the first boundary and after the
/// closing one.
pub proof fn parts_come_back_as_sent(
    boundary: Seq<char>,
    preamble: Seq<u8>,
    contents: Seq<Seq<u8>>,
    epilogue: Seq<u8>,
    sent: Seq<PartModel>,
)
    requires
        is_preamble(preamble, marker_of(boundary)),
        contents.len() == sent.len(),
        sent.len() <= MAX_PARTS,
        forall|i: int|
            0 <= i < contents.len() ==> is_clean(#[trigger] contents[i], marker_of(boundary))
                && part_of(contents[i]) == Ok::<PartModel, Fault>(sent[i]),
    ensures
        parsed(preamble + laid_out(marker_of(boundary), contents) + epilogue, boundary) == Ok::<
            Seq<PartModel>,
            Fault,
        >(sent),
{
    let marker = marker_of(boundary);
    let body = preamble + laid_out(marker, contents) + epilogue;
    let cursor = preamble.len() as int;
    lemma_starts_with_marker(marker, contents);
    assert(body.subrange(cursor, cursor + marker.len()) =~= laid_out(marker, contents).take(
        marker.len() as int,
    ));
    assert(is_delimiter(body, marker, cursor));
    assert forall|i: int| 0 <= i < cursor implies !is_delimiter(body, marker, i) by {
        let opening = preamble + marker;
        assert(marker == body.subrange(cursor, cursor + marker.len()));
        assert(opening =~= body.subrange(0, cursor + marker.len()));
        assert(body.subrange(i, i + marker.len()) =~= opening.subrange(i, i + marker.len()));
        assert(!is_delimiter(opening, marker, i));
    }
    lemma_delimiter_from(body, marker, 0);
    lemma_sections(preamble, marker, contents, epilogue, Seq::empty(), sent);
    assert(Seq::<PartModel>::empty() + sent =~= sent);
}

proof fn lemma_found(bytes: Seq<u8>, needle: Seq<u8>, from: int, i: int)
    requires
        0 <= from <= i < bytes.len(),
        stands_at(bytes, needle, i),
        forall|j: int| from <= j < i ==> !#[trigger] stands_at(bytes, needle, j),
    ensures
        found(bytes, needle, from) == Some(i),
    decreases i - from,
{
    if from < i {
        lemma_found(bytes, needle, from + 1, i);
    }
}

/// The data of a part is every byte after the first blank line, untouched.
pub proof fn data_survives_untouched(head: Seq<u8>, data: Seq<u8>)
    requires
        valid_utf8(head),
        lines_read(lines(decode_utf8(head))).name is Some,
        forall|i: int|
            0 <= i < head.len() ==> !#[trigger] stands_at(head + blank_line(), blank_line(), i),
    ensures
        part_of(head + blank_line() + data) == Ok::<PartModel, Fault>(
            PartModel {
                name: lines_read(lines(decode_utf8(head))).name->0,
                file_name: lines_read(lines(decode_utf8(head))).file_name,
                content_type: lines_read(lines(decode_utf8(head))).content_type,
                data,
            },
        ),
{
    let raw = head + blank_line() + data;
    let n = head.len() as int;
    assert(raw.subrange(n, n + 4) =~= blank_line());
    assert forall|j: int| 0 <= j < n implies !#[trigger] stands_at(raw, blank_line(), j) by {
        assert(raw.subrange(j, j + 4) =~= (head + blank_line()).subrange(j, j + 4));
        assert(!stands_at(head + blank_line(), blank_line(), j));
    }
    lemma_found(raw, blank_line(), 0, n);
    assert(raw.take(n) =~= head);
    assert(raw.skip(n + 4) =~= data);
}

/// A text with `\` before each quote and each `\`.
pub open spec fn escaped(s: Seq<char>) -> Seq<char>
    decreases s.len(),
{
    if s.len() == 0 {
        Seq::empty()
    } else if s[0] == '"' || s[0] == '\\' {
        seq!['\\', s[0]] + escaped(s.skip(1))
    } else {
        seq![s[0]] + escaped(s.skip(1))
    }
}

/// A text in quotes.
pub open spec fn quoted(s: Seq<char>) -> Seq<char> {
    seq!['"'] + escaped(s) + seq!['"']
}

proof fn lemma_unescaped(s: Seq<char>)
    ensures
        unescaped(escaped(s)) == s,
    decreases s.len(),
{
    if s.len() > 0 {
        lemma_unescaped(s.skip(1));
        let e = escaped(s);
        let rest = escaped(s.skip(1));
        if s[0] == '"' || s[0] == '\\' {
            assert(e.skip(2) =~= rest);
        } else {
            assert(e.skip(1) =~= rest);
        }
        assert(s =~= seq![s[0]] + s.skip(1));
    }
}

/// Reading on through a quoted text: `whole` has the rest of it, the closing
/// quote and nothing more at position `i`.
proof fn lemma_inside_quotes(whole: Seq<char>, i: int, rest: Seq<char>)
    requires
        0 <= i <= whole.len(),
        whole.skip(i) == escaped(rest) + seq!['"'],
    ensures
        parameters_from(whole, 0, i, true, false) == seq![whole],
    decreases rest.len(),
{
    let tail = whole.skip(i);
    if rest.len() == 0 {
        assert(tail =~= seq!['"']);
        assert(whole[i] == tail[0]);
        assert(whole.len() == i + 1);
        assert(whole.skip(0) =~= whole);
        assert(parameters_from(whole, 0, i + 1, false, false) == seq![whole.skip(0)]);
    } else {
        let more = escaped(rest.skip(1));
        if rest[0] == '"' || rest[0] == '\\' {
            assert(tail =~= seq!['\\', rest[0]] + (more + seq!['"']));
            assert(whole[i] == tail[0] && whole[i + 1] == tail[1]);
            assert(whole.skip(i + 2) =~= tail.skip(2));
            assert(tail.skip(2) =~= more + seq!['"']);
            lemma_inside_quotes(whole, i + 2, rest.skip(1));
            assert(parameters_from(whole, 0, i + 1, true, true) == parameters_from(
                whole,
                0,
                i + 2,
                true,
                false,
            ));
        } else {
            assert(tail =~= seq![rest[0]] + (more + seq!['"']));
            assert(whole[i] == tail[0]);
            assert(whole.skip(i + 1) =~= tail.skip(1));
            assert(tail.skip(1) =~= more + seq!['"']);
            lemma_inside_quotes(whole, i + 1, rest.skip(1));
        }
    }
}

proof fn lemma_before_quotes(front: Seq<char>, s: Seq<char>, i: int)
    requires
        0 <= i <= front.len(),
        forall|j: int| 0 <= j < front.len() ==> front[j] != '"' && front[j] != ';',
    ensures
        parameters_from(front + quoted(s), 0, i, false, false) == seq![front + quoted(s)],
    decreases front.len() - i,
{
    let whole = front + quoted(s);
    if i < front.len() {
        lemma_before_quotes(front, s, i + 1);
    } else {
        assert(whole[i] == '"');
        assert(whole.skip(i + 1) =~= escaped(s) + seq!['"']);
        lemma_inside_quotes(whole, i + 1, s);
    }
}

/// A quoted value is one parameter, whatever it holds (semicolons and quotes
/// among them), and unquoting it gives it back.
pub proof fn a_quoted_value_reads_back(front: Seq<char>, value: Seq<char>)
    requires
        forall|j: int| 0 <= j < front.len() ==> front[j] != '"' && front[j] != ';',
    ensures
        parameters(front + quoted(value)) == seq![front + quoted(value)],
        unquoted(quoted(value)) == value,
{
    lemma_before_quotes(front, value, 0);
    let q = quoted(value);
    assert(q.subrange(1, q.len() - 1) =~= escaped(value));
    lemma_unescaped(value);
}

} // verus!
