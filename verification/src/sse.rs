//! Server-sent events.
//!
//! A handler returns a stream and the framework keeps the connection open,
//! formats each item as an SSE frame, and documents the endpoint as
//! `text/event-stream`.

use crate::body::{BodyModel, ResBody};
use crate::openapi::schema::{Schema, SchemaModel};
use crate::openapi::spec;
use crate::openapi::spec::ResponseModel;
use crate::operation::{ContextModel, OperationContext, OperationOutput};
use crate::response;
use crate::response::{IntoResponse, Reply, Response};
use crate::span::Span;
use crate::text;
use vstd::prelude::*;
use vstd::string::*;
use vstd::utf8::*;

verus! {

/// One server-sent event.
pub struct Event {
    id: Option<String>,
    name: Option<String>,
    data: String,
    retry: Option<Span>,
    comment: Option<String>,
}

/// An event, as a value.
#[verifier::ext_equal]
pub struct EventModel {
    pub id: Option<Seq<char>>,
    pub name: Option<Seq<char>>,
    pub data: Seq<char>,
    /// In nanoseconds.
    pub retry: Option<nat>,
    pub comment: Option<Seq<char>>,
}

impl View for Event {
    type V = EventModel;

    closed spec fn view(&self) -> EventModel {
        EventModel {
            id: text::opt(self.id),
            name: text::opt(self.name),
            data: self.data@,
            retry: match self.retry {
                Some(span) => Some(span@),
                None => None,
            },
            comment: text::opt(self.comment),
        }
    }
}

impl EventModel {
    pub open spec fn data(data: Seq<char>) -> EventModel {
        EventModel { id: None, name: None, data, retry: None, comment: None }
    }
}

/// A value without the characters that would end a field line early.
pub open spec fn sanitised(value: Seq<char>) -> Seq<char> {
    value.map_values(
        |c: char|
            if c == '\n' || c == '\r' {
                ' '
            } else {
                c
            },
    )
}

/// A text without the carriage returns at its end.
pub open spec fn without_returns(s: Seq<char>) -> Seq<char>
    decreases s.len(),
{
    if s.len() > 0 && s.last() == '\r' {
        without_returns(s.drop_last())
    } else {
        s
    }
}

/// The field line of an optional value.
pub open spec fn field(prefix: Seq<char>, value: Option<Seq<char>>) -> Seq<Seq<char>> {
    match value {
        Some(value) => seq![prefix + sanitised(value)],
        None => Seq::empty(),
    }
}

/// The lines of a comment.
pub open spec fn comment_lines(comment: Option<Seq<char>>) -> Seq<Seq<char>> {
    match comment {
        Some(comment) => text::split(comment, '\n').map_values(|line: Seq<char>| ":"@ + line),
        None => Seq::empty(),
    }
}

/// The lines of a payload. Multi-line payloads are sent as repeated `data:`
/// lines, which the client rejoins with newlines.
pub open spec fn data_lines(data: Seq<char>) -> Seq<Seq<char>> {
    text::split(data, '\n').map_values(|line: Seq<char>| "data:"@ + without_returns(line))
}

impl EventModel {
    pub open spec fn retry_line(self) -> Seq<Seq<char>> {
        match self.retry {
            Some(nanos) => seq!["retry:"@ + text::decimal(nanos / 1_000_000)],
            None => Seq::empty(),
        }
    }

    /// The lines of a frame.
    pub open spec fn lines(self) -> Seq<Seq<char>> {
        let head = comment_lines(self.comment) + field("id:"@, self.id) + field(
            "event:"@,
            self.name,
        ) + self.retry_line();
        if self.data.len() > 0 || self.comment is None {
            head + data_lines(self.data)
        } else {
            head
        }
    }

    /// The frame: its lines, and a blank one.
    pub open spec fn frame(self) -> Seq<char> {
        text::ended(self.lines(), '\n').push('\n')
    }
}

/// Strips characters that would end a field line early.
fn sanitise(value: &str) -> (out: String)
    ensures
        out@ == sanitised(value@),
{
    let mut out = String::new();
    assert(sanitised(value@.take(0)) =~= Seq::<char>::empty());
    let v = text::chars(value);
    for i in 0..v.len()
        invariant
            v@ == value@,
            out@ == sanitised(value@.take(i as int)),
    {
        let c = v[i];
        if c == '\n' || c == '\r' {
            out.push(' ');
        } else {
            out.push(c);
        }
        assert(out@ =~= sanitised(value@.take(i + 1)));
    }
    assert(value@.take(v@.len() as int) =~= value@);
    out
}

fn trim_returns(line: &str) -> (out: String)
    ensures
        out@ == without_returns(line@),
{
    let v = text::chars(line);
    let mut to: usize = v.len();
    assert(line@.take(to as int) =~= line@);
    while to > 0 && v[to - 1] == '\r'
        invariant
            to <= v@.len(),
            v@ == line@,
            without_returns(line@) == without_returns(line@.take(to as int)),
        decreases to,
    {
        assert(line@.take(to as int).drop_last() =~= line@.take(to - 1));
        to -= 1;
    }
    assert(v@.subrange(0, to as int) =~= line@.take(to as int));
    text::text_of(&v, 0, to)
}

/// Appends one line.
fn push_line(out: &mut String, lines: Ghost<Seq<Seq<char>>>, prefix: &str, line: &str)
    requires
        old(out)@ == text::ended(lines@, '\n'),
    ensures
        final(out)@ == text::ended(lines@.push(prefix@ + line@), '\n'),
{
    let ghost before = lines@;
    out.append(prefix);
    out.append(line);
    out.push('\n');
    let ghost after = before.push(prefix@ + line@);
    assert(after.drop_last() =~= before);
    assert(out@ =~= text::ended(after, '\n'));
}

impl Event {
    /// An event carrying a raw string payload.
    pub fn data(data: &str) -> (e: Self)
        ensures
            e@ == EventModel::data(data@),
    {
        Event { id: None, name: None, data: data.to_owned(), retry: None, comment: None }
    }

    /// A comment-only frame. Useful as a keep-alive that clients ignore.
    pub fn comment(comment: &str) -> (e: Self)
        ensures
            e@ == (EventModel { comment: Some(comment@), ..EventModel::data(""@) }),
    {
        let data = "".to_owned();
        Event { id: None, name: None, data, retry: None, comment: Some(comment.to_owned()) }
    }

    /// Sets the event name, which clients subscribe to by name.
    pub fn named(self, name: &str) -> (e: Self)
        ensures
            e@ == (EventModel { name: Some(name@), ..self@ }),
    {
        let mut e = self;
        e.name = Some(name.to_owned());
        e
    }

    /// Sets the event id, which the client returns in `Last-Event-ID` when it
    /// reconnects.
    pub fn id(self, id: &str) -> (e: Self)
        ensures
            e@ == (EventModel { id: Some(id@), ..self@ }),
    {
        let mut e = self;
        e.id = Some(id.to_owned());
        e
    }

    /// Tells the client how long to wait before reconnecting.
    pub fn retry(self, after: Span) -> (e: Self)
        ensures
            e@ == (EventModel { retry: Some(after@), ..self@ }),
    {
        let mut e = self;
        e.retry = Some(after);
        e
    }

    /// The event in the `text/event-stream` wire format.
    pub fn frame(&self) -> (out: String)
        ensures
            out@ == self@.frame(),
    {
        let mut out = String::new();
        let ghost mut lines = Seq::<Seq<char>>::empty();
        if let Some(comment) = &self.comment {
            let parts = text::split_text(comment.as_str(), '\n');
            let ghost all = comment_lines(self@.comment);
            let ghost pieces = text::split(comment@, '\n');
            assert(all.take(0) =~= Seq::<Seq<char>>::empty());
            for i in 0..parts.len()
                invariant
                    pieces == text::views(parts@),
                    all == pieces.map_values(|line: Seq<char>| ":"@ + line),
                    lines == all.take(i as int),
                    out@ == text::ended(lines, '\n'),
            {
                assert(pieces[i as int] == parts@[i as int]@);
                push_line(&mut out, Ghost(lines), ":", parts[i].as_str());
                proof {
                    lines = lines.push(":"@ + parts@[i as int]@);
                    assert(lines =~= all.take(i + 1));
                }
            }
            assert(all.take(all.len() as int) =~= all);
        }
        assert(lines =~= comment_lines(self@.comment));
        if let Some(id) = &self.id {
            // A newline in an id would forge a frame boundary.
            let id = sanitise(id.as_str());
            push_line(&mut out, Ghost(lines), "id:", id.as_str());
            proof {
                lines = lines.push("id:"@ + id@);
            }
        }
        assert(lines =~= comment_lines(self@.comment) + field("id:"@, self@.id));
        if let Some(name) = &self.name {
            let name = sanitise(name.as_str());
            push_line(&mut out, Ghost(lines), "event:", name.as_str());
            proof {
                lines = lines.push("event:"@ + name@);
            }
        }
        assert(lines =~= comment_lines(self@.comment) + field("id:"@, self@.id) + field(
            "event:"@,
            self@.name,
        ));
        if let Some(after) = self.retry {
            let count = text::decimal_wide(after.as_millis());
            push_line(&mut out, Ghost(lines), "retry:", count.as_str());
            proof {
                lines = lines.push("retry:"@ + count@);
            }
        }
        let ghost head = comment_lines(self@.comment) + field("id:"@, self@.id) + field(
            "event:"@,
            self@.name,
        ) + self@.retry_line();
        assert(lines =~= head);
        if !self.data.as_str().is_empty() || self.comment.is_none() {
            let parts = text::split_text(self.data.as_str(), '\n');
            let ghost all = data_lines(self@.data);
            let ghost pieces = text::split(self@.data, '\n');
            assert(head + all.take(0) =~= head);
            for i in 0..parts.len()
                invariant
                    pieces == text::views(parts@),
                    all == pieces.map_values(
                        |line: Seq<char>| "data:"@ + without_returns(line),
                    ),
                    lines == head + all.take(i as int),
                    out@ == text::ended(lines, '\n'),
            {
                assert(pieces[i as int] == parts@[i as int]@);
                let line = trim_returns(parts[i].as_str());
                push_line(&mut out, Ghost(lines), "data:", line.as_str());
                proof {
                    lines = lines.push("data:"@ + line@);
                    assert(lines =~= head + all.take(i + 1));
                }
            }
            assert(all.take(all.len() as int) =~= all);
        }
        assert(lines =~= self@.lines());
        out.push('\n');
        out
    }

    /// Encodes the event in the `text/event-stream` wire format.
    pub fn encode(&self) -> (bytes: Vec<u8>)
        ensures
            bytes@ == encode_utf8(self@.frame()),
    {
        self.frame().as_str().as_bytes_vec()
    }
}

// ---------------------------------------------------------------------------
// responses
// ---------------------------------------------------------------------------

/// A `text/event-stream` response.
pub struct Sse<S> {
    pub stream: S,
    /// How long the stream may be idle before a comment is sent.
    pub keep_alive: Option<Span>,
}

impl<S> Sse<S> {
    /// Wraps a stream of events.
    pub fn new(stream: S) -> (out: Self)
        ensures
            out.stream == stream,
            out.keep_alive is Some,
            out.keep_alive->0@ == 15_000_000_000,
    {
        Sse { stream, keep_alive: Some(Span::from_secs(15)) }
    }

    /// Sends a comment frame whenever the stream is idle for this long, which
    /// keeps proxies from closing the connection.
    pub fn keep_alive(self, interval: Span) -> (out: Self)
        ensures
            out == (Sse { stream: self.stream, keep_alive: Some(interval) }),
    {
        Sse { stream: self.stream, keep_alive: Some(interval) }
    }

    /// Turns off keep-alive frames.
    pub fn without_keep_alive(self) -> (out: Self)
        ensures
            out == (Sse { stream: self.stream, keep_alive: None::<Span> }),
    {
        Sse { stream: self.stream, keep_alive: None }
    }
}

/// An event stream is sent unbuffered: caching it, or having a proxy hold it
/// back, defeats the point of it.
impl<S> IntoResponse<Sse<S>> for Sse<S> {
    open spec fn fits(self) -> bool {
        true
    }

    open spec fn response(self) -> Reply<Sse<S>> {
        Reply::of_type(BodyModel::Stream(self), "text/event-stream"@).with_header(
            "cache-control"@,
            "no-store"@,
        ).with_header("x-accel-buffering"@, "no"@)
    }

    fn into_response(self) -> Response<Sse<S>> {
        proof {
            response::lemma_known_names();
            response::lemma_known_types();
            reveal_strlit("x-accel-buffering");
            reveal_strlit("no-store");
            reveal_strlit("no");
        }
        let mut r = Response::of_type(ResBody::stream(self), "text/event-stream");
        r.set_header("cache-control", "no-store");
        r.set_header("x-accel-buffering", "no");
        r
    }
}

impl<S> OperationOutput for Sse<S> {
    open spec fn described(c: ContextModel) -> ContextModel {
        c.with_response(
            "200"@,
            ResponseModel::new(
                "A `text/event-stream` of server-sent events, held open until the client disconnects."@,
            ).with_content("text/event-stream"@, SchemaModel::of_type("string"@)),
        )
    }

    open spec fn fixed_status() -> Option<u16> {
        Some(200)
    }

    fn describe(ctx: &mut OperationContext) {
        let response = spec::Response::new(
            "A `text/event-stream` of server-sent events, held open until the client disconnects.",
        ).with_content("text/event-stream", Schema::of_type("string"));
        ctx.add_response("200", response);
    }

    fn status() -> Option<u16> {
        Some(200)
    }
}

/// What to do when a stream with a keep-alive is asked for its next frame.
#[derive(Clone, Copy, Debug, PartialEq, Eq, Structural)]
pub enum IdleStep {
    /// Hand on what the stream gave. Any real traffic restarts the idle timer.
    Forward,
    /// Send a comment and restart the idle timer.
    Comment,
    /// Neither has anything yet.
    Wait,
}

/// Emits a comment frame when the stream goes quiet.
pub fn idle_step(stream_ready: bool, timer_fired: bool) -> (step: IdleStep)
    ensures
        step == IdleStep::Forward <==> stream_ready,
        step == IdleStep::Comment <==> !stream_ready && timer_fired,
        step == IdleStep::Wait <==> !stream_ready && !timer_fired,
{
    if stream_ready {
        IdleStep::Forward
    } else if timer_fired {
        IdleStep::Comment
    } else {
        IdleStep::Wait
    }
}

// ---------------------------------------------------------------------------
// what a client reads
// ---------------------------------------------------------------------------

proof fn lemma_no_newline(a: Seq<char>, b: Seq<char>)
    requires
        !a.contains('\n'),
        !b.contains('\n'),
    ensures
        !(a + b).contains('\n'),
{
    if (a + b).contains('\n') {
        let i = choose|i: int| 0 <= i < (a + b).len() && (a + b)[i] == '\n';
        if i < a.len() {
            assert(a[i] == '\n');
        } else {
            assert(b[i - a.len()] == '\n');
        }
    }
}

proof fn lemma_prefixes()
    ensures
        !":"@.contains('\n'),
        !"id:"@.contains('\n'),
        !"event:"@.contains('\n'),
        !"retry:"@.contains('\n'),
        !"data:"@.contains('\n'),
{
    reveal_strlit(":");
    reveal_strlit("id:");
    reveal_strlit("event:");
    reveal_strlit("retry:");
    reveal_strlit("data:");
}

proof fn lemma_decimal_line(n: nat)
    ensures
        !text::decimal(n).contains('\n'),
    decreases n,
{
    if n >= 10 {
        lemma_decimal_line(n / 10);
        let d = seq![text::digit(n % 10)];
        assert(d[0] == text::digit(n % 10));
        lemma_no_newline(text::decimal(n / 10), d);
        assert(text::decimal(n) =~= text::decimal(n / 10) + d);
    }
}

proof fn lemma_without_returns(s: Seq<char>)
    requires
        !s.contains('\n'),
    ensures
        !without_returns(s).contains('\n'),
    decreases s.len(),
{
    if s.len() > 0 && s.last() == '\r' {
        if s.drop_last().contains('\n') {
            let i = choose|i: int| 0 <= i < s.drop_last().len() && s.drop_last()[i] == '\n';
            assert(s[i] == '\n');
        }
        lemma_without_returns(s.drop_last());
    }
}

/// No line of a frame holds a line ending.
proof fn lemma_lines(e: EventModel, i: int)
    requires
        0 <= i < e.lines().len(),
    ensures
        !e.lines()[i].contains('\n'),
{
    lemma_prefixes();
    let comments = comment_lines(e.comment);
    let ids = field("id:"@, e.id);
    let names = field("event:"@, e.name);
    let retries = e.retry_line();
    let head = comments + ids + names + retries;
    if i < comments.len() {
        text::lemma_split_pieces(e.comment->0, '\n', i);
        lemma_no_newline(":"@, text::split(e.comment->0, '\n')[i]);
        assert(e.lines()[i] == comments[i]);
    } else if i < comments.len() + ids.len() {
        assert(!sanitised(e.id->0).contains('\n'));
        lemma_no_newline("id:"@, sanitised(e.id->0));
        assert(e.lines()[i] == ids[0]);
    } else if i < comments.len() + ids.len() + names.len() {
        assert(!sanitised(e.name->0).contains('\n'));
        lemma_no_newline("event:"@, sanitised(e.name->0));
        assert(e.lines()[i] == names[0]);
    } else if i < head.len() {
        lemma_decimal_line(e.retry->0 / 1_000_000);
        lemma_no_newline("retry:"@, text::decimal(e.retry->0 / 1_000_000));
        assert(e.lines()[i] == retries[0]);
    } else {
        let k = i - head.len();
        let pieces = text::split(e.data, '\n');
        text::lemma_split_pieces(e.data, '\n', k);
        lemma_without_returns(pieces[k]);
        lemma_no_newline("data:"@, without_returns(pieces[k]));
        assert(e.lines()[i] == data_lines(e.data)[k]);
    }
}

/// A client that splits a frame into lines reads the event's own lines and the
/// blank one that ends it, whatever the id, the name and the payload hold: no
/// value can start a field or end the frame.
pub proof fn no_value_can_forge_a_line(e: EventModel)
    ensures
        text::split(e.frame(), '\n') == e.lines().push(Seq::empty()).push(Seq::empty()),
{
    assert forall|i: int| 0 <= i < e.lines().len() implies !(#[trigger] e.lines()[i]).contains(
        '\n',
    ) by {
        lemma_lines(e, i);
    }
    text::lemma_split_ended(e.lines(), '\n');
    assert(e.frame().drop_last() =~= text::ended(e.lines(), '\n'));
}

proof fn lemma_no_returns(s: Seq<char>)
    requires
        !s.contains('\r'),
    ensures
        without_returns(s) == s,
{
    if s.len() > 0 {
        assert(s[s.len() - 1] == s.last());
    }
}

/// What a client rejoins from the `data:` lines of a frame is the payload that
/// was sent, line for line.
pub proof fn a_payload_rejoins(data: Seq<char>)
    requires
        !data.contains('\r'),
    ensures
        text::join(
            data_lines(data).map_values(|line: Seq<char>| line.skip("data:"@.len() as int)),
            seq!['\n'],
        ) == data,
{
    let pieces = text::split(data, '\n');
    let read = data_lines(data).map_values(|line: Seq<char>| line.skip("data:"@.len() as int));
    assert forall|i: int| 0 <= i < pieces.len() implies read[i] == pieces[i] by {
        text::lemma_split_within(data, '\n', i, '\r');
        lemma_no_returns(pieces[i]);
        assert(read[i] =~= pieces[i]);
    }
    assert(read =~= pieces);
    text::lemma_join_split(data, '\n');
}

} // verus!
