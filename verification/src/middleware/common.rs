//! The layers almost every service ends up wanting.

use crate::error::{ApiError, Problem};
use crate::headers;
use crate::request::Request;
use crate::response::{IntoResponse, Reply, Response};
use crate::span;
use crate::span::Span;
use crate::text;
use vstd::prelude::*;
use vstd::string::*;
use vstd::utf8::*;

verus! {

// ---------------------------------------------------------------------------
// request ids
// ---------------------------------------------------------------------------

/// The correlation id for a request.
#[derive(Clone, Debug, PartialEq, Eq)]
pub struct RequestIdValue(pub String);

/// Propagates an inbound `x-request-id`, or takes a fresh one, and echoes it on
/// the response.
///
/// Trusting a client-supplied id is the default because it is what makes
/// tracing across services work; [`RequestId::always_generate`] turns that off
/// for edge-facing servers where the header is attacker-controlled.
pub struct RequestId {
    header: String,
    trust_inbound: bool,
}

/// A request id layer, as a value.
#[verifier::ext_equal]
pub struct RequestIdModel {
    pub header: Seq<char>,
    pub trust_inbound: bool,
}

impl View for RequestId {
    type V = RequestIdModel;

    closed spec fn view(&self) -> RequestIdModel {
        RequestIdModel { header: self.header@, trust_inbound: self.trust_inbound }
    }
}

/// A visible ASCII character, or a space.
pub open spec fn is_id_char(c: char) -> bool {
    ' ' <= c && c <= '~'
}

/// An inbound id that may be used. A header echoed into a response must be a
/// legal header value, and an unbounded id is a log-injection risk.
pub open spec fn is_usable_id(id: Seq<char>) -> bool {
    &&& 0 < id.len() <= 128
    &&& forall|i: int| 0 <= i < id.len() ==> is_id_char(#[trigger] id[i])
}

impl RequestIdModel {
    /// The id of a request: a usable inbound one where those are trusted, and
    /// otherwise a fresh one.
    pub open spec fn id_of(self, inbound: Option<Seq<char>>, fresh: Seq<char>) -> Seq<char> {
        match inbound {
            Some(id) => if self.trust_inbound && is_usable_id(id) {
                id
            } else {
                fresh
            },
            None => fresh,
        }
    }
}

fn usable(id: &str) -> (r: bool)
    ensures
        r == is_usable_id(id@),
{
    let v = text::chars(id);
    let n: usize = v.len();
    if n == 0 || n > 128 {
        return false;
    }
    for i in 0..n
        invariant
            v@ == id@,
            n == v@.len(),
            forall|j: int| 0 <= j < i ==> is_id_char(#[trigger] id@[j]),
    {
        let c = v[i];
        if !(' ' <= c && c <= '~') {
            assert(!is_id_char(id@[i as int]));
            return false;
        }
    }
    true
}

impl RequestId {
    pub fn new() -> (out: Self)
        ensures
            out@ == (RequestIdModel { header: "x-request-id"@, trust_inbound: true }),
    {
        RequestId { header: "x-request-id".to_owned(), trust_inbound: true }
    }

    /// Ignores any inbound value and always takes a fresh id.
    pub fn always_generate(self) -> (out: Self)
        ensures
            out@ == (RequestIdModel { trust_inbound: false, ..self@ }),
    {
        let mut out = self;
        out.trust_inbound = false;
        out
    }

    /// Uses a different header name.
    pub fn header(self, name: &str) -> (out: Self)
        ensures
            out@ == (RequestIdModel { header: name@, ..self@ }),
    {
        let mut out = self;
        out.header = name.to_owned();
        out
    }

    /// The id for a request, given a fresh one.
    pub fn choose_id(&self, req: &Request, fresh: String) -> (id: RequestIdValue)
        ensures
            id.0@ == self@.id_of(headers::first(req@.headers, self@.header), fresh@),
    {
        if self.trust_inbound {
            if let Some(id) = req.header(self.header.as_str()) {
                if usable(id.as_str()) {
                    return RequestIdValue(id);
                }
            }
        }
        RequestIdValue(fresh)
    }

    /// Echoes the id on the response, where it can be a header value.
    pub fn echo<S>(&self, response: Response<S>, id: &RequestIdValue) -> (out: Response<S>)
        requires
            headers::has_room(response@.headers),
        ensures
            out@ == if headers::is_name(self@.header) && headers::is_value(id.0@) {
                response@.with_header(self@.header, id.0@)
            } else {
                response@
            },
    {
        let mut response = response;
        response.set_header(self.header.as_str(), id.0.as_str());
        response
    }
}

impl Default for RequestId {
    fn default() -> (out: Self)
        ensures
            out@ == (RequestIdModel { header: "x-request-id"@, trust_inbound: true }),
    {
        RequestId::new()
    }
}

/// A number in hexadecimal, with at least `width` digits.
pub open spec fn hex(n: nat, width: nat) -> Seq<char>
    decreases n, width,
{
    if n < 16 && width <= 1 {
        seq![text::hex_digit(n)]
    } else {
        hex(n / 16, if width > 0 { (width - 1) as nat } else { 0 }).push(text::hex_digit(n % 16))
    }
}

/// Writes a number in hexadecimal, with at least `width` digits.
fn hex_text(n: u64, width: u64) -> (out: String)
    ensures
        out@ == hex(n as nat, width as nat),
    decreases n, width,
{
    let d: u8 = (n % 16) as u8;
    let digit = if d < 10 {
        (48 + d) as char
    } else {
        (87 + d) as char
    };
    if n < 16 && width <= 1 {
        let mut out = String::new();
        out.push(digit);
        assert(out@ =~= seq![text::hex_digit(n as nat)]);
        out
    } else {
        let narrower: u64 = if width > 0 {
            width - 1
        } else {
            0
        };
        let mut out = hex_text(n / 16, narrower);
        out.push(digit);
        out
    }
}

/// A short, collision-resistant-enough id: process entropy plus a counter.
pub fn fresh_id(seed: u64, count: u64) -> (id: String)
    ensures
        id@ == hex(seed as nat, 16) + hex(count as nat, 8),
{
    let mut id = hex_text(seed, 16);
    id.append(hex_text(count, 8).as_str());
    id
}

proof fn lemma_hex_len(n: nat, width: nat)
    ensures
        hex(n, width).len() >= 1,
        hex(n, width).len() >= width,
    decreases n, width,
{
    if !(n < 16 && width <= 1) {
        lemma_hex_len(n / 16, if width > 0 { (width - 1) as nat } else { 0 });
    }
}

proof fn lemma_hex_injective(a: nat, b: nat, width: nat)
    requires
        hex(a, width) == hex(b, width),
    ensures
        a == b,
    decreases a, width,
{
    lemma_hex_len(a, width);
    lemma_hex_len(b, width);
    let x = hex(a, width);
    let y = hex(b, width);
    let narrower = if width > 0 { (width - 1) as nat } else { 0 };
    let end_a = a < 16 && width <= 1;
    let end_b = b < 16 && width <= 1;
    assert(x.last() == text::hex_digit(a % 16));
    assert(y.last() == text::hex_digit(b % 16));
    assert(a % 16 == b % 16);
    if !end_a {
        lemma_hex_len(a / 16, narrower);
    }
    if !end_b {
        lemma_hex_len(b / 16, narrower);
    }
    if !end_a && !end_b {
        assert(x.drop_last() =~= hex(a / 16, narrower));
        assert(y.drop_last() =~= hex(b / 16, narrower));
        lemma_hex_injective(a / 16, b / 16, narrower);
    }
}

/// Ids minted in one process differ: under one seed, two counts give two ids.
pub proof fn fresh_ids_are_unique(seed: u64, a: u64, b: u64)
    requires
        a != b,
    ensures
        hex(seed as nat, 16) + hex(a as nat, 8) != hex(seed as nat, 16) + hex(b as nat, 8),
{
    let front = hex(seed as nat, 16);
    let x = front + hex(a as nat, 8);
    let y = front + hex(b as nat, 8);
    if x == y {
        assert(x.skip(front.len() as int) =~= hex(a as nat, 8));
        assert(y.skip(front.len() as int) =~= hex(b as nat, 8));
        lemma_hex_injective(a as nat, b as nat, 8);
    }
}

/// An inbound id that is echoed is short and can be a header value.
pub proof fn an_echoed_inbound_id_is_harmless(
    layer: RequestIdModel,
    inbound: Seq<char>,
    fresh: Seq<char>,
)
    requires
        layer.id_of(Some(inbound), fresh) != fresh,
    ensures
        layer.trust_inbound,
        layer.id_of(Some(inbound), fresh) == inbound,
        inbound.len() <= 128,
        headers::is_value(inbound),
        headers::is_visible(encode_utf8(inbound)),
{
    headers::lemma_visible(inbound);
}

// ---------------------------------------------------------------------------
// timeouts and panics
// ---------------------------------------------------------------------------

/// Fails a request that outruns its budget with `504 Gateway Timeout`.
pub struct Timeout {
    pub budget: Span,
}

impl Timeout {
    pub fn new(budget: Span) -> (out: Self)
        ensures
            out.budget == budget,
    {
        Timeout { budget }
    }

    /// A budget in seconds.
    pub fn seconds(seconds: u64) -> (out: Self)
        ensures
            out.budget@ == seconds * 1_000_000_000,
    {
        Timeout { budget: Span::from_secs(seconds) }
    }

    /// The response to a request: what the handler gave, if it was in time.
    pub fn outcome<S>(&self, given: Option<Response<S>>) -> (r: Response<S>)
        ensures
            r@ == match given {
                Some(response) => response@,
                None => Reply::problem(
                    Problem::detailed(
                        504,
                        "The request exceeded its "@ + span::duration_shown(self.budget@)
                            + " budget."@,
                    ),
                ),
            },
    {
        match given {
            Some(response) => response,
            None => {
                let mut detail = "The request exceeded its ".to_owned();
                detail.append(self.budget.shown().as_str());
                detail.append(" budget.");
                ApiError::new(504).with_detail(detail.as_str()).into_response()
            },
        }
    }
}

/// Turns a panicking handler into a `500` instead of a dropped connection.
///
/// A panic in one request should not take down the connection. This layer is
/// mounted by default.
#[derive(Clone, Copy, Debug)]
pub struct CatchPanic;

/// What a handler came to.
pub enum Outcome<S> {
    Done(Response<S>),
    /// It panicked, with a message where the panic carried text.
    Panicked(Option<String>),
}

/// The cause recorded for a panic.
pub open spec fn panic_cause(matched_path: Option<Seq<char>>, message: Option<Seq<char>>) -> Seq<
    char,
> {
    let place = match matched_path {
        Some(path) => path,
        None => "<unmatched>"@,
    };
    let words = match message {
        Some(m) => m,
        None => "handler panicked"@,
    };
    "panic in `"@ + place + "`: "@ + words
}

impl CatchPanic {
    /// The response to a request.
    pub fn outcome<S>(&self, matched_path: Option<&str>, outcome: Outcome<S>) -> (r: Response<S>)
        ensures
            r@ == match outcome {
                Outcome::Done(response) => response@,
                Outcome::Panicked(message) => Reply::problem(
                    Problem::internal(
                        panic_cause(
                            match matched_path {
                                Some(path) => Some(path@),
                                None => None,
                            },
                            text::opt(message),
                        ),
                    ),
                ),
            },
    {
        match outcome {
            Outcome::Done(response) => response,
            Outcome::Panicked(message) => {
                let mut cause = "panic in `".to_owned();
                match matched_path {
                    Some(path) => cause.append(path),
                    None => cause.append("<unmatched>"),
                }
                cause.append("`: ");
                match message {
                    Some(m) => cause.append(m.as_str()),
                    None => cause.append("handler panicked"),
                }
                ApiError::internal(cause.as_str()).into_response()
            },
        }
    }
}

// ---------------------------------------------------------------------------
// logging
// ---------------------------------------------------------------------------

/// What a logger reports.
pub struct RequestLog {
    pub method: String,
    pub path: String,
    /// The route template, which is the safe thing to use as a metric label.
    pub matched_path: Option<String>,
    pub status: u16,
    /// How long the request took.
    pub elapsed: Span,
    pub request_id: Option<String>,
}

/// What is known of a request before it is handled.
pub struct Logger {
    method: String,
    path: String,
    matched_path: Option<String>,
    request_id: Option<String>,
}

impl Logger {
    pub closed spec fn method(self) -> Seq<char> {
        self.method@
    }

    pub closed spec fn path(self) -> Seq<char> {
        self.path@
    }

    pub closed spec fn matched_path(self) -> Option<Seq<char>> {
        text::opt(self.matched_path)
    }

    pub closed spec fn request_id(self) -> Option<Seq<char>> {
        text::opt(self.request_id)
    }

    /// Notes what is to be reported of a request.
    pub fn with(req: &Request, request_id: Option<&RequestIdValue>) -> (log: Self)
        ensures
            log.method() == req@.method,
            log.path() == req@.path,
            log.matched_path() == req@.matched_path,
            log.request_id() == match request_id {
                Some(id) => Some(id.0@),
                None => None,
            },
    {
        let matched_path = match req.matched_path() {
            Some(path) => Some(path.to_owned()),
            None => None,
        };
        let request_id = match request_id {
            Some(id) => Some(id.0.clone()),
            None => None,
        };
        Logger {
            method: req.method().to_owned(),
            path: req.path().to_owned(),
            matched_path,
            request_id,
        }
    }

    /// The record of a request, once it has been answered.
    pub fn record<S>(self, response: &Response<S>, elapsed: Span) -> (log: RequestLog)
        ensures
            log.method@ == self.method(),
            log.path@ == self.path(),
            text::opt(log.matched_path) == self.matched_path(),
            text::opt(log.request_id) == self.request_id(),
            log.status == response@.status,
            log.elapsed == elapsed,
    {
        RequestLog {
            method: self.method,
            path: self.path,
            matched_path: self.matched_path,
            status: response.status,
            elapsed,
            request_id: self.request_id,
        }
    }
}

impl RequestLog {
    /// Whether the request is logged as a failure.
    pub fn is_failure(&self) -> (r: bool)
        ensures
            r == (self.status >= 500),
    {
        self.status >= 500
    }
}

} // verus!
