//! Turning handler return values into HTTP responses.

use crate::body::{BodyModel, ResBody};
use crate::error;
use crate::error::{ApiError, ErrorSource, Problem};
use crate::headers;
use crate::json;
use crate::headers::{Fields, Headers};
use crate::openapi::spec;
use crate::text;
use vstd::prelude::*;
use vstd::string::*;
use vstd::utf8::*;

verus! {

/// The response produced by a handler. `S` is the type of a streamed body.
pub struct Response<S> {
    pub status: u16,
    pub headers: Headers,
    pub body: ResBody<S>,
    /// What caused an error response, so that layers around the handler can log
    /// it. It is never sent.
    pub source: Option<ErrorSource>,
}

/// A response, as a value.
#[verifier::ext_equal]
pub struct Reply<S> {
    pub status: u16,
    pub headers: Fields,
    pub body: BodyModel<S>,
    pub source: Option<Seq<char>>,
}

impl<S> View for Response<S> {
    type V = Reply<S>;

    open spec fn view(&self) -> Reply<S> {
        Reply {
            status: self.status,
            headers: self.headers@,
            body: self.body@,
            source: error::cause(self.source),
        }
    }
}

impl<S> Reply<S> {
    /// A `200` with this body.
    pub open spec fn new(body: BodyModel<S>) -> Reply<S> {
        Reply { status: 200, headers: headers::no_fields(), body, source: None }
    }

    pub open spec fn with_status(self, status: u16) -> Reply<S> {
        Reply { status, ..self }
    }

    pub open spec fn with_header(self, name: Seq<char>, value: Seq<char>) -> Reply<S> {
        Reply { headers: headers::set(self.headers, name, value), ..self }
    }

    /// A `200` with a body of this media type.
    pub open spec fn of_type(body: BodyModel<S>, media_type: Seq<char>) -> Reply<S> {
        Reply::new(body).with_header("content-type"@, media_type)
    }

    /// The response an error becomes.
    pub open spec fn problem(p: Problem) -> Reply<S> {
        Reply {
            status: p.status,
            headers: if headers::under(p.headers, "content-type"@).len() > 0 {
                p.headers
            } else {
                headers::set(p.headers, "content-type"@, error::PROBLEM_JSON@)
            },
            body: BodyModel::full(encode_utf8(json::written(p.document()))),
            source: p.source,
        }
    }
}

impl<S> Response<S> {
    pub fn new(body: ResBody<S>) -> (r: Self)
        ensures
            r@ == Reply::new(body@),
    {
        Response { status: 200, headers: Headers::new(), body, source: None }
    }

    /// Puts a header on the response, where the value can be one and there is
    /// room for it.
    pub fn set_header(&mut self, name: &str, value: &str) -> (done: bool)
        ensures
            done ==> headers::is_name(name@) && headers::is_value(value@) && final(self)@ == old(
                self,
            )@.with_header(name@, value@),
            !done ==> final(self)@ == old(self)@,
            headers::is_name(name@) && headers::is_value(value@) && headers::has_room(
                old(self)@.headers,
            ) ==> done,
    {
        self.headers.insert(name, value)
    }

    /// A `200` with a body of this media type.
    pub fn of_type(body: ResBody<S>, media_type: &str) -> (r: Self)
        requires
            headers::is_value(media_type@),
        ensures
            r@ == Reply::of_type(body@, media_type@),
    {
        proof {
            lemma_known_names();
        }
        let mut r = Response::new(body);
        r.set_header("content-type", media_type);
        r
    }
}

/// The header names used here are header names, in small letters.
pub proof fn lemma_known_names()
    ensures
        headers::is_name("content-type"@),
        text::ascii_lower("content-type"@) == "content-type"@,
        headers::is_name("location"@),
        text::ascii_lower("location"@) == "location"@,
        headers::is_name("allow"@),
        text::ascii_lower("allow"@) == "allow"@,
        headers::is_name("cache-control"@),
        text::ascii_lower("cache-control"@) == "cache-control"@,
        headers::is_name("www-authenticate"@),
        text::ascii_lower("www-authenticate"@) == "www-authenticate"@,
{
    reveal_strlit("content-type");
    reveal_strlit("location");
    reveal_strlit("allow");
    reveal_strlit("cache-control");
    reveal_strlit("www-authenticate");
    assert(text::ascii_lower("content-type"@) =~= "content-type"@);
    assert(text::ascii_lower("location"@) =~= "location"@);
    assert(text::ascii_lower("allow"@) =~= "allow"@);
    assert(text::ascii_lower("cache-control"@) =~= "cache-control"@);
    assert(text::ascii_lower("www-authenticate"@) =~= "www-authenticate"@);
}

/// The media types used here can be header values.
pub proof fn lemma_known_types()
    ensures
        headers::is_value("application/json"@),
        headers::is_value("application/octet-stream"@),
        headers::is_value("text/plain; charset=utf-8"@),
        headers::is_value("text/html; charset=utf-8"@),
        headers::is_value("text/event-stream"@),
        headers::is_value(error::PROBLEM_JSON@),
{
    reveal_strlit("application/json");
    reveal_strlit("application/octet-stream");
    reveal_strlit("text/plain; charset=utf-8");
    reveal_strlit("text/html; charset=utf-8");
    reveal_strlit("text/event-stream");
    reveal_strlit("application/problem+json");
}

/// A type that can become an HTTP response.
///
/// Implementing this is how you teach the framework about a custom response
/// shape. Pair it with [`OperationOutput`] so the documentation stays in step.
pub trait IntoResponse<S>: Sized {
    /// Whether there is room for the headers it sets.
    spec fn fits(self) -> bool;

    /// The response it becomes.
    spec fn response(self) -> Reply<S>;

    fn into_response(self) -> (r: Response<S>)
        requires
            self.fits(),
        ensures
            r@ == self.response(),
    ;
}

impl<S> IntoResponse<S> for Response<S> {
    open spec fn fits(self) -> bool {
        true
    }

    open spec fn response(self) -> Reply<S> {
        self@
    }

    fn into_response(self) -> Response<S> {
        self
    }
}

impl<S> IntoResponse<S> for ResBody<S> {
    open spec fn fits(self) -> bool {
        true
    }

    open spec fn response(self) -> Reply<S> {
        Reply::new(self@)
    }

    fn into_response(self) -> Response<S> {
        Response::new(self)
    }
}

/// An HTTP status code.
#[derive(Clone, Copy, Debug, PartialEq, Eq, Structural)]
pub struct StatusCode(pub u16);

impl<S> IntoResponse<S> for StatusCode {
    open spec fn fits(self) -> bool {
        true
    }

    open spec fn response(self) -> Reply<S> {
        Reply::new(BodyModel::Empty).with_status(self.0)
    }

    fn into_response(self) -> Response<S> {
        let mut r = Response::new(ResBody::Empty);
        r.status = self.0;
        r
    }
}

impl<S> IntoResponse<S> for () {
    open spec fn fits(self) -> bool {
        true
    }

    open spec fn response(self) -> Reply<S> {
        Reply::new(BodyModel::Empty).with_status(204)
    }

    fn into_response(self) -> Response<S> {
        let mut r = Response::new(ResBody::Empty);
        r.status = 204;
        r
    }
}

impl<S> IntoResponse<S> for String {
    open spec fn fits(self) -> bool {
        true
    }

    open spec fn response(self) -> Reply<S> {
        Reply::of_type(BodyModel::full(encode_utf8(self@)), "text/plain; charset=utf-8"@)
    }

    fn into_response(self) -> Response<S> {
        proof {
            lemma_known_types();
        }
        Response::of_type(ResBody::full(self.as_str().as_bytes_vec()), "text/plain; charset=utf-8")
    }
}

impl<S> IntoResponse<S> for &'static str {
    open spec fn fits(self) -> bool {
        true
    }

    open spec fn response(self) -> Reply<S> {
        Reply::of_type(BodyModel::full(encode_utf8(self@)), "text/plain; charset=utf-8"@)
    }

    fn into_response(self) -> Response<S> {
        proof {
            lemma_known_types();
        }
        Response::of_type(ResBody::full(self.as_bytes_vec()), "text/plain; charset=utf-8")
    }
}

impl<S> IntoResponse<S> for Vec<u8> {
    open spec fn fits(self) -> bool {
        true
    }

    open spec fn response(self) -> Reply<S> {
        Reply::of_type(BodyModel::full(self@), "application/octet-stream"@)
    }

    fn into_response(self) -> Response<S> {
        proof {
            lemma_known_types();
        }
        Response::of_type(ResBody::full(self), "application/octet-stream")
    }
}

impl<S, T: IntoResponse<S>, E: IntoResponse<S>> IntoResponse<S> for Result<T, E> {
    open spec fn fits(self) -> bool {
        match self {
            Ok(value) => value.fits(),
            Err(error) => error.fits(),
        }
    }

    open spec fn response(self) -> Reply<S> {
        match self {
            Ok(value) => value.response(),
            Err(error) => error.response(),
        }
    }

    fn into_response(self) -> Response<S> {
        match self {
            Ok(value) => value.into_response(),
            Err(error) => error.into_response(),
        }
    }
}

impl<S> IntoResponse<S> for ApiError {
    open spec fn fits(self) -> bool {
        headers::has_room(self@.headers)
    }

    open spec fn response(self) -> Reply<S> {
        Reply::problem(self@)
    }

    fn into_response(self) -> Response<S> {
        proof {
            lemma_known_names();
            lemma_known_types();
        }
        let status = self.status();
        let payload = self.to_problem_json().write();
        let source = match self.source() {
            Some(s) => Some(ErrorSource(s.to_owned())),
            None => None,
        };
        let mut fields = self.into_headers();
        if !fields.has("content-type") {
            fields.insert("content-type", error::PROBLEM_JSON);
        }
        Response { status, headers: fields, body: ResBody::full(payload.as_str().as_bytes_vec()), source }
    }
}

// ---------------------------------------------------------------------------
// wrappers
// ---------------------------------------------------------------------------

/// Overrides the status code of an inner response.
pub struct WithStatus<T>(pub StatusCode, pub T);

impl<S, T: IntoResponse<S>> IntoResponse<S> for WithStatus<T> {
    open spec fn fits(self) -> bool {
        self.1.fits()
    }

    open spec fn response(self) -> Reply<S> {
        self.1.response().with_status(self.0.0)
    }

    fn into_response(self) -> Response<S> {
        let status = self.0.0;
        let mut r = self.1.into_response();
        r.status = status;
        r
    }
}

/// `(StatusCode, T)` is the terse form of [`WithStatus`].
impl<S, T: IntoResponse<S>> IntoResponse<S> for (StatusCode, T) {
    open spec fn fits(self) -> bool {
        self.1.fits()
    }

    open spec fn response(self) -> Reply<S> {
        self.1.response().with_status(self.0.0)
    }

    fn into_response(self) -> Response<S> {
        WithStatus(self.0, self.1).into_response()
    }
}

/// Attaches extra headers to an inner response.
pub struct WithHeaders<T> {
    pairs: Vec<(String, String)>,
    inner: T,
}

/// The pairs that are header syntax.
pub open spec fn allowed_pairs(pairs: Seq<(Seq<char>, Seq<char>)>) -> Seq<(Seq<char>, Seq<char>)>
    decreases pairs.len(),
{
    if pairs.len() == 0 {
        Seq::empty()
    } else {
        let before = allowed_pairs(pairs.drop_last());
        if headers::is_name(pairs.last().0) && headers::is_value(pairs.last().1) {
            before.push(pairs.last())
        } else {
            before
        }
    }
}

impl<T> WithHeaders<T> {
    #[verifier::type_invariant]
    spec fn wf(&self) -> bool {
        headers::all_allowed(headers::pairs_model(self.pairs@))
    }

    /// The headers it attaches, later ones winning over earlier ones.
    pub closed spec fn pairs(self) -> Seq<(Seq<char>, Seq<char>)> {
        headers::pairs_model(self.pairs@)
    }

    pub closed spec fn inner(self) -> T {
        self.inner
    }

    /// Builds from name/value pairs, skipping any that are not valid header
    /// syntax.
    pub fn from_pairs(pairs: Vec<(String, String)>, inner: T) -> (out: Self)
        ensures
            out.pairs() == allowed_pairs(headers::pairs_model(pairs@)),
            out.inner() == inner,
    {
        let ghost model = headers::pairs_model(pairs@);
        let mut kept: Vec<(String, String)> = Vec::new();
        assert(model.take(0) =~= Seq::<(Seq<char>, Seq<char>)>::empty());
        assert(headers::pairs_model(kept@) =~= Seq::<(Seq<char>, Seq<char>)>::empty());
        for pair in it: pairs
            invariant
                model == headers::pairs_model(it.seq()),
                headers::pairs_model(kept@) == allowed_pairs(model.take(it.index() as int)),
                headers::all_allowed(headers::pairs_model(kept@)),
        {
            let ghost k = it.index() as int;
            assert(model.take(k + 1).drop_last() =~= model.take(k));
            assert(model.take(k + 1).last() == (pair.0@, pair.1@));
            if headers::name_allowed(pair.0.as_str()) && headers::value_allowed(pair.1.as_str()) {
                assert(headers::pairs_model(kept@.push(pair)) =~= headers::pairs_model(kept@).push(
                    (pair.0@, pair.1@),
                ));
                kept.push(pair);
            }
        }
        assert(model.take(model.len() as int) =~= model);
        WithHeaders { pairs: kept, inner }
    }
}

impl<S, T: IntoResponse<S>> IntoResponse<S> for WithHeaders<T> {
    open spec fn fits(self) -> bool {
        &&& self.inner().fits()
        &&& self.inner().response().headers.dom().finite()
        &&& self.inner().response().headers.dom().len() + self.pairs().len() <= 6000
    }

    open spec fn response(self) -> Reply<S> {
        let inner = self.inner().response();
        Reply { headers: headers::all_set(inner.headers, self.pairs()), ..inner }
    }

    fn into_response(self) -> Response<S> {
        proof {
            use_type_invariant(&self);
        }
        let mut r = self.inner.into_response();
        r.headers.insert_all(&self.pairs);
        r
    }
}

/// `201 Created`, optionally with a `Location` header.
pub struct Created<T> {
    pub body: T,
    pub location: Option<String>,
}

impl<T> Created<T> {
    pub fn new(body: T) -> (out: Self)
        ensures
            out.body == body,
            out.location is None,
    {
        Created { body, location: None }
    }

    /// `201` plus `Location: <uri>`.
    pub fn at(location: &str, body: T) -> (out: Self)
        ensures
            out.body == body,
            text::opt(out.location) == Some(location@),
    {
        Created { body, location: Some(location.to_owned()) }
    }
}

impl<S, T: IntoResponse<S>> IntoResponse<S> for Created<T> {
    open spec fn fits(self) -> bool {
        self.body.fits() && headers::has_room(self.body.response().headers)
    }

    open spec fn response(self) -> Reply<S> {
        let created = self.body.response().with_status(201);
        match self.location {
            Some(location) => if headers::is_value(location@) {
                created.with_header("location"@, location@)
            } else {
                created
            },
            None => created,
        }
    }

    fn into_response(self) -> Response<S> {
        proof {
            lemma_known_names();
        }
        let mut r = self.body.into_response();
        r.status = 201;
        if let Some(location) = self.location {
            r.set_header("location", location.as_str());
        }
        r
    }
}

/// `202 Accepted` with a body.
pub struct Accepted<T>(pub T);

impl<S, T: IntoResponse<S>> IntoResponse<S> for Accepted<T> {
    open spec fn fits(self) -> bool {
        self.0.fits()
    }

    open spec fn response(self) -> Reply<S> {
        self.0.response().with_status(202)
    }

    fn into_response(self) -> Response<S> {
        WithStatus(StatusCode(202), self.0).into_response()
    }
}

/// `204 No Content`.
#[derive(Clone, Copy, Debug)]
pub struct NoContent;

impl<S> IntoResponse<S> for NoContent {
    open spec fn fits(self) -> bool {
        true
    }

    open spec fn response(self) -> Reply<S> {
        Reply::new(BodyModel::Empty).with_status(204)
    }

    fn into_response(self) -> Response<S> {
        StatusCode(204).into_response()
    }
}

/// An HTML document.
pub struct Html<T>(pub T);

impl<S> IntoResponse<S> for Html<String> {
    open spec fn fits(self) -> bool {
        true
    }

    open spec fn response(self) -> Reply<S> {
        Reply::of_type(BodyModel::full(encode_utf8(self.0@)), "text/html; charset=utf-8"@)
    }

    fn into_response(self) -> Response<S> {
        proof {
            lemma_known_types();
        }
        Response::of_type(ResBody::full(self.0.as_str().as_bytes_vec()), "text/html; charset=utf-8")
    }
}

impl<S> IntoResponse<S> for Html<ResBody<S>> {
    open spec fn fits(self) -> bool {
        true
    }

    open spec fn response(self) -> Reply<S> {
        Reply::of_type(self.0@, "text/html; charset=utf-8"@)
    }

    fn into_response(self) -> Response<S> {
        proof {
            lemma_known_types();
        }
        Response::of_type(self.0, "text/html; charset=utf-8")
    }
}

/// A `3xx` redirect.
pub struct Redirect {
    pub status: u16,
    pub location: String,
}

impl Redirect {
    /// `303 See Other`: the right answer after a successful POST.
    pub fn see_other(location: &str) -> (out: Self)
        ensures
            out.status == 303 && out.location@ == location@,
    {
        Redirect { status: 303, location: location.to_owned() }
    }

    /// `307 Temporary Redirect`, which preserves the method and body.
    pub fn temporary(location: &str) -> (out: Self)
        ensures
            out.status == 307 && out.location@ == location@,
    {
        Redirect { status: 307, location: location.to_owned() }
    }

    /// `308 Permanent Redirect`, which preserves the method and body.
    pub fn permanent(location: &str) -> (out: Self)
        ensures
            out.status == 308 && out.location@ == location@,
    {
        Redirect { status: 308, location: location.to_owned() }
    }
}

impl<S> IntoResponse<S> for Redirect {
    open spec fn fits(self) -> bool {
        true
    }

    /// A location that cannot be a header value is a programming error, and
    /// silently emitting a redirect to nowhere is worse than a 500.
    open spec fn response(self) -> Reply<S> {
        if headers::is_value(self.location@) {
            Reply::new(BodyModel::Empty).with_status(self.status).with_header(
                "location"@,
                self.location@,
            )
        } else {
            Reply::problem(
                Problem::internal("redirect location is not a valid header value"@),
            )
        }
    }

    fn into_response(self) -> Response<S> {
        proof {
            lemma_known_names();
        }
        let mut r = Response::new(ResBody::Empty);
        r.status = self.status;
        if r.set_header("location", self.location.as_str()) {
            r
        } else {
            ApiError::internal("redirect location is not a valid header value").into_response()
        }
    }
}

} // verus!
