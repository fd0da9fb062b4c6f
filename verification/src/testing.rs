//! Building requests for tests.
//!
//! Nothing here opens a socket: a request goes straight to an extractor, or to
//! the real dispatch path of a service.

use crate::headers;
use crate::headers::{Fields, Headers};
use crate::request::{Request, RequestModel};
use crate::router::PathParams;
use crate::text;
use http::{Method, Uri};
use vstd::prelude::*;
use vstd::string::*;

verus! {

/// The path and the query of a URI, where the text is one.
pub uninterp spec fn uri_parts(uri: Seq<char>) -> Option<(Seq<char>, Option<Seq<char>>)>;

/// `http::Uri::from_str`, with the path and the query of the result: they are
/// a function of the text alone.
#[verifier::external_body]
fn parse_uri(uri: &str) -> (parts: Option<(String, Option<String>)>)
    ensures
        parts_model(parts) == uri_parts(uri@),
{
    let parsed: Uri = uri.parse().ok()?;
    Some((parsed.path().to_owned(), parsed.query().map(|q| q.to_owned())))
}

pub open spec fn parts_model(parts: Option<(String, Option<String>)>) -> Option<
    (Seq<char>, Option<Seq<char>>),
> {
    match parts {
        Some((path, query)) => Some((path@, text::opt(query))),
        None => None,
    }
}

/// A text that is an HTTP method.
pub open spec fn is_method(s: Seq<char>) -> bool {
    s.len() > 0 && forall|i: int| 0 <= i < s.len() ==> headers::is_name_char(#[trigger] s[i])
}

/// `http::Method::from_bytes`: one or more token characters are a method.
#[verifier::external_body]
fn method_allowed(s: &str) -> (r: bool)
    ensures
        r == is_method(s@),
{
    Method::from_bytes(s.as_bytes()).is_ok()
}

/// The fields after several were added, one after the other.
pub open spec fn all_appended(pairs: Seq<(Seq<char>, Seq<char>)>) -> Fields
    decreases pairs.len(),
{
    if pairs.len() == 0 {
        headers::no_fields()
    } else {
        headers::appended(all_appended(pairs.drop_last()), pairs.last().0, pairs.last().1)
    }
}

/// Builds a [`Request`].
pub struct TestRequest {
    pub method: String,
    pub uri: String,
    pub headers: Vec<(String, String)>,
    pub body: Vec<u8>,
    pub params: PathParams,
    pub matched_path: Option<String>,
}

/// A request being built, as a value.
#[verifier::ext_equal]
pub struct TestRequestModel {
    pub method: Seq<char>,
    pub uri: Seq<char>,
    pub headers: Seq<(Seq<char>, Seq<char>)>,
    pub body: Seq<u8>,
    pub params: Seq<(Seq<char>, Seq<char>)>,
    pub matched_path: Option<Seq<char>>,
}

impl View for TestRequest {
    type V = TestRequestModel;

    open spec fn view(&self) -> TestRequestModel {
        TestRequestModel {
            method: self.method@,
            uri: self.uri@,
            headers: headers::pairs_model(self.headers@),
            body: self.body@,
            params: headers::pairs_model(self.params@),
            matched_path: text::opt(self.matched_path),
        }
    }
}

impl TestRequestModel {
    pub open spec fn new() -> TestRequestModel {
        TestRequestModel {
            method: "GET"@,
            uri: "/"@,
            headers: Seq::empty(),
            body: Seq::empty(),
            params: Seq::empty(),
            matched_path: None,
        }
    }

    pub open spec fn with_header(self, name: Seq<char>, value: Seq<char>) -> TestRequestModel {
        TestRequestModel { headers: self.headers.push((name, value)), ..self }
    }

    /// Whether the method and the headers are HTTP syntax, and the headers few
    /// enough for one map.
    pub open spec fn is_http(self) -> bool {
        &&& is_method(self.method)
        &&& headers::all_allowed(self.headers)
        &&& self.headers.len() <= 6000
    }

    /// The request, at a path and a query.
    pub open spec fn request(self, path: Seq<char>, query: Option<Seq<char>>) -> RequestModel {
        RequestModel {
            method: self.method,
            path,
            query,
            headers: all_appended(self.headers),
            body: self.body,
            params: self.params,
            matched_path: self.matched_path,
            peer: None,
        }
    }
}

/// Starts building a request.
pub fn test_request() -> (r: TestRequest)
    ensures
        r@ == TestRequestModel::new(),
{
    TestRequest::new()
}

impl Default for TestRequest {
    fn default() -> (r: Self)
        ensures
            r@ == TestRequestModel::new(),
    {
        Self::new()
    }
}

fn push_pair(list: &mut Vec<(String, String)>, name: &str, value: &str)
    ensures
        headers::pairs_model(final(list)@) == headers::pairs_model(old(list)@).push(
            (name@, value@),
        ),
{
    let ghost before = list@;
    list.push((name.to_owned(), value.to_owned()));
    assert(headers::pairs_model(list@) =~= headers::pairs_model(before).push((name@, value@)));
}

impl TestRequest {
    pub fn new() -> (r: Self)
        ensures
            r@ == TestRequestModel::new(),
    {
        let r = TestRequest {
            method: "GET".to_owned(),
            uri: "/".to_owned(),
            headers: Vec::new(),
            body: Vec::new(),
            params: Vec::new(),
            matched_path: None,
        };
        assert(r@ =~= TestRequestModel::new());
        r
    }

    pub fn method(self, method: &str) -> (r: Self)
        ensures
            r@ == (TestRequestModel { method: text::ascii_upper(method@), ..self@ }),
    {
        let mut r = self;
        r.method = text::upper_text(method);
        r
    }

    pub fn uri(self, uri: &str) -> (r: Self)
        ensures
            r@ == (TestRequestModel { uri: uri@, ..self@ }),
    {
        let mut r = self;
        r.uri = uri.to_owned();
        r
    }

    pub fn header(self, name: &str, value: &str) -> (r: Self)
        ensures
            r@ == self@.with_header(name@, value@),
    {
        let mut r = self;
        push_pair(&mut r.headers, name, value);
        r
    }

    pub fn body(self, body: Vec<u8>) -> (r: Self)
        ensures
            r@ == (TestRequestModel { body: body@, ..self@ }),
    {
        let mut r = self;
        r.body = body;
        r
    }

    /// Sets a JSON body and the matching `Content-Type`.
    pub fn json(self, body: Vec<u8>) -> (r: Self)
        ensures
            r@ == (TestRequestModel { body: body@, ..self@ }).with_header(
                "content-type"@,
                "application/json"@,
            ),
    {
        self.body(body).header("content-type", "application/json")
    }

    /// Sets a form body and the matching `Content-Type`.
    pub fn form(self, body: Vec<u8>) -> (r: Self)
        ensures
            r@ == (TestRequestModel { body: body@, ..self@ }).with_header(
                "content-type"@,
                "application/x-www-form-urlencoded"@,
            ),
    {
        self.body(body).header("content-type", "application/x-www-form-urlencoded")
    }

    /// Pre-populates a path parameter, as the router would.
    pub fn param(self, name: &str, value: &str) -> (r: Self)
        ensures
            r@ == (TestRequestModel { params: self@.params.push((name@, value@)), ..self@ }),
    {
        let mut r = self;
        push_pair(&mut r.params, name, value);
        r
    }

    pub fn matched_path(self, path: &str) -> (r: Self)
        ensures
            r@ == (TestRequestModel { matched_path: Some(path@), ..self@ }),
    {
        let mut r = self;
        r.matched_path = Some(path.to_owned());
        r
    }

    /// Builds the request, at a path and a query.
    pub fn build_at(self, path: &str, query: Option<String>) -> (r: Request)
        requires
            self@.is_http(),
        ensures
            r@ == self@.request(path@, text::opt(query)),
    {
        let mut fields = Headers::new();
        let ghost model = self@.headers;
        assert(model.take(0) =~= Seq::<(Seq<char>, Seq<char>)>::empty());
        for i in 0..self.headers.len()
            invariant
                model == headers::pairs_model(self.headers@),
                headers::all_allowed(model),
                model.len() <= 6000,
                fields@ == all_appended(model.take(i as int)),
                fields@.dom().finite(),
                fields@.dom().len() <= i,
        {
            assert(model.take(i + 1).drop_last() =~= model.take(i as int));
            assert(model[i as int] == (self.headers@[i as int].0@, self.headers@[i as int].1@));
            fields.append(self.headers[i].0.as_str(), self.headers[i].1.as_str());
        }
        assert(model.take(model.len() as int) =~= model);
        let mut r = Request::new(self.method.as_str(), path, query, fields, self.body);
        r.params = self.params;
        r.matched_path = self.matched_path;
        r
    }

    /// Builds the request.
    pub fn build(self) -> (r: Request)
        requires
            self@.is_http(),
            uri_parts(self@.uri) is Some,
        ensures
            r@ == self@.request((uri_parts(self@.uri)->0).0, (uri_parts(self@.uri)->0).1),
    {
        let (path, query) = parse_uri(self.uri.as_str()).unwrap();
        self.build_at(path.as_str(), query)
    }

    /// Builds the request, if the method, the URI and the headers are valid
    /// HTTP syntax.
    pub fn try_build(self) -> (r: Option<Request>)
        ensures
            match r {
                Some(request) => {
                    &&& self@.is_http()
                    &&& uri_parts(self@.uri) is Some
                    &&& request@ == self@.request(
                        (uri_parts(self@.uri)->0).0,
                        (uri_parts(self@.uri)->0).1,
                    )
                },
                None => !self@.is_http() || uri_parts(self@.uri) is None,
            },
    {
        let n: usize = self.headers.len();
        let ghost model = self@.headers;
        if !method_allowed(self.method.as_str()) || n > 6000 {
            return None;
        }
        for i in 0..n
            invariant
                n == self.headers@.len(),
                model == headers::pairs_model(self.headers@),
                model == self@.headers,
                forall|j: int|
                    0 <= j < i ==> headers::is_name((#[trigger] model[j]).0) && headers::is_value(
                        model[j].1,
                    ),
        {
            assert(model[i as int] == (self.headers@[i as int].0@, self.headers@[i as int].1@));
            if !headers::name_allowed(self.headers[i].0.as_str()) || !headers::value_allowed(
                self.headers[i].1.as_str(),
            ) {
                return None;
            }
        }
        if parse_uri(self.uri.as_str()).is_none() {
            return None;
        }
        Some(self.build())
    }
}

} // verus!
