//! The request type handed to extractors.

use crate::headers;
use crate::headers::{Fields, Headers};
use crate::router::PathParams;
use crate::text;
use vstd::prelude::*;
use vstd::string::*;

verus! {

/// An incoming request, with its body already buffered.
///
/// Buffering up front is what lets extractors be composable and order-free: any
/// extractor can read the body, and reading it twice is free. The size ceiling
/// of the application is enforced before a byte is read.
pub struct Request {
    pub method: String,
    pub path: String,
    pub query: Option<String>,
    pub headers: Headers,
    pub body: Vec<u8>,
    pub params: PathParams,
    pub matched_path: Option<String>,
    /// The peer address, as text, when the server was able to determine one.
    pub peer: Option<String>,
}

/// A request, as a value.
#[verifier::ext_equal]
pub struct RequestModel {
    pub method: Seq<char>,
    pub path: Seq<char>,
    pub query: Option<Seq<char>>,
    pub headers: Fields,
    pub body: Seq<u8>,
    pub params: Seq<(Seq<char>, Seq<char>)>,
    pub matched_path: Option<Seq<char>>,
    pub peer: Option<Seq<char>>,
}

impl View for Request {
    type V = RequestModel;

    open spec fn view(&self) -> RequestModel {
        RequestModel {
            method: self.method@,
            path: self.path@,
            query: text::opt(self.query),
            headers: self.headers@,
            body: self.body@,
            params: headers::pairs_model(self.params@),
            matched_path: text::opt(self.matched_path),
            peer: text::opt(self.peer),
        }
    }
}

/// The first value of a captured parameter, at or after `from`.
pub open spec fn param_from(
    params: Seq<(Seq<char>, Seq<char>)>,
    name: Seq<char>,
    from: int,
) -> Option<Seq<char>>
    decreases params.len() - from,
{
    if from < 0 || from >= params.len() {
        None
    } else if params[from].0 == name {
        Some(params[from].1)
    } else {
        param_from(params, name, from + 1)
    }
}

/// A content type with parameters stripped, in small letters.
pub open spec fn media_type(raw: Seq<char>) -> Seq<char> {
    let essence = match text::split_once(raw, ';') {
        Some((front, _)) => front,
        None => raw,
    };
    text::ascii_lower(text::trim(essence))
}

impl RequestModel {
    pub open spec fn content_type(self) -> Option<Seq<char>> {
        match headers::first(self.headers, "content-type"@) {
            Some(raw) => Some(media_type(raw)),
            None => None,
        }
    }

    /// The query string, empty where there is none.
    pub open spec fn query_text(self) -> Seq<char> {
        match self.query {
            Some(q) => q,
            None => ""@,
        }
    }
}

impl Request {
    /// Builds a request. The server constructs these itself.
    pub fn new(
        method: &str,
        path: &str,
        query: Option<String>,
        headers: Headers,
        body: Vec<u8>,
    ) -> (r: Self)
        ensures
            r@ == (RequestModel {
                method: method@,
                path: path@,
                query: text::opt(query),
                headers: headers@,
                body: body@,
                params: Seq::empty(),
                matched_path: None,
                peer: None,
            }),
    {
        let r = Request {
            method: method.to_owned(),
            path: path.to_owned(),
            query,
            headers,
            body,
            params: Vec::new(),
            matched_path: None,
            peer: None,
        };
        assert(r@.params =~= Seq::<(Seq<char>, Seq<char>)>::empty());
        r
    }

    pub fn method(&self) -> (method: &str)
        ensures
            method@ == self@.method,
    {
        self.method.as_str()
    }

    pub fn headers(&self) -> (headers: &Headers)
        ensures
            headers@ == self@.headers,
    {
        &self.headers
    }

    /// The request path, without query string.
    pub fn path(&self) -> (path: &str)
        ensures
            path@ == self@.path,
    {
        self.path.as_str()
    }

    /// The raw query string, without the leading `?`.
    pub fn query(&self) -> (query: &str)
        ensures
            query@ == self@.query_text(),
    {
        match &self.query {
            Some(q) => q.as_str(),
            None => "",
        }
    }

    /// The route template that matched, e.g. `/users/{id}`.
    ///
    /// Metrics want this rather than the path, which would produce unbounded
    /// cardinality.
    pub fn matched_path(&self) -> (path: Option<&str>)
        ensures
            match path {
                Some(p) => self@.matched_path == Some(p@),
                None => self@.matched_path is None,
            },
    {
        match &self.matched_path {
            Some(p) => Some(p.as_str()),
            None => None,
        }
    }

    /// The buffered request body.
    pub fn body(&self) -> (body: &Vec<u8>)
        ensures
            body@ == self@.body,
    {
        &self.body
    }

    /// A path parameter captured by the router.
    pub fn param(&self, name: &str) -> (value: Option<&str>)
        ensures
            match value {
                Some(v) => param_from(self@.params, name@, 0) == Some(v@),
                None => param_from(self@.params, name@, 0) is None,
            },
    {
        let ghost model = self@.params;
        for i in 0..self.params.len()
            invariant
                model == self@.params,
                param_from(model, name@, 0) == param_from(model, name@, i as int),
        {
            assert(model[i as int] == (self.params@[i as int].0@, self.params@[i as int].1@));
            if text::same(self.params[i].0.as_str(), name) {
                return Some(self.params[i].1.as_str());
            }
        }
        None
    }

    /// All captured path parameters, in the order they appear in the template.
    pub fn params(&self) -> (params: &PathParams)
        ensures
            headers::pairs_model(params@) == self@.params,
    {
        &self.params
    }

    /// The peer address, when the server was able to determine one.
    pub fn peer_addr(&self) -> (peer: Option<&str>)
        ensures
            match peer {
                Some(p) => self@.peer == Some(p@),
                None => self@.peer is None,
            },
    {
        match &self.peer {
            Some(p) => Some(p.as_str()),
            None => None,
        }
    }

    /// The value of a header, if present and plain text.
    pub fn header(&self, name: &str) -> (value: Option<String>)
        ensures
            text::opt(value) == headers::first(self@.headers, name@),
    {
        self.headers.get(name)
    }

    /// The `Content-Type` with parameters stripped, lowercased.
    pub fn content_type(&self) -> (out: Option<String>)
        ensures
            text::opt(out) == self@.content_type(),
    {
        let raw = match self.header("content-type") {
            Some(raw) => raw,
            None => return None,
        };
        let essence = match text::cut(raw.as_str(), ';') {
            Some((front, _)) => front,
            None => raw,
        };
        Some(text::lower_text(text::trim_text(essence.as_str()).as_str()))
    }
}

} // verus!
