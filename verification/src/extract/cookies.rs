//! Cookies and bearer tokens.

use crate::error::{ApiError, Problem};
use crate::extract::multipart;
use crate::headers;
use crate::openapi::ordered::OrderedMap;
use crate::openapi::spec;
use crate::openapi::spec::{OperationModel, RequirementModel, SecurityRequirement};
use crate::operation::{ContextModel, OperationContext, OperationInput};
use crate::request;
use crate::request::Request;
use crate::response;
use crate::text;
use vstd::prelude::*;
use vstd::string::*;

verus! {

// ---------------------------------------------------------------------------
// cookies
// ---------------------------------------------------------------------------

/// The parsed `Cookie` header.
pub struct Cookies(Vec<(String, String)>);

impl View for Cookies {
    type V = Seq<(Seq<char>, Seq<char>)>;

    closed spec fn view(&self) -> Seq<(Seq<char>, Seq<char>)> {
        headers::pairs_model(self.0@)
    }
}

/// The cookie that one part of a header stands for, if it is one.
pub open spec fn cookie_of(part: Seq<char>) -> Option<(Seq<char>, Seq<char>)> {
    match text::split_once(text::trim(part), '=') {
        Some((name, value)) => Some(
            // Cookie values are commonly quoted; callers want the contents, not
            // the quotes.
            (text::trim(name), multipart::between_quotes(text::trim(value))),
        ),
        None => None,
    }
}

/// The cookies of the parts of a header, in order.
pub open spec fn cookies_of(parts: Seq<Seq<char>>) -> Seq<(Seq<char>, Seq<char>)>
    decreases parts.len(),
{
    if parts.len() == 0 {
        Seq::empty()
    } else {
        let before = cookies_of(parts.drop_last());
        match cookie_of(parts.last()) {
            Some(cookie) => before.push(cookie),
            None => before,
        }
    }
}

impl Cookies {
    pub fn get(&self, name: &str) -> (value: Option<&str>)
        ensures
            match value {
                Some(v) => request::param_from(self@, name@, 0) == Some(v@),
                None => request::param_from(self@, name@, 0) is None,
            },
    {
        let ghost model = self@;
        for i in 0..self.0.len()
            invariant
                model == self@,
                request::param_from(model, name@, 0) == request::param_from(
                    model,
                    name@,
                    i as int,
                ),
        {
            assert(model[i as int] == (self.0@[i as int].0@, self.0@[i as int].1@));
            if text::same(self.0[i].0.as_str(), name) {
                return Some(self.0[i].1.as_str());
            }
        }
        None
    }

    /// Every cookie, in order.
    pub fn iter(&self) -> (cookies: &[(String, String)])
        ensures
            headers::pairs_model(cookies@) == self@,
    {
        self.0.as_slice()
    }

    pub fn len(&self) -> (n: usize)
        ensures
            n == self@.len(),
    {
        self.0.len()
    }

    pub fn is_empty(&self) -> (r: bool)
        ensures
            r == (self@.len() == 0),
    {
        self.0.len() == 0
    }

    /// Parses a `Cookie` header value.
    pub fn parse(raw: &str) -> (out: Self)
        ensures
            out@ == cookies_of(text::split(raw@, ';')),
    {
        let parts = text::split_text(raw, ';');
        let ghost model = text::split(raw@, ';');
        let mut out: Vec<(String, String)> = Vec::new();
        assert(model.take(0) =~= Seq::<Seq<char>>::empty());
        assert(headers::pairs_model(out@) =~= Seq::<(Seq<char>, Seq<char>)>::empty());
        for i in 0..parts.len()
            invariant
                model == text::views(parts@),
                headers::pairs_model(out@) == cookies_of(model.take(i as int)),
        {
            assert(model.take(i + 1).drop_last() =~= model.take(i as int));
            assert(model[i as int] == parts@[i as int]@);
            let part = text::trim_text(parts[i].as_str());
            if let Some((name, value)) = text::cut(part.as_str(), '=') {
                let cookie = (
                    text::trim_text(name.as_str()),
                    multipart::strip_quotes(text::trim_text(value.as_str()).as_str()),
                );
                assert(headers::pairs_model(out@.push(cookie)) =~= headers::pairs_model(out@).push(
                    (cookie.0@, cookie.1@),
                ));
                out.push(cookie);
            }
        }
        assert(model.take(model.len() as int) =~= model);
        Cookies(out)
    }

    /// The cookies of a request, none where it carries no header.
    pub fn from_request(req: &Request) -> (out: Self)
        ensures
            out@ == match headers::first(req@.headers, "cookie"@) {
                Some(raw) => cookies_of(text::split(raw, ';')),
                None => Seq::empty(),
            },
    {
        match req.header("cookie") {
            Some(raw) => Cookies::parse(raw.as_str()),
            None => {
                let out = Cookies(Vec::new());
                assert(out@ =~= Seq::<(Seq<char>, Seq<char>)>::empty());
                out
            },
        }
    }
}

impl OperationInput for Cookies {
    open spec fn described(c: ContextModel) -> ContextModel {
        c
    }

    fn describe(ctx: &mut OperationContext) {
    }
}

// ---------------------------------------------------------------------------
// bearer tokens
// ---------------------------------------------------------------------------

/// A bearer token from the `Authorization` header.
///
/// Taking this as an argument also declares the `bearerAuth` security
/// requirement on the operation, and the app registers the scheme for you.
#[derive(Clone, Debug, PartialEq, Eq)]
pub struct Bearer(pub String);

/// The security scheme name [`Bearer`] declares.
pub const BEARER_SCHEME: &'static str = "bearerAuth";

/// A `401` with a challenge.
pub open spec fn challenge(detail: Seq<char>) -> Problem {
    Problem {
        headers: headers::set(headers::no_fields(), "www-authenticate"@, "Bearer"@),
        ..Problem::detailed(401, detail)
    }
}

/// The token in an `Authorization` header, or what is wrong with it.
pub open spec fn token_in(authorization: Option<Seq<char>>) -> Result<Seq<char>, Problem> {
    match authorization {
        None => Err(challenge("Missing Authorization header."@)),
        Some(raw) => match text::split_once(raw, ' ') {
            None => Err(challenge("Malformed Authorization header."@)),
            Some((scheme, token)) => if text::ascii_lower(scheme) != "bearer"@ {
                Err(challenge("Expected a Bearer credential."@))
            } else if text::trim(token).len() == 0 {
                Err(challenge("Bearer token is empty."@))
            } else {
                Ok(text::trim(token))
            },
        },
    }
}

fn unauthorized(detail: &str) -> (e: ApiError)
    ensures
        e@ == challenge(detail@),
{
    proof {
        response::lemma_known_names();
        reveal_strlit("Bearer");
    }
    ApiError::unauthorized(detail).with_header("www-authenticate", "Bearer")
}

impl Bearer {
    /// Reads the token out of a request.
    pub fn from_request(req: &Request) -> (r: Result<Bearer, ApiError>)
        ensures
            match r {
                Ok(bearer) => token_in(headers::first(req@.headers, "authorization"@)) == Ok::<
                    Seq<char>,
                    Problem,
                >(bearer.0@),
                Err(e) => token_in(headers::first(req@.headers, "authorization"@)) == Err::<
                    Seq<char>,
                    Problem,
                >(e@),
            },
    {
        proof {
            reveal_strlit("bearer");
            assert(text::ascii_lower("bearer"@) =~= "bearer"@);
        }
        let raw = match req.header("authorization") {
            Some(raw) => raw,
            None => return Err(unauthorized("Missing Authorization header.")),
        };
        let (scheme, token) = match text::cut(raw.as_str(), ' ') {
            Some(parts) => parts,
            None => return Err(unauthorized("Malformed Authorization header.")),
        };
        if !text::same_ignoring_case(scheme.as_str(), "bearer") {
            return Err(unauthorized("Expected a Bearer credential."));
        }
        let token = text::trim_text(token.as_str());
        if token.as_str().is_empty() {
            return Err(unauthorized("Bearer token is empty."));
        }
        Ok(Bearer(token))
    }
}

/// The requirement of a bearer token, with no scopes.
pub open spec fn bearer_requirement() -> RequirementModel {
    seq![(BEARER_SCHEME@, Seq::<Seq<char>>::empty())]
}

impl OperationInput for Bearer {
    open spec fn described(c: ContextModel) -> ContextModel {
        let before = match c.operation.security {
            Some(list) => list,
            None => Seq::empty(),
        };
        c.with_operation(
            OperationModel { security: Some(before.push(bearer_requirement())), ..c.operation },
        ).with_problem("401"@, "Missing or malformed bearer credential"@)
    }

    fn describe(ctx: &mut OperationContext) {
        let ghost before = ctx@;
        let mut requirement: SecurityRequirement = OrderedMap::new();
        let scopes: Vec<String> = Vec::new();
        assert(text::views(scopes@) =~= Seq::<Seq<char>>::empty());
        requirement.insert(BEARER_SCHEME.to_owned(), scopes);
        assert(spec::requirement(requirement@) =~= bearer_requirement());
        let mut list: Vec<SecurityRequirement> = match ctx.operation.security.take() {
            Some(list) => list,
            None => Vec::new(),
        };
        let ghost earlier = spec::requirement_list(list@);
        assert(before.operation.security is None ==> earlier =~= Seq::<RequirementModel>::empty());
        list.push(requirement);
        assert(spec::requirement_list(list@) =~= earlier.push(bearer_requirement()));
        ctx.operation.security = Some(list);
        ctx.add_problem_response("401", "Missing or malformed bearer credential");
    }
}

} // verus!
