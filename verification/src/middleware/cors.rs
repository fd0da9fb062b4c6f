//! Cross-origin resource sharing.

use crate::body::{BodyModel, ResBody};
use crate::headers;
use crate::headers::{Fields, Headers};
use crate::request::{Request, RequestModel};
use crate::response::{Reply, Response};
use crate::span::Span;
use crate::text;
use vstd::prelude::*;
use vstd::string::*;
use vstd::utf8::*;

verus! {

/// Which origins a [`Cors`] layer accepts.
pub enum CorsOrigins {
    /// Any origin. Incompatible with credentials.
    Any,
    /// An explicit allow-list, compared case-insensitively.
    List(Vec<String>),
}

/// Which origins are accepted, as a value.
pub enum OriginsModel {
    Any,
    List(Seq<Seq<char>>),
}

impl View for CorsOrigins {
    type V = OriginsModel;

    open spec fn view(&self) -> OriginsModel {
        match self {
            CorsOrigins::Any => OriginsModel::Any,
            CorsOrigins::List(list) => OriginsModel::List(text::views(list@)),
        }
    }
}

/// A CORS layer.
///
/// The defaults are the permissive-but-safe ones: any origin, no credentials.
/// Asking for credentials with `Any` origins is a configuration error.
pub struct Cors {
    origins: CorsOrigins,
    methods: Vec<String>,
    allowed_headers: Vec<String>,
    exposed_headers: Vec<String>,
    credentials: bool,
    max_age: Option<Span>,
}

/// A CORS layer, as a value.
#[verifier::ext_equal]
pub struct CorsModel {
    pub origins: OriginsModel,
    pub methods: Seq<Seq<char>>,
    pub allowed_headers: Seq<Seq<char>>,
    pub exposed_headers: Seq<Seq<char>>,
    pub credentials: bool,
    /// In nanoseconds.
    pub max_age: Option<nat>,
}

impl View for Cors {
    type V = CorsModel;

    closed spec fn view(&self) -> CorsModel {
        CorsModel {
            origins: self.origins@,
            methods: text::views(self.methods@),
            allowed_headers: text::views(self.allowed_headers@),
            exposed_headers: text::views(self.exposed_headers@),
            credentials: self.credentials,
            max_age: match self.max_age {
                Some(span) => Some(span@),
                None => None,
            },
        }
    }
}

impl CorsModel {
    pub open spec fn permissive() -> CorsModel {
        CorsModel {
            origins: OriginsModel::Any,
            methods: seq![
                "GET"@,
                "POST"@,
                "PUT"@,
                "PATCH"@,
                "DELETE"@,
                "HEAD"@,
                "OPTIONS"@,
            ],
            allowed_headers: seq!["content-type"@, "authorization"@],
            exposed_headers: Seq::empty(),
            credentials: false,
            max_age: Some(3_600_000_000_000),
        }
    }

    /// Whether an origin is on the allow-list.
    pub open spec fn lists(self, origin: Seq<char>) -> bool {
        match self.origins {
            OriginsModel::Any => false,
            OriginsModel::List(list) => is_among(list, origin),
        }
    }

    /// The value to send back for a given request origin, if it is allowed.
    pub open spec fn answer_to(self, origin: Seq<char>) -> Option<Seq<char>> {
        if self.origins is Any && !self.credentials {
            Some("*"@)
        } else if (self.origins is Any || self.lists(origin)) && headers::is_value(origin) {
            Some(origin)
        } else {
            None
        }
    }

    /// The headers of a response to an allowed origin.
    pub open spec fn applied(self, fields: Fields, origin: Seq<char>) -> Fields {
        let a = headers::set(fields, "access-control-allow-origin"@, origin);
        let b = if self.credentials {
            headers::set(a, "access-control-allow-credentials"@, "true"@)
        } else {
            a
        };
        // The response varies by origin, so caches must not share it.
        let c = if self.origins is List || self.credentials {
            headers::appended(b, "vary"@, "Origin"@)
        } else {
            b
        };
        with_list(c, "access-control-expose-headers"@, self.exposed_headers)
    }

    /// The headers of a preflight response.
    pub open spec fn preflight(self, origin: Seq<char>) -> Fields {
        let a = self.applied(headers::no_fields(), origin);
        let b = with_list(a, "access-control-allow-methods"@, self.methods);
        let c = with_list(b, "access-control-allow-headers"@, self.allowed_headers);
        match self.max_age {
            Some(nanos) => headers::set(
                c,
                "access-control-max-age"@,
                text::decimal(nanos / 1_000_000_000),
            ),
            None => c,
        }
    }
}

/// Whether an origin is in a list, whatever the case of its letters.
pub open spec fn is_among(list: Seq<Seq<char>>, origin: Seq<char>) -> bool {
    exists|i: int|
        0 <= i < list.len() && text::ascii_lower(#[trigger] list[i]) == text::ascii_lower(origin)
}

/// The fields with a list of values under a name, where there are any and they
/// can be a header value.
pub open spec fn with_list(fields: Fields, name: Seq<char>, values: Seq<Seq<char>>) -> Fields {
    let joined = text::join(values, ", "@);
    if values.len() > 0 && headers::is_value(joined) {
        headers::set(fields, name, joined)
    } else {
        fields
    }
}

proof fn lemma_cors_names()
    ensures
        headers::is_name("access-control-allow-origin"@),
        headers::is_name("access-control-allow-credentials"@),
        headers::is_name("access-control-expose-headers"@),
        headers::is_name("access-control-allow-methods"@),
        headers::is_name("access-control-allow-headers"@),
        headers::is_name("access-control-max-age"@),
        headers::is_name("vary"@),
        headers::is_value("true"@),
        headers::is_value("Origin"@),
        headers::is_value("*"@),
{
    reveal_strlit("access-control-allow-origin");
    reveal_strlit("access-control-allow-credentials");
    reveal_strlit("access-control-expose-headers");
    reveal_strlit("access-control-allow-methods");
    reveal_strlit("access-control-allow-headers");
    reveal_strlit("access-control-max-age");
    reveal_strlit("vary");
    reveal_strlit("true");
    reveal_strlit("Origin");
    reveal_strlit("*");
}

proof fn lemma_decimal_value(n: nat)
    ensures
        headers::is_value(text::decimal(n)),
    decreases n,
{
    if n >= 10 {
        lemma_decimal_value(n / 10);
        let front = text::decimal(n / 10);
        let all = text::decimal(n);
        assert forall|i: int| 0 <= i < all.len() implies (32 <= (#[trigger] all[i]) as int
            && all[i] as int != 127) || all[i] as int == 9 by {
            if i < front.len() {
                assert(all[i] == front[i]);
            }
        }
    }
}

fn texts(list: &[&str]) -> (out: Vec<String>)
    ensures
        text::views(out@) == list@.map_values(|s: &str| s@),
{
    let mut out: Vec<String> = Vec::new();
    for i in 0..list.len()
        invariant
            out@.len() == i,
            forall|j: int| 0 <= j < i ==> (#[trigger] out@[j])@ == list@[j]@,
    {
        out.push(list[i].to_owned());
    }
    assert(text::views(out@) =~= list@.map_values(|s: &str| s@));
    out
}

/// Sets a header to a list of values.
fn set_list(fields: &mut Headers, name: &str, values: &Vec<String>)
    requires
        headers::is_name(name@),
        headers::has_room(old(fields)@),
    ensures
        final(fields)@ == with_list(old(fields)@, name@, text::views(values@)),
{
    if values.len() == 0 {
        return ;
    }
    assert(text::views(values@).skip(0) =~= text::views(values@));
    let joined = text::join_text(values, 0, ", ");
    fields.insert(name, joined.as_str());
}

/// What to do with a request, decided before the handler runs.
pub enum Decision<S> {
    /// Run the handler and leave its response alone.
    Pass,
    /// Run the handler, then put the CORS headers on its response, with this
    /// origin.
    Decorate(String),
    /// Answer without running the handler.
    Answer(Response<S>),
}

/// What to do with a request, as a value.
#[verifier::ext_equal]
pub enum DecisionModel<S> {
    Pass,
    Decorate(Seq<char>),
    Answer(Reply<S>),
}

impl<S> View for Decision<S> {
    type V = DecisionModel<S>;

    open spec fn view(&self) -> DecisionModel<S> {
        match self {
            Decision::Pass => DecisionModel::Pass,
            Decision::Decorate(origin) => DecisionModel::Decorate(origin@),
            Decision::Answer(response) => DecisionModel::Answer(response@),
        }
    }
}

impl CorsModel {
    /// What to do with a request. One without an origin is not cross-origin at
    /// all. An origin that is not allowed simply gets no CORS headers, and the
    /// browser enforces the rest: refusing it here would break non-browser
    /// clients that send an `Origin` header.
    pub open spec fn decide<S>(self, req: RequestModel) -> DecisionModel<S> {
        let options = req.method == "OPTIONS"@;
        match headers::first(req.headers, "origin"@) {
            None => DecisionModel::Pass,
            Some(origin) => match self.answer_to(origin) {
                None => if options {
                    DecisionModel::Answer(Reply::new(BodyModel::Empty).with_status(403))
                } else {
                    DecisionModel::Pass
                },
                Some(allowed) => if options && headers::first(
                    req.headers,
                    "access-control-request-method"@,
                ) is Some {
                    DecisionModel::Answer(
                        Reply {
                            headers: self.preflight(allowed),
                            ..Reply::new(BodyModel::Empty).with_status(204)
                        },
                    )
                } else {
                    DecisionModel::Decorate(allowed)
                },
            },
        }
    }
}

impl Cors {
    /// Any origin, the common methods, no credentials.
    pub fn permissive() -> (out: Self)
        ensures
            out@ == CorsModel::permissive(),
    {
        let out = Cors {
            origins: CorsOrigins::Any,
            methods: texts(&["GET", "POST", "PUT", "PATCH", "DELETE", "HEAD", "OPTIONS"]),
            allowed_headers: texts(&["content-type", "authorization"]),
            exposed_headers: Vec::new(),
            credentials: false,
            max_age: Some(Span::from_secs(3600)),
        };
        assert(out@ =~= CorsModel::permissive());
        out
    }

    /// Restricts to an explicit origin list.
    pub fn allow_origins(self, origins: Vec<String>) -> (out: Self)
        ensures
            out@ == (CorsModel { origins: OriginsModel::List(text::views(origins@)), ..self@ }),
    {
        let mut out = self;
        out.origins = CorsOrigins::List(origins);
        out
    }

    pub fn allow_methods(self, methods: Vec<String>) -> (out: Self)
        ensures
            out@ == (CorsModel { methods: text::views(methods@), ..self@ }),
    {
        let mut out = self;
        out.methods = methods;
        out
    }

    pub fn allow_headers(self, allowed: Vec<String>) -> (out: Self)
        ensures
            out@ == (CorsModel { allowed_headers: text::views(allowed@), ..self@ }),
    {
        let mut out = self;
        out.allowed_headers = allowed;
        out
    }

    pub fn expose_headers(self, exposed: Vec<String>) -> (out: Self)
        ensures
            out@ == (CorsModel { exposed_headers: text::views(exposed@), ..self@ }),
    {
        let mut out = self;
        out.exposed_headers = exposed;
        out
    }

    /// Allows cookies and `Authorization` to be sent cross-origin.
    ///
    /// Credentials cannot be combined with [`CorsOrigins::Any`]: a browser drops
    /// a response that does so.
    pub fn allow_credentials(self, allow: bool) -> (out: Self)
        requires
            !(allow && self@.origins is Any),
        ensures
            out@ == (CorsModel { credentials: allow, ..self@ }),
    {
        let mut out = self;
        out.credentials = allow;
        out
    }

    /// Whether the origins are a wildcard.
    pub fn is_wildcard(&self) -> (r: bool)
        ensures
            r == self@.origins is Any,
    {
        match &self.origins {
            CorsOrigins::Any => true,
            CorsOrigins::List(_) => false,
        }
    }

    /// How long a preflight may be remembered, in seconds.
    pub fn max_age(self, max_age: Span) -> (out: Self)
        ensures
            out@ == (CorsModel { max_age: Some(max_age@), ..self@ }),
    {
        let mut out = self;
        out.max_age = Some(max_age);
        out
    }

    /// The value to send back for a given request origin, if it is allowed.
    pub fn allowed_origin(&self, origin: &str) -> (out: Option<String>)
        ensures
            text::opt(out) == self@.answer_to(origin@),
    {
        let listed = match &self.origins {
            CorsOrigins::Any => {
                if !self.credentials {
                    return Some("*".to_owned());
                }
                true
            },
            CorsOrigins::List(list) => {
                let ghost views = text::views(list@);
                let mut found = false;
                for i in 0..list.len()
                    invariant
                        views == text::views(list@),
                        found == is_among(views.take(i as int), origin@),
                {
                    let ghost now = views.take(i as int);
                    let ghost next = views.take(i + 1);
                    assert(next[i as int] == list@[i as int]@);
                    proof {
                        if is_among(now, origin@) {
                            let j = choose|j: int|
                                0 <= j < now.len() && text::ascii_lower(#[trigger] now[j])
                                    == text::ascii_lower(origin@);
                            assert(next[j] == now[j]);
                        }
                        if is_among(next, origin@) {
                            let j = choose|j: int|
                                0 <= j < next.len() && text::ascii_lower(#[trigger] next[j])
                                    == text::ascii_lower(origin@);
                            if j < i {
                                assert(now[j] == next[j]);
                            }
                        }
                    }
                    if text::same_ignoring_case(list[i].as_str(), origin) {
                        found = true;
                    }
                }
                assert(views.take(views.len() as int) =~= views);
                assert(found == self@.lists(origin@));
                found
            },
        };
        if listed && headers::value_allowed(origin) {
            Some(origin.to_owned())
        } else {
            None
        }
    }

    fn apply(&self, fields: &mut Headers, origin: &str)
        requires
            headers::is_value(origin@),
            old(fields)@.dom().finite(),
            old(fields)@.dom().len() + 4 <= 6000,
        ensures
            final(fields)@ == self@.applied(old(fields)@, origin@),
            final(fields)@.dom().finite(),
            final(fields)@.dom().len() <= old(fields)@.dom().len() + 4,
    {
        proof {
            lemma_cors_names();
        }
        fields.insert("access-control-allow-origin", origin);
        if self.credentials {
            fields.insert("access-control-allow-credentials", "true");
        }
        let listed = match &self.origins {
            CorsOrigins::Any => false,
            CorsOrigins::List(_) => true,
        };
        if listed || self.credentials {
            fields.append("vary", "Origin");
        }
        set_list(fields, "access-control-expose-headers", &self.exposed_headers);
    }

    /// Decides what to do with a request before the handler runs.
    pub fn receive<S>(&self, req: &Request) -> (decision: Decision<S>)
        ensures
            decision@ == self@.decide::<S>(req@),
    {
        proof {
            lemma_cors_names();
        }
        let origin = match req.header("origin") {
            Some(origin) => origin,
            None => return Decision::Pass,
        };
        let options = text::same(req.method(), "OPTIONS");
        let allowed = match self.allowed_origin(origin.as_str()) {
            Some(allowed) => allowed,
            None => {
                if options {
                    let mut response = Response::new(ResBody::Empty);
                    response.status = 403;
                    return Decision::Answer(response);
                } else {
                    return Decision::Pass;
                }
            },
        };
        if options && req.header("access-control-request-method").is_some() {
            let mut response = Response::new(ResBody::Empty);
            response.status = 204;
            self.apply(&mut response.headers, allowed.as_str());
            set_list(&mut response.headers, "access-control-allow-methods", &self.methods);
            set_list(
                &mut response.headers,
                "access-control-allow-headers",
                &self.allowed_headers,
            );
            if let Some(max_age) = self.max_age {
                let seconds: u64 = max_age.as_secs();
                proof {
                    lemma_decimal_value(seconds as nat);
                }
                let count = text::decimal_text(seconds);
                response.headers.insert("access-control-max-age", count.as_str());
            }
            return Decision::Answer(response);
        }
        Decision::Decorate(allowed)
    }

    /// Puts the CORS headers on a handler's response.
    pub fn decorate<S>(&self, response: Response<S>, origin: &str) -> (out: Response<S>)
        requires
            headers::is_value(origin@),
            response@.headers.dom().finite(),
            response@.headers.dom().len() + 4 <= 6000,
        ensures
            out@ == (Reply {
                headers: self@.applied(response@.headers, origin@),
                ..response@
            }),
    {
        let mut response = response;
        self.apply(&mut response.headers, origin);
        response
    }
}

impl Default for Cors {
    fn default() -> (out: Self)
        ensures
            out@ == CorsModel::permissive(),
    {
        Cors::permissive()
    }
}

/// A layer as it can be configured: no credentials with a wildcard.
pub open spec fn is_sound(c: CorsModel) -> bool {
    !(c.credentials && c.origins is Any)
}

/// A response that allows credentials names the origin: a wildcard is never
/// paired with credentials.
pub proof fn credentials_never_meet_a_wildcard(c: CorsModel, origin: Seq<char>)
    requires
        is_sound(c),
        c.credentials,
        c.answer_to(origin) is Some,
    ensures
        c.answer_to(origin) == Some(origin),
        c.lists(origin),
{
}

/// An origin that is not on the list is never sent back.
pub proof fn only_listed_origins_are_reflected(c: CorsModel, origin: Seq<char>)
    requires
        c.origins is List,
    ensures
        c.answer_to(origin) is Some <==> c.lists(origin) && headers::is_value(origin),
{
}

/// What is decided for a request always carries an origin that can be a header
/// value.
pub proof fn a_decorated_origin_is_a_header_value<S>(c: CorsModel, req: RequestModel)
    ensures
        c.decide::<S>(req) matches DecisionModel::Decorate(origin) ==> headers::is_value(origin),
{
    lemma_cors_names();
}

} // verus!
