//! What crosses the wire in headers and event streams.

use crate::extract::cookies;
use crate::headers;
use crate::headers::Fields;
use crate::middleware::cors::{CorsModel, DecisionModel, OriginsModel};
use crate::request::RequestModel;
use crate::sse;
use crate::sse::EventModel;
use crate::text;
use vstd::prelude::*;
use vstd::string::*;
use vstd::utf8::*;

verus! {

// ---------------------------------------------------------------------------
// cross-origin requests
// ---------------------------------------------------------------------------

/// The values that a client finds under a header name.
pub open spec fn sent(fields: Fields, name: Seq<char>) -> Seq<Seq<u8>> {
    headers::under(fields, text::ascii_lower(name))
}

/// One value.
pub open spec fn alone(value: Seq<char>) -> Seq<Seq<u8>> {
    seq![encode_utf8(value)]
}

/// A list as a header carries it, or what was there where there is no list to
/// carry.
pub open spec fn listed(values: Seq<Seq<char>>, before: Seq<Seq<u8>>) -> Seq<Seq<u8>> {
    if values.len() > 0 && headers::is_value(text::join(values, ", "@)) {
        alone(text::join(values, ", "@))
    } else {
        before
    }
}

proof fn lemma_names_are_small()
    ensures
        text::ascii_lower("access-control-allow-origin"@) == "access-control-allow-origin"@,
        text::ascii_lower("access-control-allow-credentials"@) == "access-control-allow-credentials"@,
        text::ascii_lower("access-control-expose-headers"@) == "access-control-expose-headers"@,
        text::ascii_lower("access-control-allow-methods"@) == "access-control-allow-methods"@,
        text::ascii_lower("access-control-allow-headers"@) == "access-control-allow-headers"@,
        text::ascii_lower("access-control-max-age"@) == "access-control-max-age"@,
        text::ascii_lower("vary"@) == "vary"@,
{
    reveal_strlit("access-control-allow-origin");
    assert(text::ascii_lower("access-control-allow-origin"@) =~= "access-control-allow-origin"@);
    reveal_strlit("access-control-allow-credentials");
    assert(text::ascii_lower("access-control-allow-credentials"@) =~= "access-control-allow-credentials"@);
    reveal_strlit("access-control-expose-headers");
    assert(text::ascii_lower("access-control-expose-headers"@) =~= "access-control-expose-headers"@);
    reveal_strlit("access-control-allow-methods");
    assert(text::ascii_lower("access-control-allow-methods"@) =~= "access-control-allow-methods"@);
    reveal_strlit("access-control-allow-headers");
    assert(text::ascii_lower("access-control-allow-headers"@) =~= "access-control-allow-headers"@);
    reveal_strlit("access-control-max-age");
    assert(text::ascii_lower("access-control-max-age"@) =~= "access-control-max-age"@);
    reveal_strlit("vary");
    assert(text::ascii_lower("vary"@) =~= "vary"@);
}

/// The headers of a response to an allowed origin: the origin that was allowed,
/// leave to send credentials where that was configured, what scripts may read,
/// and a note that the response differs by origin wherever it does; every other
/// header stays as it was.
pub proof fn an_allowed_origin_is_told(
    c: CorsModel,
    fields: Fields,
    origin: Seq<char>,
    name: Seq<char>,
)
    ensures
        ({
            let after = c.applied(fields, origin);
            &&& sent(after, "access-control-allow-origin"@) == alone(origin)
            &&& sent(after, "access-control-allow-credentials"@) == if c.credentials {
                alone("true"@)
            } else {
                sent(fields, "access-control-allow-credentials"@)
            }
            &&& sent(after, "vary"@) == if c.origins is List || c.credentials {
                sent(fields, "vary"@).push(encode_utf8("Origin"@))
            } else {
                sent(fields, "vary"@)
            }
            &&& sent(after, "access-control-expose-headers"@) == listed(
                c.exposed_headers,
                sent(fields, "access-control-expose-headers"@),
            )
            &&& text::ascii_lower(name) != "access-control-allow-origin"@ && text::ascii_lower(name)
                != "access-control-allow-credentials"@ && text::ascii_lower(name) != "vary"@
                && text::ascii_lower(name) != "access-control-expose-headers"@ ==> sent(
                after,
                name,
            ) == sent(fields, name)
        }),
{
    lemma_names_are_small();
    reveal_strlit("access-control-allow-origin");
    assert("access-control-allow-origin"@.len() == 27);
    reveal_strlit("access-control-allow-credentials");
    assert("access-control-allow-credentials"@.len() == 32);
    reveal_strlit("access-control-expose-headers");
    assert("access-control-expose-headers"@.len() == 29);
    reveal_strlit("access-control-allow-methods");
    assert("access-control-allow-methods"@.len() == 28);
    assert("access-control-allow-methods"@[21] == 'm');
    reveal_strlit("access-control-allow-headers");
    assert("access-control-allow-headers"@.len() == 28);
    assert("access-control-allow-headers"@[21] == 'h');
    reveal_strlit("access-control-max-age");
    assert("access-control-max-age"@.len() == 22);
    reveal_strlit("vary");
    assert("vary"@.len() == 4);
}

/// The answer to a preflight says which origin, which methods and which headers
/// are allowed, and for how many seconds.
pub proof fn a_preflight_says_what_is_allowed(c: CorsModel, origin: Seq<char>)
    ensures
        ({
            let after = c.preflight(origin);
            &&& sent(after, "access-control-allow-origin"@) == alone(origin)
            &&& sent(after, "access-control-allow-methods"@) == listed(c.methods, Seq::empty())
            &&& sent(after, "access-control-allow-headers"@) == listed(
                c.allowed_headers,
                Seq::empty(),
            )
            &&& sent(after, "access-control-max-age"@) == match c.max_age {
                Some(nanos) => alone(text::decimal(nanos / 1_000_000_000)),
                None => Seq::empty(),
            }
            &&& sent(after, "access-control-allow-credentials"@) == if c.credentials {
                alone("true"@)
            } else {
                Seq::empty()
            }
        }),
{
    let none = headers::no_fields();
    an_allowed_origin_is_told(c, none, origin, "access-control-allow-methods"@);
    an_allowed_origin_is_told(c, none, origin, "access-control-allow-headers"@);
    an_allowed_origin_is_told(c, none, origin, "access-control-max-age"@);
    lemma_names_are_small();
    reveal_strlit("access-control-allow-origin");
    assert("access-control-allow-origin"@.len() == 27);
    reveal_strlit("access-control-allow-credentials");
    assert("access-control-allow-credentials"@.len() == 32);
    reveal_strlit("access-control-expose-headers");
    assert("access-control-expose-headers"@.len() == 29);
    reveal_strlit("access-control-allow-methods");
    assert("access-control-allow-methods"@.len() == 28);
    assert("access-control-allow-methods"@[21] == 'm');
    reveal_strlit("access-control-allow-headers");
    assert("access-control-allow-headers"@.len() == 28);
    assert("access-control-allow-headers"@[21] == 'h');
    reveal_strlit("access-control-max-age");
    assert("access-control-max-age"@.len() == 22);
    reveal_strlit("vary");
    assert("vary"@.len() == 4);
}

/// What is done with a request: one without an origin is left alone, and so is
/// one from an origin that is not allowed, except that its preflight is refused;
/// a preflight from an allowed origin is answered at once, and any other request
/// from there is served and marked.
pub proof fn an_origin_decides_what_is_done<S>(c: CorsModel, req: RequestModel)
    ensures
        ({
            let done = c.decide::<S>(req);
            let origin = headers::first(req.headers, "origin"@);
            &&& origin is None ==> done is Pass
            &&& origin is Some && c.answer_to(origin->0) is None && req.method != "OPTIONS"@
                ==> done is Pass
            &&& origin is Some && c.answer_to(origin->0) is None && req.method == "OPTIONS"@ ==> (
            done matches DecisionModel::Answer(reply) && reply.status == 403)
            &&& origin is Some && c.answer_to(origin->0) is Some && req.method == "OPTIONS"@
                && headers::first(req.headers, "access-control-request-method"@) is Some ==> (
            done matches DecisionModel::Answer(reply) && reply.status == 204 && reply.headers
                == c.preflight(c.answer_to(origin->0)->0) && reply.body is Empty)
            &&& origin is Some && c.answer_to(origin->0) is Some && (req.method != "OPTIONS"@
                || headers::first(req.headers, "access-control-request-method"@) is None) ==> done
                == DecisionModel::<S>::Decorate(c.answer_to(origin->0)->0)
        }),
{
}

/// Without a list every origin is answered with `*`; with one, an origin on it
/// is answered with itself, whatever the case of its letters on the list, and
/// any other gets no answer.
pub proof fn an_origin_is_allowed_by_name(c: CorsModel, list: Seq<Seq<char>>, origin: Seq<char>)
    requires
        !c.credentials,
        headers::is_value(origin),
    ensures
        c.origins is Any ==> c.answer_to(origin) == Some("*"@),
        c.origins == OriginsModel::List(list) && list.contains(origin) ==> c.answer_to(origin)
            == Some(origin),
        c.origins == OriginsModel::List(list) && c.answer_to(origin) is Some ==> exists|i: int|
            0 <= i < list.len() && text::ascii_lower(#[trigger] list[i]) == text::ascii_lower(
                origin,
            ),
        CorsModel::permissive().answer_to(origin) == Some("*"@),
        CorsModel::permissive().max_age == Some(3600nat * 1_000_000_000),
{
    if list.contains(origin) {
        let i = choose|i: int| 0 <= i < list.len() && list[i] == origin;
        assert(text::ascii_lower(list[i]) == text::ascii_lower(origin));
    }
}

// ---------------------------------------------------------------------------
// event streams
// ---------------------------------------------------------------------------

/// The values of the lines that begin with a field's name, in order: what a
/// client gathers for the field.
pub open spec fn gathered(lines: Seq<Seq<char>>, field: Seq<char>) -> Seq<Seq<char>>
    decreases lines.len(),
{
    if lines.len() == 0 {
        Seq::empty()
    } else {
        let before = gathered(lines.drop_last(), field);
        let line = lines.last();
        if line.len() >= field.len() && line.take(field.len() as int) == field {
            before.push(line.skip(field.len() as int))
        } else {
            before
        }
    }
}

proof fn lemma_gathered_concat(a: Seq<Seq<char>>, b: Seq<Seq<char>>, field: Seq<char>)
    ensures
        gathered(a + b, field) == gathered(a, field) + gathered(b, field),
    decreases b.len(),
{
    if b.len() == 0 {
        assert(a + b =~= a);
        assert(gathered(a, field) + gathered(b, field) =~= gathered(a, field));
    } else {
        assert((a + b).drop_last() =~= a + b.drop_last());
        assert((a + b).last() == b.last());
        lemma_gathered_concat(a, b.drop_last(), field);
        let x = gathered(a, field);
        let y = gathered(b.drop_last(), field);
        let v = b.last().skip(field.len() as int);
        assert((x + y).push(v) =~= x + y.push(v));
    }
}

/// Lines that each hold a value behind a prefix.
proof fn lemma_gathered_prefixed(values: Seq<Seq<char>>, prefix: Seq<char>, field: Seq<char>)
    requires
        prefix.len() > 0,
        field.len() > 0,
        prefix == field || prefix[0] != field[0],
    ensures
        gathered(values.map_values(|v: Seq<char>| prefix + v), field) == if prefix == field {
            values
        } else {
            Seq::empty()
        },
    decreases values.len(),
{
    let f = |v: Seq<char>| prefix + v;
    let lines = values.map_values(f);
    if values.len() == 0 {
        assert(gathered(lines, field) =~= Seq::empty());
        assert(values =~= Seq::empty());
    } else {
        lemma_gathered_prefixed(values.drop_last(), prefix, field);
        assert(lines.drop_last() =~= values.drop_last().map_values(f));
        let line = lines.last();
        assert(line == prefix + values.last());
        assert(line[0] == prefix[0]);
        if prefix == field {
            assert(line.take(field.len() as int) =~= field);
            assert(line.skip(field.len() as int) =~= values.last());
            assert(values.drop_last().push(values.last()) =~= values);
        } else {
            if line.len() >= field.len() && line.take(field.len() as int) == field {
                assert(line.take(field.len() as int)[0] == line[0]);
            }
        }
    }
}

/// A value that may be sent, as a list.
pub open spec fn given(value: Option<Seq<char>>) -> Seq<Seq<char>> {
    match value {
        Some(v) => seq![v],
        None => Seq::empty(),
    }
}

/// Text on one line.
pub open spec fn on_one_line(value: Option<Seq<char>>) -> bool {
    value matches Some(v) ==> !v.contains('\n') && !v.contains('\r')
}

proof fn lemma_field(prefix: Seq<char>, value: Option<Seq<char>>)
    requires
        on_one_line(value),
    ensures
        sse::field(prefix, value) == given(value).map_values(|v: Seq<char>| prefix + v),
{
    if let Some(v) = value {
        assert(sse::sanitised(v) =~= v) by {
            assert forall|i: int| 0 <= i < v.len() implies sse::sanitised(v)[i] == v[i] by {
                assert(v.contains(v[i]));
            }
        }
    }
    assert(sse::field(prefix, value) =~= given(value).map_values(|v: Seq<char>| prefix + v));
}

/// A client gathers from an event what was put into it: the id, the name and
/// the reconnection time in milliseconds where there are any, the payload line
/// by line, and the comment likewise.
pub proof fn an_event_reads_back(e: EventModel)
    requires
        on_one_line(e.id),
        on_one_line(e.name),
        !e.data.contains('\r'),
        e.comment is None,
    ensures
        gathered(e.lines(), "id:"@) == given(e.id),
        gathered(e.lines(), "event:"@) == given(e.name),
        gathered(e.lines(), "data:"@) == text::split(e.data, '\n'),
        gathered(e.lines(), "retry:"@) == match e.retry {
            Some(nanos) => seq![text::decimal(nanos / 1_000_000)],
            None => Seq::empty(),
        },
        gathered(e.lines(), ":"@) == Seq::<Seq<char>>::empty(),
{
    lemma_event(e, "id:"@);
    lemma_event(e, "event:"@);
    lemma_event(e, "data:"@);
    lemma_event(e, "retry:"@);
    lemma_event(e, ":"@);
    lemma_prefixes();
}

/// A comment alone is a comment and nothing else: the client is told nothing.
pub proof fn a_comment_tells_the_client_nothing(text: Seq<char>)
    ensures
        ({
            let e = EventModel { comment: Some(text), ..EventModel::data(Seq::empty()) };
            &&& gathered(e.lines(), ":"@) == text::split(text, '\n')
            &&& gathered(e.lines(), "data:"@).len() == 0
            &&& gathered(e.lines(), "event:"@).len() == 0
            &&& gathered(e.lines(), "id:"@).len() == 0
        }),
{
    lemma_prefixes();
    let e = EventModel { comment: Some(text), ..EventModel::data(Seq::empty()) };
    let pieces = text::split(text, '\n');
    let lines = pieces.map_values(|v: Seq<char>| ":"@ + v);
    assert(e.lines() =~= lines);
    lemma_gathered_prefixed(pieces, ":"@, ":"@);
    lemma_gathered_prefixed(pieces, ":"@, "data:"@);
    lemma_gathered_prefixed(pieces, ":"@, "event:"@);
    lemma_gathered_prefixed(pieces, ":"@, "id:"@);
}

proof fn lemma_prefixes()
    ensures
        "id:"@.len() == 3 && "id:"@[0] == 'i',
        "event:"@.len() == 6 && "event:"@[0] == 'e',
        "data:"@.len() == 5 && "data:"@[0] == 'd',
        "retry:"@.len() == 6 && "retry:"@[0] == 'r',
        ":"@.len() == 1 && ":"@[0] == ':',
{
    reveal_strlit("id:");
    reveal_strlit("event:");
    reveal_strlit("data:");
    reveal_strlit("retry:");
    reveal_strlit(":");
}

proof fn lemma_event(e: EventModel, field: Seq<char>)
    requires
        on_one_line(e.id),
        on_one_line(e.name),
        !e.data.contains('\r'),
        e.comment is None,
        field == "id:"@ || field == "event:"@ || field == "data:"@ || field == "retry:"@ || field
            == ":"@,
    ensures
        gathered(e.lines(), field) == if field == "id:"@ {
            given(e.id)
        } else if field == "event:"@ {
            given(e.name)
        } else if field == "data:"@ {
            text::split(e.data, '\n')
        } else if field == "retry:"@ {
            match e.retry {
                Some(nanos) => seq![text::decimal(nanos / 1_000_000)],
                None => Seq::empty(),
            }
        } else {
            Seq::empty()
        },
{
    lemma_prefixes();
    let none = Seq::<Seq<char>>::empty();
    let a = sse::field("id:"@, e.id);
    let b = sse::field("event:"@, e.name);
    let c = e.retry_line();
    let d = sse::data_lines(e.data);
    lemma_field("id:"@, e.id);
    lemma_field("event:"@, e.name);
    lemma_gathered_prefixed(given(e.id), "id:"@, field);
    lemma_gathered_prefixed(given(e.name), "event:"@, field);
    let times = match e.retry {
        Some(nanos) => seq![text::decimal(nanos / 1_000_000)],
        None => Seq::empty(),
    };
    assert(c =~= times.map_values(|v: Seq<char>| "retry:"@ + v));
    lemma_gathered_prefixed(times, "retry:"@, field);
    let pieces = text::split(e.data, '\n');
    assert forall|i: int| 0 <= i < pieces.len() implies sse::without_returns(
        #[trigger] pieces[i],
    ) == pieces[i] by {
        text::lemma_split_within(e.data, '\n', i, '\r');
        let p = pieces[i];
        if p.len() > 0 {
            assert(p.contains(p[p.len() - 1]));
        }
    }
    assert(d =~= pieces.map_values(|v: Seq<char>| "data:"@ + v));
    lemma_gathered_prefixed(pieces, "data:"@, field);
    assert(e.lines() =~= none + a + b + c + d);
    lemma_gathered_concat(none + a + b + c, d, field);
    lemma_gathered_concat(none + a + b, c, field);
    lemma_gathered_concat(none + a, b, field);
    lemma_gathered_concat(none, a, field);
    let ga = gathered(a, field);
    let gb = gathered(b, field);
    let gc = gathered(c, field);
    let gd = gathered(d, field);
    assert(none + ga + gb + gc + gd =~= ga + gb + gc + gd);
    if field == "id:"@ {
        assert(ga + gb + gc + gd =~= ga);
    } else if field == "event:"@ {
        assert(ga + gb + gc + gd =~= gb);
    } else if field == "retry:"@ {
        assert(ga + gb + gc + gd =~= gc);
    } else if field == "data:"@ {
        assert(ga + gb + gc + gd =~= gd);
    } else {
        assert(ga + gb + gc + gd =~= none);
    }
}

// ---------------------------------------------------------------------------
// credentials and cookies
// ---------------------------------------------------------------------------

/// Text without blanks at its ends.
pub open spec fn is_trimmed(s: Seq<char>) -> bool {
    s.len() > 0 && !text::is_white(s.first()) && !text::is_white(s.last())
}

/// A token is read as it was sent behind `Bearer`, whatever the case of that
/// word. Without the header, or with another scheme, the request is refused with
/// 401 and a challenge.
pub proof fn a_bearer_token_reads_back(scheme: Seq<char>, token: Seq<char>)
    requires
        is_trimmed(token),
        !scheme.contains(' '),
    ensures
        text::ascii_lower(scheme) == "bearer"@ ==> cookies::token_in(Some(scheme + " "@ + token))
            is Ok && cookies::token_in(Some(scheme + " "@ + token))->Ok_0 == token,
        text::ascii_lower(scheme) != "bearer"@ ==> cookies::token_in(Some(scheme + " "@ + token))
            is Err && cookies::token_in(Some(scheme + " "@ + token))->Err_0.status == 401,
        cookies::token_in(None) is Err && cookies::token_in(None)->Err_0.status == 401,
        cookies::token_in(Some(scheme)) is Err && cookies::token_in(Some(scheme))->Err_0.status
            == 401,
        sent(cookies::token_in(None)->Err_0.headers, "www-authenticate"@) == alone("Bearer"@),
{
    reveal_strlit(" ");
    reveal_strlit("www-authenticate");
    assert(text::ascii_lower("www-authenticate"@) =~= "www-authenticate"@);
    let raw = scheme + " "@ + token;
    text::lemma_index_of(raw, ' ', 0);
    assert(raw[scheme.len() as int] == ' ');
    let at = text::index_of(raw, ' ', 0)->0;
    if at < scheme.len() {
        assert(scheme[at] == ' ');
    }
    assert(at == scheme.len());
    assert(raw.take(at) =~= scheme);
    assert(raw.skip(at + 1) =~= token);
    assert(text::trim(token) == token);
    text::lemma_index_of(scheme, ' ', 0);
    if let Some(i) = text::index_of(scheme, ' ', 0) {
        assert(scheme[i] == ' ');
    }
}

/// A cookie as a client sends it.
pub open spec fn cookie_sent(cookie: (Seq<char>, Seq<char>), in_quotes: bool) -> Seq<char> {
    if in_quotes {
        cookie.0 + "=\""@ + cookie.1 + "\""@
    } else {
        cookie.0 + "="@ + cookie.1
    }
}

/// A cookie is read as it was sent, with a space before it or none, in quotes or
/// bare.
pub proof fn a_cookie_reads_back(
    cookie: (Seq<char>, Seq<char>),
    in_quotes: bool,
    spaced: bool,
)
    requires
        is_trimmed(cookie.0),
        !cookie.0.contains('='),
        in_quotes || (is_trimmed(cookie.1) && cookie.1[0] != '"'),
    ensures
        cookies::cookie_of(
            if spaced {
                " "@ + cookie_sent(cookie, in_quotes)
            } else {
                cookie_sent(cookie, in_quotes)
            },
        ) == Some(cookie),
{
    reveal_strlit("=\"");
    reveal_strlit("=");
    reveal_strlit("\"");
    reveal_strlit(" ");
    let s = cookie_sent(cookie, in_quotes);
    let value = if in_quotes {
        seq!['"'] + cookie.1 + seq!['"']
    } else {
        cookie.1
    };
    let n = cookie.0.len() as int;
    assert(s[n] == '=');
    assert(s.skip(n + 1) =~= value);
    assert(s.take(n) =~= cookie.0);
    assert(s.first() == cookie.0.first());
    assert(s.last() == value.last());
    assert(text::trim(s) == s);
    let part = " "@ + s;
    assert(part[0] == ' ');
    assert(part.skip(1) =~= s);
    assert(text::trim(part) == s);
    text::lemma_index_of(s, '=', 0);
    let at = text::index_of(s, '=', 0)->0;
    if at < n {
        assert(cookie.0[at] == '=');
    }
    assert(at == n);
    assert(text::trim(cookie.0) == cookie.0);
    assert(text::trim(value) == value);
    if in_quotes {
        assert(value.subrange(1, value.len() - 1) =~= cookie.1);
    }
}

/// The cookies of a header are read one by one and in order; what is no cookie
/// is passed over.
pub proof fn cookies_are_read_in_order(parts: Seq<Seq<char>>, last: Seq<char>)
    ensures
        cookies::cookies_of(parts.push(last)) == match cookies::cookie_of(last) {
            Some(cookie) => cookies::cookies_of(parts) + seq![cookie],
            None => cookies::cookies_of(parts),
        },
{
    let all = parts.push(last);
    assert(all.drop_last() =~= parts);
    if let Some(cookie) = cookies::cookie_of(last) {
        let before = cookies::cookies_of(parts);
        assert(before.push(cookie) =~= before + seq![cookie]);
    }
}

} // verus!
