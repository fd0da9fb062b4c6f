//! What is answered, and what a client reads in it.

use crate::app::service;
use crate::body::BodyModel;
use crate::error;
use crate::error::{FieldFailure, Problem};
use crate::headers;
use crate::json;
use crate::json::ValueModel;
use crate::laws::documents::{held, read};
use crate::openapi::ordered;
use crate::openapi::write::Members;
use crate::request::RequestModel;
use crate::response::Reply;
use crate::router;
use crate::router::Route;
use crate::text;
use vstd::prelude::*;
use vstd::string::*;
use vstd::utf8::*;

verus! {

broadcast proof fn lemma_held_push(m: Members, k: Seq<char>, v: ValueModel, key: Seq<char>)
    ensures
        #[trigger] held(m.push((k, v)), key) == if k == key {
            Some(v)
        } else {
            held(m, key)
        },
{
    reveal_with_fuel(held, 2);
    assert(m.push((k, v)).drop_last() =~= m);
}

broadcast proof fn lemma_held_nothing(key: Seq<char>)
    ensures
        #[trigger] held(Seq::<(Seq<char>, ValueModel)>::empty(), key) is None,
{
    reveal(held);
}

// ---------------------------------------------------------------------------
// problem details
// ---------------------------------------------------------------------------

/// A problem document says each thing under the name that RFC 9457 has for it,
/// and nothing else.
pub proof fn a_problem_is_written_under_its_names(p: Problem)
    requires
        p.extensions.len() == 0,
    ensures
        read(p.document(), "type"@) == Some(
            ValueModel::String(
                match p.type_uri {
                    Some(uri) => uri,
                    None => "about:blank"@,
                },
            ),
        ),
        read(p.document(), "title"@) == Some(ValueModel::String(p.title)),
        read(p.document(), "status"@) == Some(ValueModel::Number(text::decimal(p.status as nat))),
        read(p.document(), "detail"@) == match p.detail {
            Some(d) => Some(ValueModel::String(d)),
            None => None,
        },
        read(p.document(), "instance"@) == match p.instance {
            Some(i) => Some(ValueModel::String(i)),
            None => None,
        },
        p.errors.len() == 0 ==> read(p.document(), "errors"@) is None,
        p.errors.len() > 0 ==> (read(p.document(), "errors"@) matches Some(
            ValueModel::Array(list),
        ) && list.len() == p.errors.len() && forall|i: int|
            0 <= i < list.len() ==> #[trigger] list[i] == p.errors[i].json()),
        forall|key: Seq<char>|
            (#[trigger] read(p.document(), key)) is Some ==> key == "type"@ || key == "title"@
                || key == "status"@ || key == "detail"@ || key == "instance"@ || key == "errors"@,
{
    broadcast use {lemma_held_push, lemma_held_nothing};

    reveal_strlit("type");
    assert("type"@.len() == 4);
    reveal_strlit("title");
    assert("title"@.len() == 5);
    reveal_strlit("status");
    assert("status"@.len() == 6);
    assert("status"@[0] == 's');
    reveal_strlit("detail");
    assert("detail"@.len() == 6);
    assert("detail"@[0] == 'd');
    reveal_strlit("instance");
    assert("instance"@.len() == 8);
    reveal_strlit("errors");
    assert("errors"@.len() == 6);
    assert("errors"@[0] == 'e');
    assert(error::with_members(p.members(), p.extensions) == p.members());
    let none = Seq::<(Seq<char>, ValueModel)>::empty();
    let uri = match p.type_uri {
        Some(uri) => uri,
        None => "about:blank"@,
    };
    let a = none.push(("type"@, ValueModel::String(uri))).push(
        ("title"@, ValueModel::String(p.title)),
    ).push(("status"@, ValueModel::Number(text::decimal(p.status as nat))));
    let b = match p.detail {
        Some(d) => a.push(("detail"@, ValueModel::String(d))),
        None => a,
    };
    let c = match p.instance {
        Some(i) => b.push(("instance"@, ValueModel::String(i))),
        None => b,
    };
    let list = p.errors.map_values(|e: FieldFailure| e.json());
    let d = if p.errors.len() > 0 {
        c.push(("errors"@, ValueModel::Array(list)))
    } else {
        c
    };
    assert(a =~= seq![
        ("type"@, ValueModel::String(uri)),
        ("title"@, ValueModel::String(p.title)),
        ("status"@, ValueModel::Number(text::decimal(p.status as nat))),
    ]);
    assert(p.members() == d);
    assert(p.document() == ValueModel::Object(d));
}

/// A failed field says where, which rule, and why.
pub proof fn a_field_failure_is_written_under_its_names(f: FieldFailure)
    ensures
        read(f.json(), "pointer"@) == Some(ValueModel::String(f.pointer)),
        read(f.json(), "code"@) == Some(ValueModel::String(f.code)),
        read(f.json(), "message"@) == Some(ValueModel::String(f.message)),
        forall|key: Seq<char>|
            (#[trigger] read(f.json(), key)) is Some ==> key == "pointer"@ || key == "code"@ || key
                == "message"@,
{
    broadcast use {lemma_held_push, lemma_held_nothing};

    reveal_strlit("pointer");
    assert("pointer"@.len() == 7);
    assert("pointer"@[0] == 'p');
    reveal_strlit("code");
    assert("code"@.len() == 4);
    reveal_strlit("message");
    assert("message"@.len() == 7);
    assert("message"@[0] == 'm');
    let none = Seq::<(Seq<char>, ValueModel)>::empty();
    let list = none.push(("pointer"@, ValueModel::String(f.pointer))).push(
        ("code"@, ValueModel::String(f.code)),
    ).push(("message"@, ValueModel::String(f.message)));
    assert(f.json()->Object_0 =~= list);
    assert(f.json() == ValueModel::Object(list));
}

/// An extension stands in the document under its own name, and changes nothing
/// under another.
pub proof fn an_extension_is_a_member(p: Problem, key: Seq<char>, value: ValueModel, other: Seq<char>)
    requires
        ordered::distinct(error::with_members(p.members(), p.extensions)),
    ensures
        ({
            let extended = Problem { extensions: p.extensions.push((key, value)), ..p };
            &&& read(extended.document(), key) == Some(value)
            &&& other != key ==> read(extended.document(), other) == read(p.document(), other)
        }),
{
    let before = error::with_members(p.members(), p.extensions);
    let extended = Problem { extensions: p.extensions.push((key, value)), ..p };
    assert(extended.extensions.drop_last() =~= p.extensions);
    assert(extended.members() == p.members());
    let after = ordered::inserted(before, key, value);
    ordered::insertion_is_remembered(before, key, value, other);
    lemma_held_is_lookup(before, other);
    lemma_held_is_lookup(after, other);
    lemma_held_is_lookup(after, key);
}

proof fn lemma_held_is_lookup(m: Members, key: Seq<char>)
    ensures
        held(m, key) == ordered::lookup(m, key),
    decreases m.len(),
{
    reveal_with_fuel(held, 2);
    if m.len() > 0 {
        lemma_held_is_lookup(m.drop_last(), key);
        ordered::lemma_position(m.drop_last(), key);
        if m.last().0 != key {
            assert(ordered::position(m, key) == ordered::position(m.drop_last(), key));
        }
    }
}

/// A refused request is answered with a problem document under the problem's
/// own status.
pub proof fn a_refusal_is_a_problem_document<S>(p: Problem)
    requires
        p.headers == headers::no_fields(),
    ensures
        Reply::<S>::problem(p).status == p.status,
        headers::first(Reply::<S>::problem(p).headers, "content-type"@) == Some(
            "application/problem+json"@,
        ),
        Reply::<S>::problem(p).body == BodyModel::<S>::full(
            encode_utf8(json::written(p.document())),
        ),
{
    reveal_strlit("application/problem+json");
    reveal_strlit("content-type");
    let media = "application/problem+json"@;
    headers::lemma_visible(media);
    headers::a_field_reads_back(headers::no_fields(), "content-type"@, media, "content-type"@);
    assert(text::ascii_lower("content-type"@) =~= "content-type"@);
    assert(headers::under(headers::no_fields(), "content-type"@).len() == 0);
}

// ---------------------------------------------------------------------------
// requests without a handler
// ---------------------------------------------------------------------------

/// The problem that a reply carries.
pub open spec fn carries<S>(reply: Reply<S>, p: Problem) -> bool {
    reply.status == p.status && reply.body == BodyModel::<S>::full(
        encode_utf8(json::written(p.document())),
    )
}

/// Where nothing is mounted the answer is 404 and names the method and the path;
/// where other methods are it is 405 and names them; and a body over the limit
/// is 413 and names the limit.
pub proof fn what_cannot_be_served_is_said<S>(
    method: Seq<char>,
    path: Seq<char>,
    allowed: Seq<Seq<char>>,
    limit: nat,
)
    ensures
        carries(
            service::absent::<S>(method, path),
            Problem::detailed(404, "No route for `"@ + method + " "@ + path + "`."@),
        ),
        method != "OPTIONS"@ ==> carries(
            service::refusal::<S>(method, allowed),
            Problem::detailed(
                405,
                "`"@ + method + "` is not supported here; try "@ + text::join(allowed, ", "@)
                    + "."@,
            ),
        ),
        service::refusal::<S>("OPTIONS"@, allowed).status == 204,
        service::refusal::<S>("OPTIONS"@, allowed).body == BodyModel::<S>::Empty,
        carries(
            service::oversized::<S>(limit),
            Problem::detailed(
                413,
                "The request body exceeds the "@ + text::decimal(limit) + "-byte limit."@,
            ),
        ),
{
}

/// A request on its way to a handler is the one that came, with what the route
/// captured and the route's template.
pub proof fn routing_only_adds_the_captures(r: RequestModel, route: Route)
    ensures
        service::routed(r, route).params == router::captures(
            router::template(route.path),
            router::segments(r.path),
        ),
        service::routed(r, route).matched_path == Some(route.path),
        service::routed(r, route) == (RequestModel {
            params: service::routed(r, route).params,
            matched_path: Some(route.path),
            ..r
        }),
{
}

/// A `HEAD` falls back on `GET` exactly where it has no route of its own and
/// `GET` has one; no other method falls back.
pub proof fn only_head_falls_back(routes: Seq<Route>, path: Seq<char>, method: Seq<char>)
    ensures
        service::falls_back(routes, path, method) ==> method == "HEAD"@,
        service::falls_back(routes, path, "HEAD"@) <==> router::mounted(
            routes,
            router::segments(path),
            "GET"@,
        ) && !router::mounted(routes, router::segments(path), "HEAD"@),
{
}

} // verus!
