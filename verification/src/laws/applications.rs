//! What an application mounts, guards and documents as a whole.

use crate::app::document;
use crate::app::document::{AppModel, Describe};
use crate::app::group::{EntryModel, RouterModel};
use crate::app::naming;
use crate::app::service;
use crate::app::service::{Layer, ServedModel};
use crate::docs;
use crate::error::FieldFailure;
use crate::extract::cookies;
use crate::extract::cookies::Bearer;
use crate::headers;
use crate::laws::answers::{content, shown, text_schema};
use crate::openapi::foreign;
use crate::openapi::foreign::Scalar;
use crate::openapi::gen::{Collected, JsonSchema};
use crate::openapi::ordered;
use crate::openapi::schema::SchemaModel;
use crate::openapi::spec::{OperationModel, ResponseModel, SecuritySchemeModel};
use crate::operation::{ContextModel, OperationInput};
use crate::response;
use crate::router::RouteDef;
use crate::text;
use crate::validate;
use crate::validate::Validate;
use vstd::prelude::*;
use vstd::string::*;
use vstd::utf8::*;

verus! {

// ---------------------------------------------------------------------------
// mounting
// ---------------------------------------------------------------------------

/// A prefix and a path are put together with one slash between them, whether or
/// not either of them brings it along.
pub proof fn one_slash_stands_at_the_seam(prefix: Seq<char>, path: Seq<char>)
    requires
        !(prefix.len() > 0 && prefix.last() == '/'),
        !(path.len() > 0 && path[0] == '/'),
    ensures
        naming::joined(prefix, path) == prefix + "/"@ + path,
        naming::joined(prefix.push('/'), path) == prefix + "/"@ + path,
        naming::joined(prefix, "/"@ + path) == prefix + "/"@ + path,
        naming::joined(prefix.push('/'), "/"@ + path) == prefix + "/"@ + path,
{
    reveal_strlit("/");
    assert(prefix.push('/').drop_last() =~= prefix);
    assert(docs::without_slashes(prefix.push('/')) == docs::without_slashes(prefix));
    assert("/"@ =~= seq!['/']);
    assert(prefix + (seq!['/'] + path) =~= prefix + "/"@ + path);
    assert(prefix + ("/"@ + path) =~= prefix + "/"@ + path);
}

/// A group that is nested keeps its routes in order, each under the prefix and
/// with the group's layers round its own; the routes that were there stay as
/// they are.
pub proof fn a_nested_group_keeps_its_routes<H, L>(
    outer: RouterModel<H, L>,
    prefix: Seq<char>,
    inner: RouterModel<H, L>,
    i: int,
    j: int,
)
    requires
        0 <= i < outer.routes.len(),
        0 <= j < inner.routes.len(),
    ensures
        outer.nesting(prefix, inner).routes.len() == outer.routes.len() + inner.routes.len(),
        outer.nesting(prefix, inner).routes[i] == outer.routes[i],
        outer.nesting(prefix, inner).routes[outer.routes.len() + j].method
            == inner.routes[j].method,
        outer.nesting(prefix, inner).routes[outer.routes.len() + j].handler
            == inner.routes[j].handler,
        outer.nesting(prefix, inner).routes[outer.routes.len() + j].tags == inner.routes[j].tags,
        outer.nesting(prefix, inner).routes[outer.routes.len() + j].path == naming::joined(
            prefix,
            inner.routes[j].path,
        ),
        outer.nesting(prefix, inner).routes[outer.routes.len() + j].middleware == inner.middleware
            + inner.routes[j].middleware,
        outer.nesting(prefix, inner).middleware == outer.middleware,
{
}

/// Routes are mounted behind those that are there, as they are; a tag reaches
/// every route that is there.
pub proof fn routes_are_mounted_as_they_are<H, L>(
    router: RouterModel<H, L>,
    routes: Seq<RouteDef<H>>,
    tag: Seq<char>,
    i: int,
    j: int,
)
    requires
        0 <= i < router.routes.len(),
        0 <= j < routes.len(),
    ensures
        router.mounting(routes).routes.len() == router.routes.len() + routes.len(),
        router.mounting(routes).routes[i] == router.routes[i],
        router.mounting(routes).routes[router.routes.len() + j].method == routes[j].method@,
        router.mounting(routes).routes[router.routes.len() + j].path == routes[j].path@,
        router.mounting(routes).routes[router.routes.len() + j].handler == routes[j].handler,
        router.mounting(routes).routes[router.routes.len() + j].tags.len() == 0,
        router.mounting(routes).routes[router.routes.len() + j].middleware.len() == 0,
        router.tagging(tag).routes.len() == router.routes.len(),
        router.tagging(tag).routes[i].tags.contains(tag),
        router.routes[i].tags.contains(tag) ==> router.tagging(tag).routes[i] == router.routes[i],
        !router.routes[i].tags.contains(tag) ==> router.tagging(tag).routes[i] == (EntryModel {
            tags: router.routes[i].tags.push(tag),
            ..router.routes[i]
        }),
{
    let tags = router.routes[i].tags;
    assert(tags.push(tag)[tags.len() as int] == tag);
}

/// Every handler is guarded from the outside in: against panics, where that is
/// asked for, then by the layers of the application, then by its own.
pub proof fn layers_stand_from_the_outside_in<L>(global: Seq<L>, own: Seq<L>, i: int, j: int)
    requires
        0 <= i < global.len(),
        0 <= j < own.len(),
    ensures
        service::stacked(true, global, own).len() == 1 + global.len() + own.len(),
        service::stacked(true, global, own)[0] is CatchPanic,
        service::stacked(true, global, own)[1 + i] == Layer::User(global[i]),
        service::stacked(true, global, own)[1 + global.len() + j] == Layer::User(own[j]),
        service::stacked(false, global, own).len() == global.len() + own.len(),
        service::stacked(false, global, own)[i] == Layer::User(global[i]),
        service::stacked(false, global, own)[global.len() + j] == Layer::User(own[j]),
{
}

/// Everything is served: each route with its handler, then the documentation.
pub proof fn every_route_is_served<H, L, V>(app: AppModel<H, L, V>, bytes: Seq<u8>, i: int, j: int)
    requires
        0 <= i < app.router.routes.len(),
    ensures
        app.mounts(bytes)[i].method == app.router.routes[i].method,
        app.mounts(bytes)[i].path == app.router.routes[i].path,
        app.mounts(bytes)[i].handler == ServedModel::<H>::User(app.router.routes[i].handler),
        app.docs is None ==> app.mounts(bytes).len() == app.router.routes.len(),
        app.docs matches Some(d) ==> app.mounts(bytes).len() == app.router.routes.len() + 1
            + d.uis.len(),
        app.docs matches Some(d) ==> app.mounts(bytes)[app.router.routes.len() as int].path
            == d.openapi_path,
        app.docs matches Some(d) ==> app.mounts(bytes)[app.router.routes.len() as int].method
            == "GET"@,
{
}

// ---------------------------------------------------------------------------
// documenting
// ---------------------------------------------------------------------------

proof fn lemma_all_tagged(tags: Seq<Seq<char>>, more: Seq<Seq<char>>)
    ensures
        document::all_tagged(tags, more).len() >= tags.len(),
        document::all_tagged(tags, more).take(tags.len() as int) == tags,
        forall|k: int|
            0 <= k < more.len() ==> document::all_tagged(tags, more).contains(#[trigger] more[k]),
        forall|k: int|
            0 <= k < document::all_tagged(tags, more).len() ==> tags.contains(
                #[trigger] document::all_tagged(tags, more)[k],
            ) || more.contains(document::all_tagged(tags, more)[k]),
    decreases more.len(),
{
    let all = document::all_tagged(tags, more);
    if more.len() == 0 {
        assert(tags.take(tags.len() as int) =~= tags);
        assert forall|k: int| 0 <= k < all.len() implies tags.contains(#[trigger] all[k])
            || more.contains(all[k]) by {
            assert(tags[k] == all[k]);
        }
    } else {
        let front = more.drop_last();
        let tag = more.last();
        let before = document::all_tagged(tags, front);
        lemma_all_tagged(tags, front);
        assert(more[more.len() - 1] == tag);
        if !before.contains(tag) {
            assert(all == before.push(tag));
            assert(all[before.len() as int] == tag);
            assert(all.take(tags.len() as int) =~= before.take(tags.len() as int));
        }
        assert forall|k: int| 0 <= k < more.len() implies all.contains(#[trigger] more[k]) by {
            if k < front.len() {
                assert(front[k] == more[k]);
                let p = choose|p: int| 0 <= p < before.len() && before[p] == front[k];
                assert(all[p] == more[k]);
            }
        }
        assert forall|k: int| 0 <= k < all.len() implies tags.contains(#[trigger] all[k])
            || more.contains(all[k]) by {
            if k < before.len() {
                assert(all[k] == before[k]);
                if !tags.contains(before[k]) {
                    let p = choose|p: int| 0 <= p < front.len() && front[p] == before[k];
                    assert(more[p] == all[k]);
                }
            } else {
                assert(more[more.len() - 1] == all[k]);
            }
        }
    }
}

/// An operation keeps what its handler says of it. It gets the tags of its group
/// behind its own, an id made of its method and path unless it has one, and a
/// `200` unless it has a response.
pub proof fn an_operation_is_finished(
    o: OperationModel,
    method: Seq<char>,
    path: Seq<char>,
    tags: Seq<Seq<char>>,
    i: int,
)
    requires
        0 <= i < tags.len(),
    ensures
        document::finished(o, method, path, tags).tags.contains(tags[i]),
        document::finished(o, method, path, tags).tags.len() >= o.tags.len(),
        document::finished(o, method, path, tags).tags.take(o.tags.len() as int) == o.tags,
        o.operation_id is Some ==> document::finished(o, method, path, tags).operation_id
            == o.operation_id,
        o.operation_id is None ==> document::finished(o, method, path, tags).operation_id == Some(
            naming::operation_id(method, path),
        ),
        o.responses.len() > 0 ==> document::finished(o, method, path, tags).responses
            == o.responses,
        o.responses.len() == 0 ==> document::finished(o, method, path, tags).responses == seq![
            (
                "200"@,
                ResponseModel {
                    description: "Success"@,
                    headers: Seq::empty(),
                    content: Seq::empty(),
                    links: Seq::empty(),
                },
            ),
        ],
        document::finished(o, method, path, tags).parameters == o.parameters,
        document::finished(o, method, path, tags).request_body == o.request_body,
        document::finished(o, method, path, tags).security == o.security,
        document::finished(o, method, path, tags).summary == o.summary,
        document::finished(o, method, path, tags).description == o.description,
        document::finished(o, method, path, tags).deprecated == o.deprecated,
{
    lemma_all_tagged(o.tags, tags);
}

/// The document carries the application's own title, servers and tags, and the
/// schemas that its operations refer to.
pub proof fn a_document_is_of_its_application<H: Describe, L, V>(app: AppModel<H, L, V>)
    ensures
        app.document().info == app.info,
        app.document().servers == app.servers,
        app.document().tags == app.tags,
        app.document().components.schemas == document::documented(
            app.router.routes,
        ).0.definitions,
        app.document().paths == document::documented(app.router.routes).1,
{
}

/// Where an operation asks for bearer tokens, the document says that they are
/// sent as HTTP bearer credentials, unless the application says what they are.
/// Where none does, nothing is added.
pub proof fn bearer_tokens_are_explained(
    registered: Seq<(Seq<char>, SecuritySchemeModel)>,
    paths: document::Paths,
)
    requires
        ordered::distinct(registered),
    ensures
        document::paths_ask_for(paths, "bearerAuth"@) && ordered::lookup(registered, "bearerAuth"@)
            is None ==> ordered::lookup(document::schemes(registered, paths), "bearerAuth"@)
            == Some(
            SecuritySchemeModel::Http {
                scheme: "bearer"@,
                bearer_format: Some("JWT"@),
                description: None,
            },
        ),
        ordered::lookup(registered, "bearerAuth"@) is Some ==> document::schemes(registered, paths)
            == registered,
        !document::paths_ask_for(paths, "bearerAuth"@) ==> document::schemes(registered, paths)
            == registered,
{
    ordered::insertion_is_remembered(
        registered,
        "bearerAuth"@,
        SecuritySchemeModel::bearer_jwt(),
        "bearerAuth"@,
    );
}

/// A handler that takes a bearer token asks for one in the document, and
/// documents the `401` that a request without one is given.
pub proof fn a_token_is_asked_for(c: ContextModel)
    requires
        ordered::distinct(c.operation.responses),
    ensures
        document::asks_for(<Bearer as OperationInput>::described(c).operation, "bearerAuth"@),
        shown(<Bearer as OperationInput>::described(c), "401"@) is Some,
        shown(<Bearer as OperationInput>::described(c), "401"@)->0.content.len() == 1,
        shown(<Bearer as OperationInput>::described(c), "401"@)->0.content[0].0
            == "application/problem+json"@,
        <Bearer as OperationInput>::described(c).operation.parameters == c.operation.parameters,
        <Bearer as OperationInput>::described(c).operation.request_body
            == c.operation.request_body,
{
    let before = match c.operation.security {
        Some(list) => list,
        None => Seq::empty(),
    };
    let list = before.push(cookies::bearer_requirement());
    assert(list[before.len() as int] == cookies::bearer_requirement());
    assert(list[before.len() as int][0].0 == "bearerAuth"@);
    let after = <Bearer as OperationInput>::described(c);
    assert(after.operation.security == Some(list));
    let held = after.operation.security->0;
    let n = before.len() as int;
    let first = 0int;
    assert(0 <= n < held.len() && 0 <= first < held[n].len() && held[n][first].0 == "bearerAuth"@);
    ordered::insertion_is_remembered(
        c.operation.responses,
        "401"@,
        crate::operation::problem(c.generator, "Missing or malformed bearer credential"@),
        "401"@,
    );
}

/// A request without a bearer token is answered with a `401` that asks for one.
pub proof fn a_missing_token_is_challenged(scheme: Seq<char>, token: Seq<char>)
    requires
        !scheme.contains(' '),
        text::ascii_lower(scheme) != "bearer"@,
    ensures
        cookies::token_in(None) is Err,
        cookies::token_in(None)->Err_0.status == 401,
        headers::first(cookies::token_in(None)->Err_0.headers, "www-authenticate"@) == Some(
            "Bearer"@,
        ),
        cookies::token_in(Some(scheme)) is Err,
        cookies::token_in(Some(scheme))->Err_0.status == 401,
        cookies::token_in(Some(scheme.push(' ') + token)) is Err,
        cookies::token_in(Some(scheme.push(' ') + token))->Err_0.status == 401,
        headers::first(
            cookies::token_in(Some(scheme.push(' ') + token))->Err_0.headers,
            "www-authenticate"@,
        ) == Some("Bearer"@),
{
    response::lemma_known_names();
    reveal_strlit("Bearer");
    headers::lemma_visible("Bearer"@);
    headers::a_field_reads_back(
        headers::no_fields(),
        "www-authenticate"@,
        "Bearer"@,
        "www-authenticate"@,
    );
    lemma_no_space(scheme, 0);
    lemma_space(scheme, token, 0);
    assert((scheme.push(' ') + token).take(scheme.len() as int) =~= scheme);
}

proof fn lemma_no_space(s: Seq<char>, from: int)
    requires
        !s.contains(' '),
        0 <= from,
    ensures
        text::index_of(s, ' ', from) is None,
    decreases s.len() - from,
{
    if from < s.len() {
        assert(s.contains(s[from]));
        lemma_no_space(s, from + 1);
    }
}

proof fn lemma_space(front: Seq<char>, rest: Seq<char>, from: int)
    requires
        !front.contains(' '),
        0 <= from <= front.len(),
    ensures
        text::index_of(front.push(' ') + rest, ' ', from) == Some(front.len() as int),
    decreases front.len() - from,
{
    let s = front.push(' ') + rest;
    if from < front.len() {
        assert(s[from] == front[from]);
        assert(front.contains(front[from]));
        lemma_space(front, rest, from + 1);
    } else {
        assert(s[from] == ' ');
    }
}

/// Raw and plain text bodies are documented as required, each under its own
/// media type.
pub proof fn a_raw_body_is_documented(c: ContextModel)
    ensures
        <Vec<u8> as OperationInput>::described(c).operation.request_body is Some,
        <Vec<u8> as OperationInput>::described(c).operation.request_body->0.required,
        <Vec<u8> as OperationInput>::described(c).operation.request_body->0.content == content(
            "application/octet-stream"@,
            SchemaModel { format: Some("binary"@), ..text_schema() },
        ),
        <String as OperationInput>::described(c).operation.request_body is Some,
        <String as OperationInput>::described(c).operation.request_body->0.required,
        <String as OperationInput>::described(c).operation.request_body->0.content == content(
            "text/plain"@,
            text_schema(),
        ),
{
    assert(SchemaModel::typed("string"@, "binary"@) =~= (SchemaModel {
        format: Some("binary"@),
        ..text_schema()
    }));
    assert(SchemaModel::of_type("string"@) =~= text_schema());
    assert(<Vec<u8> as OperationInput>::described(c).operation.request_body->0.content =~= content(
        "application/octet-stream"@,
        SchemaModel { format: Some("binary"@), ..text_schema() },
    ));
    assert(<String as OperationInput>::described(c).operation.request_body->0.content =~= content(
        "text/plain"@,
        text_schema(),
    ));
}

// ---------------------------------------------------------------------------
// types of other crates
// ---------------------------------------------------------------------------

/// Ids, dates and times are text of a format that is named after them.
pub proof fn ids_and_dates_are_text(g: Collected)
    ensures
        <uuid::Uuid as JsonSchema>::describe(g).schema_type == text_schema().schema_type,
        <uuid::Uuid as JsonSchema>::describe(g).format == Some("uuid"@),
        <chrono::NaiveDate as JsonSchema>::describe(g) == (SchemaModel {
            format: Some("date"@),
            ..text_schema()
        }),
        <chrono::NaiveTime as JsonSchema>::describe(g) == (SchemaModel {
            format: Some("time"@),
            ..text_schema()
        }),
        <chrono::NaiveDateTime as JsonSchema>::describe(g) == (SchemaModel {
            format: Some("date-time"@),
            ..text_schema()
        }),
        <std::path::PathBuf as JsonSchema>::describe(g) == text_schema(),
        <std::time::Duration as JsonSchema>::describe(g).minimum == Some("0"@),
        <std::time::Duration as JsonSchema>::describe(g).format == Some("double"@),
        Scalar::DateTime.model() == (SchemaModel { format: Some("date-time"@), ..text_schema() }),
        Scalar::Ip.model() == (SchemaModel { format: Some("ip"@), ..text_schema() }),
        Scalar::Ipv4.model() == (SchemaModel { format: Some("ipv4"@), ..text_schema() }),
        Scalar::Ipv6.model() == (SchemaModel { format: Some("ipv6"@), ..text_schema() }),
        Scalar::Float.model().format == Some("float"@),
        Scalar::Double.model().format == Some("double"@),
{
}

/// An integer that is never zero starts at one where it has no sign, and rules
/// zero out where it has one.
pub proof fn a_nonzero_integer_is_not_zero(inner: SchemaModel)
    ensures
        foreign::without_zero(inner, false) == (SchemaModel { minimum: Some("1"@), ..inner }),
        foreign::without_zero(inner, true).minimum == inner.minimum,
        foreign::without_zero(inner, true).not is Some,
        foreign::without_zero(inner, true).not->0.const_value == Some(
            crate::json::ValueModel::Number("0"@),
        ),
{
}

// ---------------------------------------------------------------------------
// failures inside collections
// ---------------------------------------------------------------------------

/// What is wrong with an element of a list is reported under its index, from
/// zero on, behind what is wrong with those before it.
pub proof fn an_element_is_reported_under_its_index<T: Validate>(items: Seq<T>, item: T, i: int)
    requires
        0 <= i < item.faults().len(),
    ensures
        validate::indexed_faults(Seq::<T>::empty()).len() == 0,
        validate::indexed_faults(items.push(item)).len() == validate::indexed_faults(items).len()
            + item.faults().len(),
        validate::indexed_faults(items.push(item)).take(
            validate::indexed_faults(items).len() as int,
        ) == validate::indexed_faults(items),
        validate::indexed_faults(items.push(item))[validate::indexed_faults(items).len() + i] == (
        FieldFailure {
            pointer: "/"@ + text::decimal(items.len()) + item.faults()[i].pointer,
            code: item.faults()[i].code,
            message: item.faults()[i].message,
        }),
{
    assert(items.push(item).drop_last() =~= items);
    let before = validate::indexed_faults(items);
    let all = validate::indexed_faults(items.push(item));
    assert(all.take(before.len() as int) =~= before);
}

/// What is wrong with a value of a map is reported under its key.
pub proof fn a_value_is_reported_under_its_key<V: Validate>(
    entries: Seq<(Seq<char>, V)>,
    key: Seq<char>,
    value: V,
    i: int,
)
    requires
        0 <= i < value.faults().len(),
    ensures
        validate::keyed_faults(Seq::<(Seq<char>, V)>::empty()).len() == 0,
        validate::keyed_faults(entries.push((key, value))).len() == validate::keyed_faults(
            entries,
        ).len() + value.faults().len(),
        validate::keyed_faults(entries.push((key, value)))[validate::keyed_faults(entries).len()
            + i] == (FieldFailure {
            pointer: "/"@ + validate::escaped(key) + value.faults()[i].pointer,
            code: value.faults()[i].code,
            message: value.faults()[i].message,
        }),
{
    assert(entries.push((key, value)).drop_last() =~= entries);
}

/// Nothing is wrong with what is absent, and what a value holds is as wrong as
/// the value.
pub proof fn an_absent_value_is_not_wrong<T: Validate>(value: T)
    ensures
        None::<T>.faults().len() == 0,
        Some(value).faults() == value.faults(),
{
}

/// A further value under a name leaves those that are there.
pub proof fn a_field_can_have_several_values(
    fields: headers::Fields,
    name: Seq<char>,
    value: Seq<char>,
)
    ensures
        headers::under(headers::appended(fields, name, value), text::ascii_lower(name))
            == headers::under(fields, text::ascii_lower(name)).push(encode_utf8(value)),
        headers::under(headers::set(fields, name, value), text::ascii_lower(name)) == seq![
            encode_utf8(value),
        ],
{
}

} // verus!
