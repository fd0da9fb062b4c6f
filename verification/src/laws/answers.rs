//! What a handler's value is sent as, and what the document says of it.

use crate::body::{BodyModel, ResBody};
use crate::error::{ApiError, ProblemDetails};
use crate::extract::json::{Json, Written};
use crate::headers;
use crate::middleware::common;
use crate::middleware::common::RequestIdModel;
use crate::openapi::gen;
use crate::openapi::gen::JsonSchema;
use crate::openapi::ordered;
use crate::openapi::schema::{SchemaModel, TypeModel};
use crate::openapi::spec::{HeaderModel, MediaTypeModel, ResponseModel};
use crate::operation::{ContextModel, OperationOutput};
use crate::response;
use crate::response::{
    Accepted, Created, Html, IntoResponse, NoContent, Redirect, Reply, StatusCode, WithStatus,
};
use crate::sse::Sse;
use crate::text;
use vstd::prelude::*;
use vstd::string::*;
use vstd::utf8::*;

verus! {

/// What a body holds.
pub open spec fn payload<S>(body: BodyModel<S>) -> Option<Seq<u8>> {
    match body {
        BodyModel::Empty => Some(Seq::empty()),
        BodyModel::Full(bytes) => Some(bytes),
        BodyModel::Stream(_) => None,
    }
}

/// What is sent under a header name.
pub open spec fn sent<S>(r: Reply<S>, name: Seq<char>) -> Option<Seq<char>> {
    headers::first(r.headers, name)
}

/// What is documented at a status.
pub open spec fn shown(c: ContextModel, status: Seq<char>) -> Option<ResponseModel> {
    ordered::lookup(c.operation.responses, status)
}

/// A body of one media type, as it is documented.
pub open spec fn content(media_type: Seq<char>, schema: SchemaModel) -> Seq<
    (Seq<char>, MediaTypeModel),
> {
    seq![
        (
            media_type,
            MediaTypeModel {
                schema: Some(schema),
                examples: Seq::empty(),
                encoding: Seq::empty(),
            },
        ),
    ]
}

/// Text, as it is documented.
pub open spec fn text_schema() -> SchemaModel {
    SchemaModel { schema_type: Some(TypeModel::Single("string"@)), ..SchemaModel::any() }
}

proof fn lemma_sent<S>(body: BodyModel<S>, media_type: Seq<char>)
    requires
        forall|i: int|
            0 <= i < media_type.len() ==> 32 <= (#[trigger] media_type[i]) as int
                && (media_type[i] as int) < 127,
    ensures
        sent(Reply::of_type(body, media_type), "content-type"@) == Some(media_type),
        Reply::of_type(body, media_type).status == 200,
        Reply::of_type(body, media_type).body == body,
{
    response::lemma_known_names();
    headers::lemma_visible(media_type);
    headers::a_field_reads_back(
        headers::no_fields(),
        "content-type"@,
        media_type,
        "content-type"@,
    );
}

proof fn lemma_shown(c: ContextModel, status: Seq<char>, r: ResponseModel)
    requires
        ordered::distinct(c.operation.responses),
    ensures
        shown(c.with_response(status, r), status) == Some(r),
{
    ordered::insertion_is_remembered(c.operation.responses, status, r, status);
}

proof fn lemma_content(r: ResponseModel, media_type: Seq<char>, schema: SchemaModel)
    requires
        r.content.len() == 0,
    ensures
        r.with_content(media_type, schema).content == content(media_type, schema),
{
    assert(r.with_content(media_type, schema).content =~= content(media_type, schema));
}

/// Text is sent as it is, as UTF-8 plain text with a `200`, and documented as
/// that.
pub proof fn text_is_sent_as_plain_text<S>(value: String, c: ContextModel)
    requires
        ordered::distinct(c.operation.responses),
    ensures
        IntoResponse::<S>::response(value).status == 200,
        payload(IntoResponse::<S>::response(value).body) == Some(encode_utf8(value@)),
        sent(IntoResponse::<S>::response(value), "content-type"@) == Some(
            "text/plain; charset=utf-8"@,
        ),
        <String as OperationOutput>::fixed_status() == Some(200u16),
        shown(<String as OperationOutput>::described(c), "200"@) is Some,
        shown(<String as OperationOutput>::described(c), "200"@)->0.content == content(
            "text/plain"@,
            text_schema(),
        ),
{
    reveal_strlit("text/plain; charset=utf-8");
    let bytes = encode_utf8(value@);
    lemma_sent(BodyModel::<S>::full(bytes), "text/plain; charset=utf-8"@);
    assert(bytes.len() == 0 ==> bytes =~= Seq::empty());
    let before = ResponseModel::new("Success"@);
    lemma_content(before, "text/plain"@, SchemaModel::of_type("string"@));
    assert(SchemaModel::of_type("string"@) =~= text_schema());
    lemma_shown(c, "200"@, before.with_content("text/plain"@, SchemaModel::of_type("string"@)));
}

/// Literal text is sent and documented as other text is.
pub proof fn literal_text_is_sent_as_plain_text<S>(value: &'static str, c: ContextModel)
    requires
        ordered::distinct(c.operation.responses),
    ensures
        IntoResponse::<S>::response(value).status == 200,
        payload(IntoResponse::<S>::response(value).body) == Some(encode_utf8(value@)),
        sent(IntoResponse::<S>::response(value), "content-type"@) == Some(
            "text/plain; charset=utf-8"@,
        ),
        <&'static str as OperationOutput>::fixed_status() == Some(200u16),
        shown(<&'static str as OperationOutput>::described(c), "200"@) is Some,
        shown(<&'static str as OperationOutput>::described(c), "200"@)->0.content == content(
            "text/plain"@,
            text_schema(),
        ),
{
    reveal_strlit("text/plain; charset=utf-8");
    let bytes = encode_utf8(value@);
    lemma_sent(BodyModel::<S>::full(bytes), "text/plain; charset=utf-8"@);
    assert(bytes.len() == 0 ==> bytes =~= Seq::empty());
    let before = ResponseModel::new("Success"@);
    lemma_content(before, "text/plain"@, SchemaModel::of_type("string"@));
    assert(SchemaModel::of_type("string"@) =~= text_schema());
    lemma_shown(c, "200"@, before.with_content("text/plain"@, SchemaModel::of_type("string"@)));
}

/// Bytes are sent as they are, as an octet stream with a `200`, and documented
/// as binary.
pub proof fn bytes_are_sent_as_they_are<S>(value: Vec<u8>, c: ContextModel)
    requires
        ordered::distinct(c.operation.responses),
    ensures
        IntoResponse::<S>::response(value).status == 200,
        payload(IntoResponse::<S>::response(value).body) == Some(value@),
        sent(IntoResponse::<S>::response(value), "content-type"@) == Some(
            "application/octet-stream"@,
        ),
        <Vec<u8> as OperationOutput>::fixed_status() == Some(200u16),
        shown(<Vec<u8> as OperationOutput>::described(c), "200"@) is Some,
        shown(<Vec<u8> as OperationOutput>::described(c), "200"@)->0.content == content(
            "application/octet-stream"@,
            SchemaModel { format: Some("binary"@), ..text_schema() },
        ),
{
    reveal_strlit("application/octet-stream");
    lemma_sent(BodyModel::<S>::full(value@), "application/octet-stream"@);
    assert(value@.len() == 0 ==> value@ =~= Seq::empty());
    let before = ResponseModel::new("Binary payload"@);
    let schema = SchemaModel::typed("string"@, "binary"@);
    lemma_content(before, "application/octet-stream"@, schema);
    assert(schema =~= (SchemaModel { format: Some("binary"@), ..text_schema() }));
    lemma_shown(c, "200"@, before.with_content("application/octet-stream"@, schema));
}

/// A page is sent as UTF-8 HTML with a `200`, and documented as HTML.
pub proof fn a_page_is_sent_as_html<S>(page: Html<String>, c: ContextModel)
    requires
        ordered::distinct(c.operation.responses),
    ensures
        IntoResponse::<S>::response(page).status == 200,
        payload(IntoResponse::<S>::response(page).body) == Some(encode_utf8(page.0@)),
        sent(IntoResponse::<S>::response(page), "content-type"@) == Some(
            "text/html; charset=utf-8"@,
        ),
        <Html<String> as OperationOutput>::fixed_status() == Some(200u16),
        shown(<Html<String> as OperationOutput>::described(c), "200"@) is Some,
        shown(<Html<String> as OperationOutput>::described(c), "200"@)->0.content == content(
            "text/html"@,
            text_schema(),
        ),
{
    reveal_strlit("text/html; charset=utf-8");
    let bytes = encode_utf8(page.0@);
    lemma_sent(BodyModel::<S>::full(bytes), "text/html; charset=utf-8"@);
    assert(bytes.len() == 0 ==> bytes =~= Seq::empty());
    let before = ResponseModel::new("An HTML document"@);
    lemma_content(before, "text/html"@, SchemaModel::of_type("string"@));
    assert(SchemaModel::of_type("string"@) =~= text_schema());
    lemma_shown(c, "200"@, before.with_content("text/html"@, SchemaModel::of_type("string"@)));
}

/// A page that is a body of its own is sent as that body, as HTML.
pub proof fn a_built_page_is_sent_as_html<S>(page: Html<ResBody<S>>)
    ensures
        IntoResponse::<S>::response(page).status == 200,
        IntoResponse::<S>::response(page).body == page.0@,
        sent(IntoResponse::<S>::response(page), "content-type"@) == Some(
            "text/html; charset=utf-8"@,
        ),
{
    reveal_strlit("text/html; charset=utf-8");
    lemma_sent(page.0@, "text/html; charset=utf-8"@);
}

/// Nothing is sent as a `204` without a body, and documented as one.
pub proof fn nothing_is_sent_as_no_content<S>(c: ContextModel)
    requires
        ordered::distinct(c.operation.responses),
    ensures
        IntoResponse::<S>::response(()).status == 204,
        payload(IntoResponse::<S>::response(()).body) == Some(Seq::<u8>::empty()),
        IntoResponse::<S>::response(NoContent).status == 204,
        payload(IntoResponse::<S>::response(NoContent).body) == Some(Seq::<u8>::empty()),
        <() as OperationOutput>::fixed_status() == Some(204u16),
        <NoContent as OperationOutput>::fixed_status() == Some(204u16),
        shown(<() as OperationOutput>::described(c), "204"@) is Some,
        shown(<() as OperationOutput>::described(c), "204"@)->0.content.len() == 0,
        shown(<NoContent as OperationOutput>::described(c), "204"@) is Some,
        shown(<NoContent as OperationOutput>::described(c), "204"@)->0.content.len() == 0,
{
    lemma_shown(c, "204"@, ResponseModel::new("No content"@));
}

/// A bare status is sent as that status, without a body.
pub proof fn a_status_is_sent_as_it_is<S>(status: StatusCode)
    ensures
        IntoResponse::<S>::response(status).status == status.0,
        payload(IntoResponse::<S>::response(status).body) == Some(Seq::<u8>::empty()),
        <StatusCode as OperationOutput>::fixed_status() is None,
{
}

/// A wrapper changes the status of what it holds and nothing else.
pub proof fn a_status_can_be_given<S, T: IntoResponse<S>>(status: StatusCode, value: T)
    ensures
        IntoResponse::<S>::response(WithStatus(status, value)) == (Reply {
            status: status.0,
            ..value.response()
        }),
        IntoResponse::<S>::response((status, value)) == (Reply {
            status: status.0,
            ..value.response()
        }),
        IntoResponse::<S>::response(Accepted(value)) == (Reply {
            status: 202,
            ..value.response()
        }),
{
}

/// A created resource is sent with a `201`; where it is is said in `Location`.
pub proof fn a_created_resource_says_where_it_is<S, T: IntoResponse<S>>(created: Created<T>)
    requires
        created.location matches Some(location) ==> forall|i: int|
            0 <= i < location@.len() ==> 32 <= (#[trigger] location@[i]) as int
                && (location@[i] as int) < 127,
    ensures
        IntoResponse::<S>::response(created).status == 201,
        IntoResponse::<S>::response(created).body == created.body.response().body,
        sent(IntoResponse::<S>::response(created), "location"@) == match created.location {
            Some(location) => Some(location@),
            None => sent(created.body.response(), "location"@),
        },
{
    response::lemma_known_names();
    if let Some(location) = created.location {
        headers::lemma_visible(location@);
        headers::a_field_reads_back(
            created.body.response().headers,
            "location"@,
            location@,
            "location"@,
        );
    }
}

/// A redirect names its target in `Location`, and is documented with it.
pub proof fn a_redirect_names_its_target<S>(redirect: Redirect, c: ContextModel)
    requires
        ordered::distinct(c.operation.responses),
        forall|i: int|
            0 <= i < redirect.location@.len() ==> 32 <= (#[trigger] redirect.location@[i]) as int
                && (redirect.location@[i] as int) < 127,
    ensures
        IntoResponse::<S>::response(redirect).status == redirect.status,
        payload(IntoResponse::<S>::response(redirect).body) == Some(Seq::<u8>::empty()),
        sent(IntoResponse::<S>::response(redirect), "location"@) == Some(redirect.location@),
        <Redirect as OperationOutput>::fixed_status() == Some(303u16),
        shown(<Redirect as OperationOutput>::described(c), "303"@) is Some,
        shown(<Redirect as OperationOutput>::described(c), "303"@)->0.content.len() == 0,
        shown(<Redirect as OperationOutput>::described(c), "303"@)->0.headers.len() == 1,
        shown(<Redirect as OperationOutput>::described(c), "303"@)->0.headers[0] == (
            "Location"@,
            HeaderModel {
                description: Some("The URI to follow."@),
                required: true,
                schema: Some(SchemaModel { format: Some("uri-reference"@), ..text_schema() }),
            },
        ),
{
    response::lemma_known_names();
    headers::lemma_visible(redirect.location@);
    headers::a_field_reads_back(
        headers::no_fields(),
        "location"@,
        redirect.location@,
        "location"@,
    );
    assert(SchemaModel::typed("string"@, "uri-reference"@) =~= (SchemaModel {
        format: Some("uri-reference"@),
        ..text_schema()
    }));
    let r = shown(<Redirect as OperationOutput>::described(c), "303"@);
    ordered::insertion_is_remembered(
        c.operation.responses,
        "303"@,
        ResponseModel {
            headers: crate::outputs::location_header("The URI to follow."@, true),
            ..ResponseModel::new("Redirect"@)
        },
        "303"@,
    );
}

/// A target that cannot be said in a header is a fault of the server's.
pub proof fn a_redirect_to_nowhere_is_a_fault<S>(redirect: Redirect, i: int)
    requires
        0 <= i < redirect.location@.len(),
        redirect.location@[i] == '\n' || redirect.location@[i] == '\r',
    ensures
        IntoResponse::<S>::response(redirect).status == 500,
{
    assert(!headers::is_value(redirect.location@));
}

/// A value that was written is sent as JSON with a `200`; one that could not be
/// is a fault of the server's, and nothing of it is sent.
pub proof fn a_value_is_sent_as_json<S>(value: Json<Written>)
    ensures
        value.0.0 matches Ok(bytes) ==> {
            &&& IntoResponse::<S>::response(value).status == 200
            &&& payload(IntoResponse::<S>::response(value).body) == Some(bytes@)
            &&& sent(IntoResponse::<S>::response(value), "content-type"@) == Some(
                "application/json"@,
            )
        },
        value.0.0 is Err ==> IntoResponse::<S>::response(value).status == 500,
{
    reveal_strlit("application/json");
    if let Ok(bytes) = value.0.0 {
        lemma_sent(BodyModel::<S>::full(bytes@), "application/json"@);
        assert(bytes@.len() == 0 ==> bytes@ =~= Seq::empty());
    }
}

/// A JSON answer is documented at `200`, under its media type, with the schema
/// of its type.
pub proof fn a_json_answer_is_documented<T: JsonSchema>(c: ContextModel)
    requires
        ordered::distinct(c.operation.responses),
    ensures
        <Json<T> as OperationOutput>::fixed_status() == Some(200u16),
        shown(<Json<T> as OperationOutput>::described(c), "200"@) is Some,
        shown(<Json<T> as OperationOutput>::described(c), "200"@)->0.content == content(
            "application/json"@,
            gen::used::<T>(c.generator),
        ),
{
    let before = ResponseModel::new("Success"@);
    let schema = gen::used::<T>(c.generator);
    lemma_content(before, "application/json"@, schema);
    lemma_shown(
        c.with_generator(gen::used_collect::<T>(c.generator)),
        "200"@,
        before.with_content("application/json"@, schema),
    );
}

/// An event stream is sent as one, and neither cached nor held back.
pub proof fn a_stream_is_sent_at_once<S>(stream: Sse<S>, c: ContextModel)
    requires
        ordered::distinct(c.operation.responses),
    ensures
        IntoResponse::<Sse<S>>::response(stream).status == 200,
        IntoResponse::<Sse<S>>::response(stream).body == BodyModel::Stream(stream),
        sent(IntoResponse::<Sse<S>>::response(stream), "content-type"@) == Some(
            "text/event-stream"@,
        ),
        sent(IntoResponse::<Sse<S>>::response(stream), "cache-control"@) == Some("no-store"@),
        sent(IntoResponse::<Sse<S>>::response(stream), "x-accel-buffering"@) == Some("no"@),
        shown(<Sse<S> as OperationOutput>::described(c), "200"@) is Some,
        shown(<Sse<S> as OperationOutput>::described(c), "200"@)->0.content == content(
            "text/event-stream"@,
            text_schema(),
        ),
{
    response::lemma_known_names();
    reveal_strlit("text/event-stream");
    reveal_strlit("content-type");
    reveal_strlit("cache-control");
    reveal_strlit("x-accel-buffering");
    reveal_strlit("no-store");
    reveal_strlit("no");
    assert("content-type"@.len() == 12);
    assert("cache-control"@.len() == 13);
    assert("x-accel-buffering"@.len() == 17);
    assert(text::ascii_lower("x-accel-buffering"@) =~= "x-accel-buffering"@);
    let body = BodyModel::Stream(stream);
    let one = Reply::of_type(body, "text/event-stream"@);
    let two = one.with_header("cache-control"@, "no-store"@);
    lemma_sent(body, "text/event-stream"@);
    headers::lemma_visible("no-store"@);
    headers::lemma_visible("no"@);
    headers::a_field_reads_back(one.headers, "cache-control"@, "no-store"@, "content-type"@);
    headers::a_field_reads_back(one.headers, "cache-control"@, "no-store"@, "cache-control"@);
    headers::a_field_reads_back(two.headers, "x-accel-buffering"@, "no"@, "content-type"@);
    headers::a_field_reads_back(two.headers, "x-accel-buffering"@, "no"@, "cache-control"@);
    headers::a_field_reads_back(two.headers, "x-accel-buffering"@, "no"@, "x-accel-buffering"@);
    let before = ResponseModel::new(
        "A `text/event-stream` of server-sent events, held open until the client disconnects."@,
    );
    lemma_content(before, "text/event-stream"@, SchemaModel::of_type("string"@));
    assert(SchemaModel::of_type("string"@) =~= text_schema());
    lemma_shown(
        c,
        "200"@,
        before.with_content("text/event-stream"@, SchemaModel::of_type("string"@)),
    );
}

/// A trusted id that is visible text of at most 128 characters is kept; every
/// other request gets a fresh one.
pub proof fn a_request_keeps_its_id(m: RequestIdModel, id: Seq<char>, fresh: Seq<char>)
    ensures
        m.id_of(None, fresh) == fresh,
        !m.trust_inbound ==> m.id_of(Some(id), fresh) == fresh,
        m.trust_inbound && 1 <= id.len() <= 128 && (forall|i: int|
            0 <= i < id.len() ==> 32 <= (#[trigger] id[i]) as int && (id[i] as int) < 127)
            ==> m.id_of(Some(id), fresh) == id,
        m.trust_inbound && (id.len() == 0 || id.len() > 128) ==> m.id_of(Some(id), fresh) == fresh,
        m.trust_inbound && (exists|i: int|
            0 <= i < id.len() && (((#[trigger] id[i]) as int) < 32 || id[i] as int > 126))
            ==> m.id_of(Some(id), fresh) == fresh,
{
}

/// A panic is blamed on the route it happened in, in its own words.
pub proof fn a_panic_says_where(path: Seq<char>, message: Seq<char>)
    ensures
        common::panic_cause(Some(path), Some(message)) == "panic in `"@ + path + "`: "@ + message,
        common::panic_cause(None, Some(message)) == "panic in `<unmatched>`: "@ + message,
        common::panic_cause(Some(path), None) == "panic in `"@ + path + "`: handler panicked"@,
{
    reveal_strlit("panic in `");
    reveal_strlit("<unmatched>");
    reveal_strlit("`: ");
    reveal_strlit("handler panicked");
    reveal_strlit("panic in `<unmatched>`: ");
    reveal_strlit("`: handler panicked");
}

/// A result is sent as whichever it is, and documented as both; an error may
/// come with any status, so it is documented as the default.
pub proof fn a_result_is_sent_as_whichever_it_is<
    S,
    T: IntoResponse<S> + OperationOutput,
    E: IntoResponse<S> + OperationOutput,
>(value: T, failure: E, c: ContextModel)
    requires
        ordered::distinct(c.operation.responses),
    ensures
        IntoResponse::<S>::response(Ok::<T, E>(value)) == value.response(),
        IntoResponse::<S>::response(Err::<T, E>(failure)) == failure.response(),
        <Result<T, E> as OperationOutput>::described(c) == E::described(T::described(c)),
        <Result<T, E> as OperationOutput>::fixed_status() == T::fixed_status(),
        shown(<ApiError as OperationOutput>::described(c), "default"@) is Some,
        shown(<ApiError as OperationOutput>::described(c), "default"@)->0.content == content(
            "application/problem+json"@,
            gen::used::<ProblemDetails>(c.generator),
        ),
        <ApiError as OperationOutput>::fixed_status() is None,
{
    let r = crate::operation::problem(c.generator, "Error (RFC 9457 problem details)"@);
    ordered::insertion_is_remembered(c.operation.responses, "default"@, r, "default"@);
    assert(r.content =~= content(
        "application/problem+json"@,
        gen::used::<ProblemDetails>(c.generator),
    ));
}

/// Headers that are attached are sent, the later of two of the same name; those
/// of other names stay.
pub proof fn attached_headers_are_sent(
    fields: headers::Fields,
    pairs: Seq<(Seq<char>, Seq<char>)>,
    name: Seq<char>,
    value: Seq<char>,
    other: Seq<char>,
)
    requires
        headers::is_visible(encode_utf8(value)),
        text::ascii_lower(other) != text::ascii_lower(name),
    ensures
        headers::all_set(fields, Seq::empty()) == fields,
        headers::first(headers::all_set(fields, pairs.push((name, value))), name) == Some(value),
        headers::first(headers::all_set(fields, pairs.push((name, value))), other)
            == headers::first(headers::all_set(fields, pairs), other),
{
    assert(pairs.push((name, value)).drop_last() =~= pairs);
    let before = headers::all_set(fields, pairs);
    headers::a_field_reads_back(before, name, value, name);
    headers::a_field_reads_back(before, name, value, other);
}

} // verus!
