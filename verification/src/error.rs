//! Errors as RFC 9457 problem details.
//!
//! Every failure an application produces (extractor rejections, validation
//! failures, handler errors, panics) is an [`ApiError`], and every [`ApiError`]
//! has a problem document. Clients get a stable, standardised, machine-readable
//! envelope, and the shape is described in the generated OpenAPI document so it
//! is never a surprise.

use crate::headers;
use crate::headers::{Fields, Headers};
use crate::json;
use crate::json::{Number, Value, ValueModel};
use crate::openapi::gen;
use crate::openapi::gen::{Collected, JsonSchema, SchemaGenerator};
use crate::openapi::ordered;
use crate::openapi::ordered::OrderedMap;
use crate::openapi::schema;
use crate::openapi::schema::{Schema, SchemaModel};
use crate::status;
use crate::text;
use vstd::prelude::*;
use vstd::string::*;

verus! {

/// The media type mandated by RFC 9457.
pub const PROBLEM_JSON: &'static str = "application/problem+json";

/// A single field-level failure, used for validation and deserialisation.
pub struct FieldError {
    /// JSON Pointer to the offending value, e.g. `/items/0/price`.
    pub pointer: String,
    /// A short machine-readable code such as `min_length` or `invalid_type`.
    pub code: String,
    /// Human-readable explanation.
    pub message: String,
}

/// A field-level failure, as a value.
pub struct FieldFailure {
    pub pointer: Seq<char>,
    pub code: Seq<char>,
    pub message: Seq<char>,
}

impl View for FieldError {
    type V = FieldFailure;

    open spec fn view(&self) -> FieldFailure {
        FieldFailure { pointer: self.pointer@, code: self.code@, message: self.message@ }
    }
}

/// The failures of a list.
pub open spec fn failures(list: Seq<FieldError>) -> Seq<FieldFailure> {
    list.map_values(|e: FieldError| e@)
}

pub proof fn lemma_failures_push(list: Seq<FieldError>, e: FieldError)
    ensures
        failures(list.push(e)) == failures(list).push(e@),
{
    assert(failures(list.push(e)) =~= failures(list).push(e@));
}

impl FieldError {
    pub fn new(pointer: &str, code: &str, message: &str) -> (e: Self)
        ensures
            e@ == (FieldFailure { pointer: pointer@, code: code@, message: message@ }),
    {
        FieldError {
            pointer: pointer.to_owned(),
            code: code.to_owned(),
            message: message.to_owned(),
        }
    }

    pub fn copy(&self) -> (e: Self)
        ensures
            e == *self,
    {
        FieldError {
            pointer: self.pointer.clone(),
            code: self.code.clone(),
            message: self.message.clone(),
        }
    }

    /// The failure as JSON.
    pub fn to_json(&self) -> (out: Value)
        ensures
            out@ == self@.json(),
    {
        let mut members: Vec<(String, Value)> = Vec::new();
        members.push(("pointer".to_owned(), Value::String(self.pointer.clone())));
        members.push(("code".to_owned(), Value::String(self.code.clone())));
        members.push(("message".to_owned(), Value::String(self.message.clone())));
        proof {
            json::lemma_members_model(members@);
            assert(json::members_model(members@) =~= seq![
                ("pointer"@, ValueModel::String(self.pointer@)),
                ("code"@, ValueModel::String(self.code@)),
                ("message"@, ValueModel::String(self.message@)),
            ]);
        }
        Value::Object(members)
    }
}

impl FieldFailure {
    pub open spec fn json(self) -> ValueModel {
        ValueModel::Object(
            seq![
                ("pointer"@, ValueModel::String(self.pointer)),
                ("code"@, ValueModel::String(self.code)),
                ("message"@, ValueModel::String(self.message)),
            ],
        )
    }
}

/// An error that knows how to render itself as an HTTP response.
///
/// Everything but the status lives behind a box, which keeps `ApiError` two
/// words wide: an error type carried inline would tax the success path of every
/// function that may fail.
pub struct ApiError {
    status: u16,
    inner: Box<Details>,
}

/// The cold half of an [`ApiError`].
struct Details {
    type_uri: Option<String>,
    title: String,
    detail: Option<String>,
    instance: Option<String>,
    errors: Vec<FieldError>,
    extensions: OrderedMap<Value>,
    headers: Headers,
    source: Option<String>,
}

/// An error, as a value.
#[verifier::ext_equal]
pub struct Problem {
    pub status: u16,
    pub type_uri: Option<Seq<char>>,
    pub title: Seq<char>,
    pub detail: Option<Seq<char>>,
    pub instance: Option<Seq<char>>,
    pub errors: Seq<FieldFailure>,
    pub extensions: Seq<(Seq<char>, ValueModel)>,
    pub headers: Fields,
    /// The cause, for logs. It is no part of the response.
    pub source: Option<Seq<char>>,
}

impl View for ApiError {
    type V = Problem;

    closed spec fn view(&self) -> Problem {
        Problem {
            status: self.status,
            type_uri: text::opt(self.inner.type_uri),
            title: self.inner.title@,
            detail: text::opt(self.inner.detail),
            instance: text::opt(self.inner.instance),
            errors: failures(self.inner.errors@),
            extensions: schema::values_model(self.inner.extensions),
            headers: self.inner.headers@,
            source: text::opt(self.inner.source),
        }
    }
}

impl Problem {
    /// An error with nothing but a status.
    pub open spec fn new(status: u16) -> Problem {
        Problem {
            status,
            type_uri: None,
            title: status::phrase(status),
            detail: None,
            instance: None,
            errors: Seq::empty(),
            extensions: Seq::empty(),
            headers: headers::no_fields(),
            source: None,
        }
    }

    /// An error with a status and a detail.
    pub open spec fn detailed(status: u16, detail: Seq<char>) -> Problem {
        Problem { detail: Some(detail), ..Problem::new(status) }
    }

    /// A `500` whose cause stays out of the document.
    pub open spec fn internal(source: Seq<char>) -> Problem {
        Problem {
            source: Some(source),
            ..Problem::detailed(500, "The server encountered an unexpected condition."@)
        }
    }

    /// A 422 with a list of field-level problems.
    pub open spec fn unprocessable(errors: Seq<FieldFailure>) -> Problem {
        Problem {
            title: "Validation failed"@,
            detail: Some(
                if errors.len() == 1 {
                    "1 field failed validation."@
                } else {
                    text::decimal(errors.len()) + " fields failed validation."@
                },
            ),
            errors,
            ..Problem::new(422)
        }
    }

    /// The error under another status: a title that is the old status' phrase
    /// becomes the new one's, any other stays.
    pub open spec fn with_status(self, status: u16) -> Problem {
        Problem {
            status,
            title: if status::reason_of(self.status) == Some(self.title) {
                status::phrase(status)
            } else {
                self.title
            },
            ..self
        }
    }

    /// The members of the problem document before the extensions.
    pub open spec fn members(self) -> Seq<(Seq<char>, ValueModel)> {
        let a = seq![
            (
                "type"@,
                ValueModel::String(
                    match self.type_uri {
                        Some(t) => t,
                        None => "about:blank"@,
                    },
                ),
            ),
            ("title"@, ValueModel::String(self.title)),
            ("status"@, ValueModel::Number(text::decimal(self.status as nat))),
        ];
        let b = match self.detail {
            Some(d) => a.push(("detail"@, ValueModel::String(d))),
            None => a,
        };
        let c = match self.instance {
            Some(i) => b.push(("instance"@, ValueModel::String(i))),
            None => b,
        };
        if self.errors.len() > 0 {
            c.push(
                (
                    "errors"@,
                    ValueModel::Array(self.errors.map_values(|e: FieldFailure| e.json())),
                ),
            )
        } else {
            c
        }
    }

    /// The problem document.
    pub open spec fn document(self) -> ValueModel {
        ValueModel::Object(with_members(self.members(), self.extensions))
    }
}

/// The members of an object after all of `extra` are set, in order.
pub open spec fn with_members(
    members: Seq<(Seq<char>, ValueModel)>,
    extra: Seq<(Seq<char>, ValueModel)>,
) -> Seq<(Seq<char>, ValueModel)>
    decreases extra.len(),
{
    if extra.len() == 0 {
        members
    } else {
        json::member_set(with_members(members, extra.drop_last()), extra.last().0, extra.last().1)
    }
}

impl ApiError {
    /// Builds an error with the given status. The title defaults to the
    /// canonical reason phrase.
    pub fn new(status: u16) -> (e: Self)
        ensures
            e@ == Problem::new(status),
    {
        let e = ApiError {
            status,
            inner: Box::new(
                Details {
                    type_uri: None,
                    title: status::status_phrase(status),
                    detail: None,
                    instance: None,
                    errors: Vec::new(),
                    extensions: OrderedMap::new(),
                    headers: Headers::new(),
                    source: None,
                },
            ),
        };
        assert(e@ =~= Problem::new(status));
        e
    }

    // ---- common statuses -------------------------------------------------

    pub fn bad_request(detail: &str) -> (e: Self)
        ensures
            e@ == Problem::detailed(400, detail@),
    {
        Self::new(400).with_detail(detail)
    }

    pub fn unauthorized(detail: &str) -> (e: Self)
        ensures
            e@ == Problem::detailed(401, detail@),
    {
        Self::new(401).with_detail(detail)
    }

    pub fn forbidden(detail: &str) -> (e: Self)
        ensures
            e@ == Problem::detailed(403, detail@),
    {
        Self::new(403).with_detail(detail)
    }

    pub fn not_found(detail: &str) -> (e: Self)
        ensures
            e@ == Problem::detailed(404, detail@),
    {
        Self::new(404).with_detail(detail)
    }

    pub fn conflict(detail: &str) -> (e: Self)
        ensures
            e@ == Problem::detailed(409, detail@),
    {
        Self::new(409).with_detail(detail)
    }

    pub fn unsupported_media_type(detail: &str) -> (e: Self)
        ensures
            e@ == Problem::detailed(415, detail@),
    {
        Self::new(415).with_detail(detail)
    }

    pub fn payload_too_large(detail: &str) -> (e: Self)
        ensures
            e@ == Problem::detailed(413, detail@),
    {
        Self::new(413).with_detail(detail)
    }

    pub fn too_many_requests(detail: &str) -> (e: Self)
        ensures
            e@ == Problem::detailed(429, detail@),
    {
        Self::new(429).with_detail(detail)
    }

    /// `422` with a list of field-level problems. This is what a failed
    /// validation produces.
    pub fn unprocessable(errors: Vec<FieldError>) -> (e: Self)
        ensures
            e@ == Problem::unprocessable(failures(errors@)),
    {
        let n: usize = errors.len();
        let detail = if n == 1 {
            "1 field failed validation.".to_owned()
        } else {
            let mut d = text::decimal_text(n as u64);
            d.append(" fields failed validation.");
            d
        };
        Self::new(422).with_title("Validation failed").with_detail(
            detail.as_str(),
        ).with_field_errors(errors)
    }

    /// The error of a document that is not JSON.
    pub fn invalid_json(cause: &str) -> (e: Self)
        ensures
            e@ == (Problem {
                title: "Invalid JSON"@,
                source: Some(cause@),
                ..Problem::detailed(400, "Malformed JSON: "@ + cause@)
            }),
    {
        let mut detail = "Malformed JSON: ".to_owned();
        detail.append(cause);
        Self::bad_request(detail.as_str()).with_title("Invalid JSON").with_source(cause)
    }

    /// `500`, carrying the underlying cause for logging while keeping it out of
    /// the response body.
    pub fn internal(source: &str) -> (e: Self)
        ensures
            e@ == Problem::internal(source@),
    {
        Self::new(500).with_detail("The server encountered an unexpected condition.").with_source(
            source,
        )
    }

    // ---- builders --------------------------------------------------------

    /// Keeps the title in sync unless it was customised away from the previous
    /// status' reason phrase.
    pub fn with_status(self, status: u16) -> (e: Self)
        ensures
            e@ == self@.with_status(status),
    {
        let mut e = self;
        let synced = match status::canonical_reason(e.status) {
            Some(reason) => text::same(e.inner.title.as_str(), reason.as_str()),
            None => false,
        };
        if synced {
            e.inner.title = status::status_phrase(status);
        }
        e.status = status;
        e
    }

    pub fn with_title(self, title: &str) -> (e: Self)
        ensures
            e@ == (Problem { title: title@, ..self@ }),
    {
        let mut e = self;
        e.inner.title = title.to_owned();
        e
    }

    pub fn with_detail(self, detail: &str) -> (e: Self)
        ensures
            e@ == (Problem { detail: Some(detail@), ..self@ }),
    {
        let mut e = self;
        e.inner.detail = Some(detail.to_owned());
        e
    }

    /// Sets the `type` URI that identifies this problem class.
    pub fn with_type(self, type_uri: &str) -> (e: Self)
        ensures
            e@ == (Problem { type_uri: Some(type_uri@), ..self@ }),
    {
        let mut e = self;
        e.inner.type_uri = Some(type_uri.to_owned());
        e
    }

    /// Sets the `instance` URI identifying this specific occurrence.
    pub fn with_instance(self, instance: &str) -> (e: Self)
        ensures
            e@ == (Problem { instance: Some(instance@), ..self@ }),
    {
        let mut e = self;
        e.inner.instance = Some(instance.to_owned());
        e
    }

    pub fn with_field_errors(self, errors: Vec<FieldError>) -> (e: Self)
        ensures
            e@ == (Problem { errors: failures(errors@), ..self@ }),
    {
        let mut e = self;
        e.inner.errors = errors;
        e
    }

    pub fn with_field_error(self, error: FieldError) -> (e: Self)
        ensures
            e@ == (Problem { errors: self@.errors.push(error@), ..self@ }),
    {
        let mut e = self;
        proof {
            lemma_failures_push(e.inner.errors@, error);
        }
        e.inner.errors.push(error);
        e
    }

    /// Adds a top-level extension member to the problem document.
    pub fn with_extension(self, key: &str, value: Value) -> (e: Self)
        ensures
            e@ == (Problem {
                extensions: ordered::inserted(self@.extensions, key@, value@),
                ..self@
            }),
    {
        let mut e = self;
        let ghost before = e.inner.extensions;
        e.inner.extensions.insert(key.to_owned(), value);
        proof {
            schema::lemma_values_inserted(before, e.inner.extensions, key@, value);
        }
        e
    }

    /// Adds a header to the eventual response, e.g. `WWW-Authenticate`.
    pub fn with_header(self, name: &str, value: &str) -> (e: Self)
        requires
            headers::is_name(name@),
            headers::is_value(value@),
            headers::has_room(self@.headers),
        ensures
            e@ == (Problem { headers: headers::set(self@.headers, name@, value@), ..self@ }),
    {
        let mut e = self;
        e.inner.headers.insert(name, value);
        e
    }

    pub fn with_source(self, source: &str) -> (e: Self)
        ensures
            e@ == (Problem { source: Some(source@), ..self@ }),
    {
        let mut e = self;
        e.inner.source = Some(source.to_owned());
        e
    }

    // ---- accessors -------------------------------------------------------

    pub fn status(&self) -> (status: u16)
        ensures
            status == self@.status,
    {
        self.status
    }

    pub fn title(&self) -> (title: &str)
        ensures
            title@ == self@.title,
    {
        self.inner.title.as_str()
    }

    pub fn detail(&self) -> (detail: Option<&str>)
        ensures
            match detail {
                Some(d) => self@.detail == Some(d@),
                None => self@.detail is None,
            },
    {
        match &self.inner.detail {
            Some(d) => Some(d.as_str()),
            None => None,
        }
    }

    pub fn field_errors(&self) -> (errors: &[FieldError])
        ensures
            failures(errors@) == self@.errors,
    {
        self.inner.errors.as_slice()
    }

    /// The headers for the eventual response.
    pub fn headers(&self) -> (headers: &Headers)
        ensures
            headers@ == self@.headers,
    {
        &self.inner.headers
    }

    /// The headers for the eventual response, taken out of the error.
    pub fn into_headers(self) -> (headers: Headers)
        ensures
            headers@ == self@.headers,
    {
        self.inner.headers
    }

    /// What caused the error, for logging; it never reaches the document.
    pub fn source(&self) -> (source: Option<&str>)
        ensures
            match source {
                Some(s) => self@.source == Some(s@),
                None => self@.source is None,
            },
    {
        match &self.inner.source {
            Some(s) => Some(s.as_str()),
            None => None,
        }
    }

    /// The problem document as JSON, without the HTTP envelope.
    pub fn to_problem_json(&self) -> (out: Value)
        ensures
            out@ == self@.document(),
    {
        let ghost model = self@;
        let mut members: Vec<(String, Value)> = Vec::new();
        let type_uri = match &self.inner.type_uri {
            Some(t) => t.clone(),
            None => "about:blank".to_owned(),
        };
        members.push(("type".to_owned(), Value::String(type_uri)));
        members.push(("title".to_owned(), Value::String(self.inner.title.clone())));
        members.push(("status".to_owned(), Value::Number(Number::from_u64(self.status as u64))));
        if let Some(detail) = &self.inner.detail {
            members.push(("detail".to_owned(), Value::String(detail.clone())));
        }
        if let Some(instance) = &self.inner.instance {
            members.push(("instance".to_owned(), Value::String(instance.clone())));
        }
        if self.inner.errors.len() > 0 {
            let list = errors_json(&self.inner.errors);
            members.push(("errors".to_owned(), Value::Array(list)));
        }
        proof {
            json::lemma_members_model(members@);
            assert(json::members_model(members@) =~= model.members());
        }
        let extra = &self.inner.extensions;
        let n: usize = extra.len();
        assert(model.extensions.take(0) =~= Seq::<(Seq<char>, ValueModel)>::empty());
        for i in 0..n
            invariant
                n == extra@.len(),
                model.extensions == schema::values_model(*extra),
                json::members_model(members@) == with_members(
                    model.members(),
                    model.extensions.take(i as int),
                ),
        {
            assert(model.extensions.take(i + 1).drop_last() =~= model.extensions.take(i as int));
            set_member(&mut members, extra.key_at(i).to_owned(), extra.value_at(i).copy());
        }
        assert(model.extensions.take(n as int) =~= model.extensions);
        Value::Object(members)
    }

    /// One line for logs: the status, the title and the detail.
    pub fn summary(&self) -> (out: String)
        ensures
            out@ == text::decimal(self@.status as nat) + " "@ + self@.title + match self@.detail {
                Some(d) => ": "@ + d,
                None => Seq::empty(),
            },
    {
        let mut out = text::decimal_text(self.status as u64);
        out.append(" ");
        out.append(self.inner.title.as_str());
        let ghost head = out@;
        if let Some(detail) = &self.inner.detail {
            out.append(": ");
            out.append(detail.as_str());
            assert(out@ =~= head + (": "@ + detail@));
        } else {
            assert(head + Seq::<char>::empty() =~= head);
        }
        out
    }
}

fn errors_json(errors: &Vec<FieldError>) -> (out: Vec<Value>)
    ensures
        json::list_model(out@) == failures(errors@).map_values(|e: FieldFailure| e.json()),
{
    let mut out: Vec<Value> = Vec::new();
    for i in 0..errors.len()
        invariant
            out@.len() == i,
            forall|j: int| 0 <= j < i ==> (#[trigger] out@[j])@ == errors@[j]@.json(),
    {
        out.push(errors[i].to_json());
    }
    proof {
        json::lemma_list_model(out@);
        assert(json::list_model(out@) =~= failures(errors@).map_values(
            |e: FieldFailure| e.json(),
        ));
    }
    out
}

/// Sets a member of an object: in its place if it is there, at the end if not.
fn set_member(members: &mut Vec<(String, Value)>, key: String, value: Value)
    ensures
        json::members_model(final(members)@) == json::member_set(
            json::members_model(old(members)@),
            key@,
            value@,
        ),
{
    let ghost before = members@;
    let ghost model = json::members_model(before);
    proof {
        json::lemma_members_model(before);
    }
    let n: usize = members.len();
    let mut k: usize = n;
    assert(model.take(n as int) =~= model);
    while k > 0 && !text::same(members[k - 1].0.as_str(), key.as_str())
        invariant
            k <= n == members@.len(),
            members@ == before,
            model == json::members_model(before),
            model.len() == n,
            forall|i: int| 0 <= i < n ==> #[trigger] model[i] == (before[i].0@, before[i].1@),
            ordered::position(model, key@) == ordered::position(model.take(k as int), key@),
        decreases k,
    {
        assert(model.take(k as int).last() == model[k - 1]);
        assert(model.take(k as int).drop_last() =~= model.take(k - 1));
        k -= 1;
    }
    if k == 0 {
        assert(ordered::position(model, key@) is None);
        let item = (key, value);
        assert(before.push(item).drop_last() =~= before);
        members.push(item);
    } else {
        assert(model.take(k as int).last() == model[k - 1]);
        let at: usize = k - 1;
        members.set(at, (key, value));
        proof {
            json::lemma_members_model(members@);
            assert(json::members_model(members@) =~= model.update(at as int, (key@, value@)));
        }
    }
}

// ---------------------------------------------------------------------------
// How errors are described
// ---------------------------------------------------------------------------

/// The schema of a text.
pub open spec fn text_schema() -> SchemaModel {
    SchemaModel::of_type("string"@)
}

/// An object schema with these properties, the last one set last.
pub open spec fn with_property(
    schema: SchemaModel,
    name: Seq<char>,
    property: SchemaModel,
) -> SchemaModel {
    SchemaModel { properties: ordered::inserted(schema.properties, name, property), ..schema }
}

/// Sets a property of an object schema.
pub fn set_property(schema: Schema, name: &str, property: Schema) -> (out: Schema)
    ensures
        out@ == with_property(schema@, name@, property@),
{
    let mut out = schema;
    let ghost before = out.properties;
    out.properties.insert(name.to_owned(), property);
    proof {
        gen::lemma_inserted(before, out.properties, name@, property);
    }
    out
}

pub open spec fn field_error_schema() -> SchemaModel {
    let a = SchemaModel {
        description: Some("A single field-level failure."@),
        ..SchemaModel::of_type("object"@)
    };
    let b = with_property(
        a,
        "pointer"@,
        text_schema().described("JSON Pointer to the offending value."@),
    );
    let c = with_property(
        b,
        "code"@,
        text_schema().described("Machine-readable failure code."@),
    );
    let d = with_property(
        c,
        "message"@,
        text_schema().described("Human-readable explanation."@),
    );
    SchemaModel { required: seq!["pointer"@, "code"@, "message"@], ..d }
}

impl JsonSchema for FieldError {
    open spec fn name() -> Option<Seq<char>> {
        Some("FieldError"@)
    }

    open spec fn describe(g: Collected) -> SchemaModel {
        field_error_schema()
    }

    open spec fn collect(g: Collected) -> Collected {
        g
    }

    open spec fn may_be_absent() -> bool {
        false
    }

    proof fn only_adds(g: Collected) {
    }

    fn schema_name() -> (name: Option<String>) {
        Some("FieldError".to_owned())
    }

    fn json_schema(generator: &mut SchemaGenerator) -> (schema: Schema) {
        let mut out = Schema::of_type("object");
        out.description = Some("A single field-level failure.".to_owned());
        let out = set_property(
            out,
            "pointer",
            generator.subschema_for::<String>().with_description(
                "JSON Pointer to the offending value.",
            ),
        );
        let out = set_property(
            out,
            "code",
            generator.subschema_for::<String>().with_description("Machine-readable failure code."),
        );
        let mut out = set_property(
            out,
            "message",
            generator.subschema_for::<String>().with_description("Human-readable explanation."),
        );
        out.required = three("pointer", "code", "message");
        out
    }

    fn optional() -> (r: bool) {
        false
    }
}

fn three(a: &str, b: &str, c: &str) -> (out: Vec<String>)
    ensures
        text::views(out@) == seq![a@, b@, c@],
{
    let mut out: Vec<String> = Vec::new();
    out.push(a.to_owned());
    out.push(b.to_owned());
    out.push(c.to_owned());
    assert(text::views(out@) =~= seq![a@, b@, c@]);
    out
}

/// What caused an error response, as its text. Layers around the handler read
/// it off the response; it is never sent.
pub struct ErrorSource(pub String);

/// What caused an error response, as a value.
pub open spec fn cause(source: Option<ErrorSource>) -> Option<Seq<char>> {
    match source {
        Some(s) => Some(s.0@),
        None => None,
    }
}

/// The problem-details envelope, exposed so it can be referenced from the
/// generated OpenAPI document.
pub struct ProblemDetails;

pub open spec fn problem_schema() -> SchemaModel {
    let a = SchemaModel {
        title: Some("Problem Details"@),
        description: Some(
            "An RFC 9457 problem details object. Served as `application/problem+json`."@,
        ),
        ..SchemaModel::of_type("object"@)
    };
    let b = with_property(
        a,
        "type"@,
        text_schema().described("URI identifying the problem type."@),
    );
    let c = with_property(b, "title"@, text_schema().described("Short, human-readable summary."@));
    let d = with_property(
        c,
        "status"@,
        <u16 as JsonSchema>::describe(Collected::empty()).described("The HTTP status code."@),
    );
    let e = with_property(
        d,
        "detail"@,
        text_schema().described("Explanation specific to this occurrence."@),
    );
    let f = with_property(
        e,
        "instance"@,
        text_schema().described("URI identifying this occurrence."@),
    );
    let g = with_property(
        f,
        "errors"@,
        SchemaModel::array(SchemaModel::reference(gen::component("FieldError"@))).described(
            "Field-level failures, present on validation errors."@,
        ),
    );
    SchemaModel { required: seq!["title"@, "status"@], ..g }
}

impl JsonSchema for ProblemDetails {
    open spec fn name() -> Option<Seq<char>> {
        Some("ProblemDetails"@)
    }

    open spec fn describe(g: Collected) -> SchemaModel {
        problem_schema()
    }

    open spec fn collect(g: Collected) -> Collected {
        gen::used_collect::<FieldError>(g)
    }

    open spec fn may_be_absent() -> bool {
        false
    }

    proof fn only_adds(g: Collected) {
        gen::using_a_type_only_adds::<FieldError>(g);
    }

    fn schema_name() -> (name: Option<String>) {
        Some("ProblemDetails".to_owned())
    }

    fn json_schema(generator: &mut SchemaGenerator) -> (schema: Schema) {
        let mut out = Schema::of_type("object");
        out.title = Some("Problem Details".to_owned());
        out.description = Some(
            "An RFC 9457 problem details object. Served as `application/problem+json`.".to_owned(),
        );
        let string = generator.subschema_for::<String>();
        let out = set_property(
            out,
            "type",
            string.copy().with_description("URI identifying the problem type."),
        );
        let out = set_property(
            out,
            "title",
            string.copy().with_description("Short, human-readable summary."),
        );
        let out = set_property(
            out,
            "status",
            generator.subschema_for::<u16>().with_description("The HTTP status code."),
        );
        let out = set_property(
            out,
            "detail",
            string.copy().with_description("Explanation specific to this occurrence."),
        );
        let out = set_property(
            out,
            "instance",
            string.with_description("URI identifying this occurrence."),
        );
        let field_error = generator.subschema_for::<FieldError>();
        let mut out = set_property(
            out,
            "errors",
            Schema::array(field_error).with_description(
                "Field-level failures, present on validation errors.",
            ),
        );
        let mut required: Vec<String> = Vec::new();
        required.push("title".to_owned());
        required.push("status".to_owned());
        assert(text::views(required@) =~= seq!["title"@, "status"@]);
        out.required = required;
        out
    }

    fn optional() -> (r: bool) {
        false
    }
}

// ---------------------------------------------------------------------------
// What holds of errors as a whole
// ---------------------------------------------------------------------------

/// The cause of an error is no part of its document.
pub proof fn the_cause_stays_out_of_the_document(p: Problem, source: Option<Seq<char>>)
    ensures
        (Problem { source, ..p }).document() == p.document(),
{
}

/// A default title follows the status; a custom one does not.
pub proof fn only_a_default_title_follows_the_status(p: Problem, status: u16)
    ensures
        status::reason_of(p.status) == Some(p.title) ==> p.with_status(status).title
            == status::phrase(status),
        status::reason_of(p.status) != Some(p.title) ==> p.with_status(status).title == p.title,
        p.with_status(status).status == status,
{
}

} // verus!
