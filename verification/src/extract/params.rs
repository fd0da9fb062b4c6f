//! Typed path parameters, query strings and form bodies.

use crate::error::{ApiError, FieldFailure, Problem};
use crate::extract;
use crate::extract::de;
use crate::extract::de::{DeError, Pairs};
use crate::openapi::gen;
use crate::openapi::gen::JsonSchema;
use crate::openapi::ordered;
use crate::openapi::schema;
use crate::openapi::schema::{Schema, SchemaModel};
use crate::openapi::spec;
use crate::openapi::spec::{Parameter, ParameterIn, ParameterModel};
use crate::operation;
use crate::operation::{ContextModel, OperationContext, OperationInput};
use crate::request::{Request, RequestModel};
use crate::text;
use crate::utf8;
use crate::validate::Validate;
use vstd::prelude::*;
use vstd::string::*;
use vstd::utf8::*;

verus! {

/// A parameter with this schema. The description belongs on the parameter;
/// leaving a copy on the schema makes every UI render it twice.
pub open spec fn documented(
    name: Seq<char>,
    location: ParameterIn,
    schema: SchemaModel,
) -> ParameterModel {
    ParameterModel {
        description: schema.description,
        ..ParameterModel::new(name, location, SchemaModel { description: None, ..schema })
    }
}

fn document(name: &str, location: ParameterIn, schema: Schema) -> (out: Parameter)
    ensures
        out@ == documented(name@, location, schema@),
{
    let mut schema = schema;
    let ghost before = schema@;
    let description = schema.description.take();
    assert(schema@ =~= SchemaModel { description: None, ..before });
    let mut parameter = Parameter::new(name, location, schema);
    parameter.description = description;
    parameter
}

/// An error that one failure of decoding becomes.
pub open spec fn decoding_problem(code: Seq<char>, message: Seq<char>) -> Problem {
    Problem::unprocessable(seq![FieldFailure { pointer: ""@, code, message }])
}

// ---------------------------------------------------------------------------
// path parameters
// ---------------------------------------------------------------------------

/// The parameters captured from the route template.
///
/// A single number on `/users/{id}` extracts the one segment, a tuple takes
/// them positionally, and a struct takes them by name. In every case the
/// OpenAPI parameter list is generated from the same types, so a renamed field
/// cannot leave a stale parameter behind.
pub struct Path<T>(pub T);

impl<T> Path<T> {
    pub fn into_inner(self) -> (value: T)
        ensures
            value == self.0,
    {
        self.0
    }

    /// Reads the captured parameters, given what came of decoding them.
    pub fn from_request(req: &Request, decoded: Result<T, DeError>) -> (r: Result<
        Path<T>,
        ApiError,
    >)
        ensures
            if req@.params.len() == 0 {
                r is Err && r->Err_0@ == no_parameters(req@)
            } else {
                match decoded {
                    Ok(value) => r is Ok && r->Ok_0.0 == value,
                    Err(e) => r is Err && r->Err_0@ == (Problem {
                        title: "Invalid path parameter"@,
                        ..decoding_problem("invalid_path_parameter"@, e.0@)
                    }),
                }
            },
    {
        if req.params().len() == 0 {
            // The handler asked for path parameters on a route template that
            // declares none: a wiring bug, not a bad request.
            let mut cause = "handler expects path parameters but route `".to_owned();
            match req.matched_path() {
                Some(path) => cause.append(path),
                None => cause.append(req.path()),
            }
            cause.append("` declares none");
            return Err(ApiError::internal(cause.as_str()));
        }
        match decoded {
            Ok(value) => Ok(Path(value)),
            Err(e) => Err(
                extract::single_failure("", "invalid_path_parameter", e.0.as_str()).with_title(
                    "Invalid path parameter",
                ),
            ),
        }
    }
}

/// The captured parameters, as pairs to decode.
pub fn path_pairs(req: &Request) -> (out: Pairs)
    ensures
        out@ == de::grouped(req@.params),
{
    Pairs::from_pairs(req.params())
}

/// The error for a route that declares no parameters.
pub open spec fn no_parameters(req: RequestModel) -> Problem {
    let path = match req.matched_path {
        Some(path) => path,
        None => req.path,
    };
    Problem::internal(
        "handler expects path parameters but route `"@ + path + "` declares none"@,
    )
}

/// The schema of a property. A parameter in the template with no matching field
/// is still a real parameter; it is a string.
pub open spec fn property_or_text(schema: SchemaModel, name: Seq<char>) -> SchemaModel {
    match ordered::lookup(schema.properties, name) {
        Some(property) => property,
        None => SchemaModel::of_type("string"@),
    }
}

/// The schema of an element of a tuple, a string beyond the last.
pub open spec fn item_or_text(schema: SchemaModel, i: int) -> SchemaModel {
    if 0 <= i < schema.prefix_items.len() {
        schema.prefix_items[i]
    } else {
        SchemaModel::of_type("string"@)
    }
}

/// The parameters of a route template: of a struct, the properties of the same
/// names, in the template's order; of a lone scalar, the whole schema; of a
/// tuple, its elements by position.
pub open spec fn path_parameters(names: Seq<Seq<char>>, schema: SchemaModel) -> Seq<
    ParameterModel,
> {
    if schema.properties.len() > 0 {
        Seq::new(
            names.len(),
            |i: int| documented(names[i], ParameterIn::Path, property_or_text(schema, names[i])),
        )
    } else if names.len() == 1 {
        seq![documented(names[0], ParameterIn::Path, schema)]
    } else {
        Seq::new(
            names.len(),
            |i: int| ParameterModel::new(names[i], ParameterIn::Path, item_or_text(schema, i)),
        )
    }
}

fn list_path_parameters(names: &Vec<String>, schema: Schema) -> (out: Vec<Parameter>)
    ensures
        spec::seq_model(out@) == path_parameters(text::views(names@), schema@),
{
    let ghost views = text::views(names@);
    let ghost model = schema@;
    let mut out: Vec<Parameter> = Vec::new();
    proof {
        schema::lemma_schemas_model(schema.properties);
        schema::lemma_list_model(schema.prefix_items@);
    }
    let n: usize = names.len();
    if !schema.properties.is_empty() {
        for i in 0..n
            invariant
                n == names@.len(),
                views == text::views(names@),
                model == schema@,
                out@.len() == i,
                forall|j: int|
                    0 <= j < i ==> (#[trigger] out@[j])@ == documented(
                        views[j],
                        ParameterIn::Path,
                        property_or_text(model, views[j]),
                    ),
        {
            let name = names[i].as_str();
            assert(views[i as int] == name@);
            proof {
                gen::lemma_position(schema.properties, name@);
                schema::lemma_schemas_model(schema.properties);
                ordered::lemma_position(schema.properties@, name@);
            }
            let property = match schema.properties.get(name) {
                Some(property) => property.copy(),
                None => Schema::of_type("string"),
            };
            out.push(document(name, ParameterIn::Path, property));
        }
        assert(spec::seq_model(out@) =~= path_parameters(views, model));
    } else if n == 1 {
        assert(views[0] == names@[0]@);
        out.push(document(names[0].as_str(), ParameterIn::Path, schema));
        assert(spec::seq_model(out@) =~= path_parameters(views, model));
    } else {
        for i in 0..n
            invariant
                n == names@.len(),
                views == text::views(names@),
                model == schema@,
                out@.len() == i,
                forall|j: int|
                    0 <= j < i ==> (#[trigger] out@[j])@ == ParameterModel::new(
                        views[j],
                        ParameterIn::Path,
                        item_or_text(model, j),
                    ),
        {
            let name = names[i].as_str();
            assert(views[i as int] == name@);
            proof {
                schema::lemma_list_model(schema.prefix_items@);
            }
            let item = if i < schema.prefix_items.len() {
                schema.prefix_items[i].copy()
            } else {
                Schema::of_type("string")
            };
            out.push(Parameter::new(name, ParameterIn::Path, item));
        }
        assert(spec::seq_model(out@) =~= path_parameters(views, model));
    }
    out
}

impl<T: JsonSchema> OperationInput for Path<T> {
    open spec fn described(c: ContextModel) -> ContextModel {
        let names = operation::names_from(c.path, 0);
        if names.len() == 0 {
            c
        } else {
            let g = T::collect(c.generator);
            let schema = operation::resolved(g.definitions, T::describe(c.generator));
            c.with_generator(g).with_parameters(path_parameters(names, schema))
        }
    }

    fn describe(ctx: &mut OperationContext) {
        let names = ctx.path_param_names();
        if names.len() == 0 {
            return ;
        }
        let schema = ctx.inline_schema_for::<T>();
        let resolved = operation::resolve_object(&ctx.generator, &schema);
        let parameters = list_path_parameters(&names, resolved);
        ctx.add_parameters(parameters);
    }
}

// ---------------------------------------------------------------------------
// query strings
// ---------------------------------------------------------------------------

/// The parsed query string.
///
/// Repeated keys collect into sequences (`?tag=a&tag=b`), missing keys become
/// `None`, and every field turns into a documented parameter with its schema,
/// constraints, and description intact.
pub struct Query<T>(pub T);

impl<T> Query<T> {
    pub fn into_inner(self) -> (value: T)
        ensures
            value == self.0,
    {
        self.0
    }
}

impl<T: Validate> Query<T> {
    /// Reads the query string, given what came of decoding it.
    pub fn from_request(decoded: Result<T, DeError>) -> (r: Result<Query<T>, ApiError>)
        ensures
            match decoded {
                Err(e) => r is Err && r->Err_0@ == (Problem {
                    title: "Invalid query string"@,
                    ..decoding_problem("invalid_query"@, e.0@)
                }),
                Ok(value) => if value.faults().len() == 0 {
                    r is Ok && r->Ok_0.0 == value
                } else {
                    r is Err && r->Err_0@ == Problem::unprocessable(value.faults())
                },
            },
    {
        let value = match decoded {
            Ok(value) => value,
            Err(e) => return Err(
                extract::single_failure("", "invalid_query", e.0.as_str()).with_title(
                    "Invalid query string",
                ),
            ),
        };
        match value.validate() {
            Ok(_) => Ok(Query(value)),
            Err(e) => Err(e.into_api_error()),
        }
    }
}

/// The query string of a request, as pairs to decode.
pub fn query_pairs(req: &Request) -> (out: Pairs)
    ensures
        out@ == de::urlencoded(req@.query_text()),
{
    Pairs::parse_urlencoded(req.query())
}

/// The parameters of an object schema, one per property.
pub open spec fn object_parameters(schema: SchemaModel, location: ParameterIn) -> Seq<
    ParameterModel,
> {
    Seq::new(
        schema.properties.len(),
        |i: int|
            ParameterModel {
                required: location == ParameterIn::Path || schema.required.contains(
                    schema.properties[i].0,
                ),
                ..documented(schema.properties[i].0, location, schema.properties[i].1)
            },
    )
}

/// Builds a `Parameter` list from an object schema, one parameter per property.
pub fn parameters_from_object(schema: &Schema, location: ParameterIn) -> (out: Vec<Parameter>)
    ensures
        spec::seq_model(out@) == object_parameters(schema@, location),
{
    let ghost model = schema@;
    let mut out: Vec<Parameter> = Vec::new();
    let n: usize = schema.properties.len();
    proof {
        schema::lemma_schemas_model(schema.properties);
    }
    for i in 0..n
        invariant
            n == schema.properties@.len(),
            model == schema@,
            out@.len() == i,
            forall|j: int|
                0 <= j < i ==> (#[trigger] out@[j])@ == object_parameters(model, location)[j],
            object_parameters(model, location).len() == n,
    {
        proof {
            schema::lemma_schemas_model(schema.properties);
        }
        let name = schema.properties.key_at(i);
        let mut parameter = document(name, location, schema.properties.value_at(i).copy());
        parameter.required = location == ParameterIn::Path || text::has_text(
            &schema.required,
            name,
        );
        assert(parameter@ =~= object_parameters(model, location)[i as int]);
        out.push(parameter);
    }
    assert(spec::seq_model(out@) =~= object_parameters(model, location));
    out
}

impl<T: JsonSchema> OperationInput for Query<T> {
    open spec fn described(c: ContextModel) -> ContextModel {
        let g = T::collect(c.generator);
        let schema = operation::resolved(g.definitions, T::describe(c.generator));
        c.with_generator(g).with_parameters(object_parameters(schema, ParameterIn::Query))
    }

    fn describe(ctx: &mut OperationContext) {
        let schema = ctx.inline_schema_for::<T>();
        let resolved = operation::resolve_object(&ctx.generator, &schema);
        let parameters = parameters_from_object(&resolved, ParameterIn::Query);
        ctx.add_parameters(parameters);
    }
}

// ---------------------------------------------------------------------------
// form bodies
// ---------------------------------------------------------------------------

/// A `application/x-www-form-urlencoded` request body.
pub struct Form<T>(pub T);

/// What is wrong with a request whose body should be a form, before it is
/// decoded.
pub open spec fn form_fault(req: RequestModel) -> Option<Problem> {
    match req.content_type() {
        Some(ct) => if text::ascii_lower(ct) != "application/x-www-form-urlencoded"@ {
            Some(
                Problem::detailed(
                    415,
                    "Expected `application/x-www-form-urlencoded`, got `"@ + ct + "`."@,
                ),
            )
        } else if !valid_utf8(req.body) {
            Some(
                Problem::detailed(
                    400,
                    "Form body is not valid UTF-8: "@ + utf8::utf8_fault(req.body),
                ),
            )
        } else {
            None
        },
        None => Some(
            Problem::detailed(
                415,
                "Expected a `Content-Type` of `application/x-www-form-urlencoded`."@,
            ),
        ),
    }
}

/// The text of a form body.
pub fn form_text(req: &Request) -> (r: Result<&str, ApiError>)
    ensures
        match r {
            Ok(s) => form_fault(req@) is None && s@ == decode_utf8(req@.body),
            Err(e) => form_fault(req@) == Some(e@),
        },
{
    proof {
        reveal_strlit("application/x-www-form-urlencoded");
        assert(text::ascii_lower("application/x-www-form-urlencoded"@)
            =~= "application/x-www-form-urlencoded"@);
    }
    match req.content_type() {
        Some(ct) => {
            if !text::same_ignoring_case(ct.as_str(), "application/x-www-form-urlencoded") {
                let mut detail = "Expected `application/x-www-form-urlencoded`, got `".to_owned();
                detail.append(ct.as_str());
                detail.append("`.");
                return Err(ApiError::unsupported_media_type(detail.as_str()));
            }
        },
        None => return Err(
            ApiError::unsupported_media_type(
                "Expected a `Content-Type` of `application/x-www-form-urlencoded`.",
            ),
        ),
    }
    match utf8::from_utf8(req.body().as_slice()) {
        Ok(s) => Ok(s),
        Err(message) => {
            let mut detail = "Form body is not valid UTF-8: ".to_owned();
            detail.append(message.as_str());
            Err(ApiError::bad_request(detail.as_str()))
        },
    }
}

/// The form body of a request, as pairs to decode.
pub fn form_pairs(req: &Request) -> (r: Result<Pairs, ApiError>)
    ensures
        match r {
            Ok(pairs) => form_fault(req@) is None && pairs@ == de::urlencoded(
                decode_utf8(req@.body),
            ),
            Err(e) => form_fault(req@) == Some(e@),
        },
{
    match form_text(req) {
        Ok(s) => Ok(Pairs::parse_urlencoded(s)),
        Err(e) => Err(e),
    }
}

impl<T: Validate> Form<T> {
    /// Reads a form body, given what came of decoding it.
    pub fn from_request(req: &Request, decoded: Result<T, DeError>) -> (r: Result<
        Form<T>,
        ApiError,
    >)
        ensures
            match form_fault(req@) {
                Some(p) => r is Err && r->Err_0@ == p,
                None => match decoded {
                    Err(e) => r is Err && r->Err_0@ == decoding_problem("invalid_form"@, e.0@),
                    Ok(value) => if value.faults().len() == 0 {
                        r is Ok && r->Ok_0.0 == value
                    } else {
                        r is Err && r->Err_0@ == Problem::unprocessable(value.faults())
                    },
                },
            },
    {
        match form_text(req) {
            Ok(_) => {},
            Err(e) => return Err(e),
        }
        let value = match decoded {
            Ok(value) => value,
            Err(e) => return Err(extract::single_failure("", "invalid_form", e.0.as_str())),
        };
        match value.validate() {
            Ok(_) => Ok(Form(value)),
            Err(e) => Err(e.into_api_error()),
        }
    }
}

impl<T: JsonSchema> OperationInput for Form<T> {
    open spec fn described(c: ContextModel) -> ContextModel {
        extract::body_described(
            c.with_generator(gen::used_collect::<T>(c.generator)),
            None,
            "application/x-www-form-urlencoded"@,
            gen::used::<T>(c.generator),
        ).with_validation()
    }

    fn describe(ctx: &mut OperationContext) {
        let schema = ctx.schema_for::<T>();
        extract::describe_body(ctx, None, "application/x-www-form-urlencoded", schema);
        ctx.add_validation_response();
    }
}

// ---------------------------------------------------------------------------
// what holds of parameter lists
// ---------------------------------------------------------------------------

/// Path parameters are documented in the template's order, each under its own
/// name, and each is required.
pub proof fn path_parameters_follow_the_template(
    names: Seq<Seq<char>>,
    schema: SchemaModel,
    i: int,
)
    requires
        0 <= i < names.len(),
    ensures
        path_parameters(names, schema).len() == names.len(),
        path_parameters(names, schema)[i].name == names[i],
        path_parameters(names, schema)[i].location == ParameterIn::Path,
        path_parameters(names, schema)[i].required,
{
}

/// A query parameter is required exactly where its schema says so.
pub proof fn query_parameters_are_required_as_declared(schema: SchemaModel, i: int)
    requires
        0 <= i < schema.properties.len(),
    ensures
        object_parameters(schema, ParameterIn::Query)[i].name == schema.properties[i].0,
        object_parameters(schema, ParameterIn::Query)[i].required == schema.required.contains(
            schema.properties[i].0,
        ),
{
}

} // verus!
