//! What a request must look like, what is said of one that does not, and how
//! its parts are documented.

use crate::error::{FieldFailure, ProblemDetails};
use crate::extract::json;
use crate::extract::json::{Json, JsonCategory, JsonFailure, PathStep};
use crate::extract::params;
use crate::extract::params::Form;
use crate::extract::pieces;
use crate::laws::answers::{content, shown};
use crate::openapi::gen;
use crate::openapi::gen::JsonSchema;
use crate::openapi::ordered;
use crate::openapi::schema::SchemaModel;
use crate::openapi::spec::{
    OperationModel, ParameterIn, ParameterModel, RequestBodyModel,
};
use crate::operation;
use crate::operation::{ContextModel, OperationInput};
use crate::request;
use crate::request::RequestModel;
use crate::text;
use crate::validate;
use vstd::prelude::*;
use vstd::string::*;
use vstd::utf8::*;

verus! {

proof fn lemma_no_separator(s: Seq<char>, c: char, from: int)
    requires
        !s.contains(c),
        0 <= from,
    ensures
        text::index_of(s, c, from) is None,
    decreases s.len() - from,
{
    if from < s.len() {
        assert(s.contains(s[from]));
        lemma_no_separator(s, c, from + 1);
    }
}

proof fn lemma_first_separator(front: Seq<char>, c: char, rest: Seq<char>, from: int)
    requires
        !front.contains(c),
        0 <= from <= front.len(),
    ensures
        text::index_of(front.push(c) + rest, c, from) == Some(front.len() as int),
    decreases front.len() - from,
{
    let s = front.push(c) + rest;
    if from < front.len() {
        assert(s[from] == front[from]);
        assert(front.contains(front[from]));
        lemma_first_separator(front, c, rest, from + 1);
    } else {
        assert(s[from] == c);
    }
}

/// A content type is read without its parameters and without regard to case.
pub proof fn a_media_type_is_read_without_its_parameters(essence: Seq<char>, parameters: Seq<char>)
    requires
        essence.len() > 0,
        !essence.contains(';'),
        !text::is_white(essence.first()),
        !text::is_white(essence.last()),
    ensures
        request::media_type(essence) == text::ascii_lower(essence),
        request::media_type(essence.push(';') + parameters) == text::ascii_lower(essence),
{
    lemma_no_separator(essence, ';', 0);
    lemma_first_separator(essence, ';', parameters, 0);
    assert((essence.push(';') + parameters).take(essence.len() as int) =~= essence);
}

proof fn lemma_last_plus(front: Seq<char>, suffix: Seq<char>, to: int)
    requires
        !suffix.contains('+'),
        front.len() + 1 <= to <= front.len() + 1 + suffix.len(),
    ensures
        json::last_plus(front.push('+') + suffix, to) == Some(front.len() as int),
    decreases to,
{
    let s = front.push('+') + suffix;
    if to > front.len() + 1 {
        assert(s[to - 1] == suffix[to - 2 - front.len()]);
        assert(suffix.contains(suffix[to - 2 - front.len()]));
        lemma_last_plus(front, suffix, to - 1);
    } else {
        assert(s[to - 1] == '+');
    }
}

proof fn lemma_no_plus(s: Seq<char>, to: int)
    requires
        !s.contains('+'),
        0 <= to <= s.len(),
    ensures
        json::last_plus(s, to) is None,
    decreases to,
{
    if to > 0 {
        assert(s.contains(s[to - 1]));
        lemma_no_plus(s, to - 1);
    }
}

/// `application/json` and `text/json` are JSON, and so is every type with the
/// suffix `+json`.
pub proof fn json_types_are_json(kind: Seq<char>)
    requires
        kind.len() > 0,
        !text::is_white(kind.first()),
    ensures
        json::is_json("application/json"@),
        json::is_json("text/json"@),
        json::is_json(kind + "+json"@),
{
    reveal_strlit("application/json");
    reveal_strlit("text/json");
    reveal_strlit("json");
    reveal_strlit("+json");
    assert(text::ascii_lower("application/json"@) =~= "application/json"@);
    assert(text::ascii_lower("text/json"@) =~= "text/json"@);
    assert(text::ascii_lower("json"@) =~= "json"@);
    let s = kind + "+json"@;
    assert(s =~= kind.push('+') + "json"@);
    assert(s.last() == 'n');
    assert(s.first() == kind.first());
    assert(text::trim(s) == s);
    assert(!"json"@.contains('+'));
    lemma_last_plus(kind, "json"@, s.len() as int);
    assert(s.skip((kind.len() + 1) as int) =~= "json"@);
}

/// No other type is JSON.
pub proof fn other_types_are_not_json(kind: Seq<char>, suffix: Seq<char>)
    requires
        kind.len() > 0,
        !text::is_white(kind.first()),
        !text::is_white(kind.last()),
        !kind.contains('+'),
        text::ascii_lower(kind) != "application/json"@,
        text::ascii_lower(kind) != "text/json"@,
        !suffix.contains('+'),
        suffix.len() > 0,
        !text::is_white(suffix.last()),
        text::ascii_lower(suffix) != "json"@,
    ensures
        !json::is_json(kind),
        !json::is_json(kind.push('+') + suffix),
{
    assert(text::trim(kind) == kind);
    lemma_no_plus(kind, kind.len() as int);
    let s = kind.push('+') + suffix;
    assert(s.first() == kind.first());
    assert(s.last() == suffix.last());
    assert(text::trim(s) == s);
    lemma_last_plus(kind, suffix, s.len() as int);
    assert(s.skip((kind.len() + 1) as int) =~= suffix);
    reveal_strlit("application/json");
    reveal_strlit("text/json");
    let low = text::ascii_lower(s);
    assert(s[kind.len() as int] == '+');
    assert(low[kind.len() as int] == '+');
    if low == "application/json"@ {
        assert(!"application/json"@.contains('+'));
        assert(low.contains(low[kind.len() as int]));
    }
    if low == "text/json"@ {
        assert(!"text/json"@.contains('+'));
        assert(low.contains(low[kind.len() as int]));
    }
}

/// A body of another type than JSON is refused with a `415` that names the type.
/// An empty body is refused with a `400`. Any other body is parsed.
pub proof fn a_json_body_is_asked_for(req: RequestModel)
    ensures
        req.content_type() matches Some(ct) ==> !json::is_json(ct) ==> {
            &&& json::json_fault(req) is Some
            &&& json::json_fault(req)->0.status == 415
            &&& json::json_fault(req)->0.detail == Some(
                "Expected `application/json`, got `"@ + ct + "`."@,
            )
        },
        (req.content_type() matches Some(ct) ==> json::is_json(ct)) && req.body.len() == 0 ==> {
            &&& json::json_fault(req) is Some
            &&& json::json_fault(req)->0.status == 400
            &&& json::json_fault(req)->0.title == "Missing body"@
        },
        (req.content_type() matches Some(ct) ==> json::is_json(ct)) && req.body.len() > 0
            ==> json::json_fault(req) is None,
{
}

/// What is not JSON, or ends too early, is refused with a `400`; JSON of the
/// wrong shape with a `422` that points at the value.
pub proof fn a_failure_to_parse_is_told_apart(f: JsonFailure)
    ensures
        f.category == JsonCategory::Syntax || f.category == JsonCategory::Eof ==> {
            &&& json::failure_problem(f).status == 400
            &&& json::failure_problem(f).title == "Invalid JSON"@
            &&& json::failure_problem(f).errors.len() == 0
            &&& json::failure_problem(f).detail == Some("Malformed JSON: "@ + f.message@)
        },
        f.category != JsonCategory::Syntax && f.category != JsonCategory::Eof ==> {
            &&& json::failure_problem(f).status == 422
            &&& json::failure_problem(f).errors == seq![
                FieldFailure {
                    pointer: json::pointer(f.path@),
                    code: "invalid_type"@,
                    message: f.message@,
                },
            ]
        },
{
}

/// In a pointer `~` is written `~0`, `/` is written `~1`, and every other
/// character as it is.
pub proof fn a_pointer_escapes_two_characters(a: Seq<char>, c: char)
    ensures
        validate::escaped(Seq::empty()) == Seq::<char>::empty(),
        validate::escaped(a.push(c)) == validate::escaped(a) + if c == '~' {
            "~0"@
        } else if c == '/' {
            "~1"@
        } else {
            seq![c]
        },
{
    reveal_strlit("~0");
    reveal_strlit("~1");
    let once = text::replaced(a, '~', "~0"@);
    assert(a.push(c).drop_last() =~= a);
    let last = if c == '~' {
        "~0"@
    } else {
        seq![c]
    };
    assert(text::replaced(a.push(c), '~', "~0"@) =~= once + last);
    text::lemma_replaced_concat(once, last, '/', "~1"@);
    reveal_with_fuel(text::replaced, 3);
    if c == '~' {
        assert("~0"@.drop_last() =~= seq!['~']);
        assert(seq!['~'].drop_last() =~= Seq::empty());
        assert(text::replaced(seq!['~'], '/', "~1"@) =~= seq!['~']);
        assert(text::replaced("~0"@, '/', "~1"@) =~= "~0"@);
    } else {
        assert(seq![c].drop_last() =~= Seq::empty());
        assert(text::replaced(seq![c], '/', "~1"@) =~= if c == '/' {
            "~1"@
        } else {
            seq![c]
        });
    }
}

/// A pointer names each index and each key on the way, in order.
pub proof fn a_pointer_names_the_way(steps: Seq<PathStep>, i: usize, key: String)
    ensures
        json::pointer(Seq::empty()) == Seq::<char>::empty(),
        json::pointer(steps.push(PathStep::Index(i))) == json::pointer(steps) + "/"@
            + text::decimal(i as nat),
        json::pointer(steps.push(PathStep::Key(key))) == json::pointer(steps) + "/"@
            + validate::escaped(key@),
        json::pointer(steps.push(PathStep::Unnamed)) == json::pointer(steps),
{
    assert(steps.push(PathStep::Index(i)).drop_last() =~= steps);
    assert(steps.push(PathStep::Key(key)).drop_last() =~= steps);
    assert(steps.push(PathStep::Unnamed).drop_last() =~= steps);
}

/// A form is taken under its own media type only, and only as text: any other
/// type, and none at all, is refused with a `415`, a body that is no text with a
/// `400`.
pub proof fn a_form_body_is_asked_for(req: RequestModel)
    ensures
        req.content_type() is None ==> params::form_fault(req) is Some && params::form_fault(
            req,
        )->0.status == 415,
        req.content_type() matches Some(ct) && ct == "application/x-www-form-urlencoded"@ ==> {
            &&& valid_utf8(req.body) ==> params::form_fault(req) is None
            &&& !valid_utf8(req.body) ==> params::form_fault(req) is Some && params::form_fault(
                req,
            )->0.status == 400
        },
        req.content_type() matches Some(ct) ==> text::ascii_lower(ct)
            != "application/x-www-form-urlencoded"@ ==> {
            &&& params::form_fault(req) is Some
            &&& params::form_fault(req)->0.status == 415
            &&& params::form_fault(req)->0.detail == Some(
                "Expected `application/x-www-form-urlencoded`, got `"@ + ct + "`."@,
            )
        },
{
    reveal_strlit("application/x-www-form-urlencoded");
    assert(text::ascii_lower("application/x-www-form-urlencoded"@)
        =~= "application/x-www-form-urlencoded"@);
}

proof fn lemma_validation(c: ContextModel)
    requires
        ordered::distinct(c.operation.responses),
    ensures
        shown(c.with_validation(), "422"@) is Some,
        shown(c.with_validation(), "422"@)->0.content == content(
            "application/problem+json"@,
            gen::used::<ProblemDetails>(c.generator),
        ),
        c.with_validation().operation == (OperationModel {
            responses: c.with_validation().operation.responses,
            ..c.operation
        }),
        shown(c.with_validation(), "400"@) == shown(c, "400"@),
        shown(c.with_validation(), "200"@) == shown(c, "200"@),
{
    reveal_strlit("422");
    reveal_strlit("400");
    reveal_strlit("200");
    assert("422"@[0] == '4' && "422"@[1] == '2');
    assert("400"@[0] == '4' && "400"@[1] == '0');
    assert("200"@[0] == '2');
    let r = operation::problem(c.generator, operation::validation_description());
    ordered::insertion_is_remembered(c.operation.responses, "422"@, r, "400"@);
    ordered::insertion_is_remembered(c.operation.responses, "422"@, r, "200"@);
    assert(r.content =~= content(
        "application/problem+json"@,
        gen::used::<ProblemDetails>(c.generator),
    ));
}

/// A JSON body is documented as required, under its media type with the schema
/// of its type, and with the `422` that a body of the wrong shape is given.
pub proof fn a_json_body_is_documented<T: JsonSchema>(c: ContextModel)
    requires
        ordered::distinct(c.operation.responses),
    ensures
        <Json<T> as OperationInput>::described(c).operation.request_body == Some(
            RequestBodyModel {
                description: None,
                content: content("application/json"@, gen::used::<T>(c.generator)),
                required: true,
            },
        ),
        <Json<T> as OperationInput>::described(c).operation.parameters == c.operation.parameters,
        shown(<Json<T> as OperationInput>::described(c), "422"@) is Some,
        shown(<Json<T> as OperationInput>::described(c), "422"@)->0.content.len() == 1,
        shown(<Json<T> as OperationInput>::described(c), "422"@)->0.content[0].0
            == "application/problem+json"@,
{
    let with_body = crate::extract::body_described(
        c.with_generator(gen::used_collect::<T>(c.generator)),
        None,
        "application/json"@,
        gen::used::<T>(c.generator),
    );
    lemma_validation(with_body);
    assert(with_body.operation.request_body->0.content =~= content(
        "application/json"@,
        gen::used::<T>(c.generator),
    ));
}

/// A form is documented as a JSON body is, under its own media type.
pub proof fn a_form_body_is_documented<T: JsonSchema>(c: ContextModel)
    requires
        ordered::distinct(c.operation.responses),
    ensures
        <Form<T> as OperationInput>::described(c).operation.request_body == Some(
            RequestBodyModel {
                description: None,
                content: content(
                    "application/x-www-form-urlencoded"@,
                    gen::used::<T>(c.generator),
                ),
                required: true,
            },
        ),
        <Form<T> as OperationInput>::described(c).operation.parameters == c.operation.parameters,
        shown(<Form<T> as OperationInput>::described(c), "422"@) is Some,
        shown(<Form<T> as OperationInput>::described(c), "422"@)->0.content.len() == 1,
        shown(<Form<T> as OperationInput>::described(c), "422"@)->0.content[0].0
            == "application/problem+json"@,
{
    let with_body = crate::extract::body_described(
        c.with_generator(gen::used_collect::<T>(c.generator)),
        None,
        "application/x-www-form-urlencoded"@,
        gen::used::<T>(c.generator),
    );
    lemma_validation(with_body);
    assert(with_body.operation.request_body->0.content =~= content(
        "application/x-www-form-urlencoded"@,
        gen::used::<T>(c.generator),
    ));
}

/// A path parameter is documented with the schema of the property of its name,
/// and as text where there is none. What is said of the property is said of the
/// parameter, not of its schema.
pub proof fn a_path_parameter_is_documented_as_its_property(
    names: Seq<Seq<char>>,
    schema: SchemaModel,
    i: int,
    j: int,
)
    requires
        0 <= i < names.len(),
        0 <= j < schema.properties.len(),
        ordered::distinct(schema.properties),
        schema.properties[j].0 == names[i],
    ensures
        params::path_parameters(names, schema).len() == names.len(),
        params::path_parameters(names, schema)[i] == (ParameterModel {
            name: names[i],
            location: ParameterIn::Path,
            description: schema.properties[j].1.description,
            required: true,
            deprecated: false,
            style: None,
            explode: None,
            schema: Some(SchemaModel { description: None, ..schema.properties[j].1 }),
            examples: Seq::empty(),
        }),
{
    ordered::lemma_position(schema.properties, names[i]);
    ordered::lemma_position_is(schema.properties, j);
}

/// A tuple documents the parameters of a template by position.
pub proof fn a_tuple_documents_parameters_by_position(
    names: Seq<Seq<char>>,
    schema: SchemaModel,
    i: int,
)
    requires
        names.len() > 1,
        0 <= i < names.len(),
        schema.properties.len() == 0,
        i < schema.prefix_items.len(),
    ensures
        params::path_parameters(names, schema).len() == names.len(),
        params::path_parameters(names, schema)[i].name == names[i],
        params::path_parameters(names, schema)[i].location == ParameterIn::Path,
        params::path_parameters(names, schema)[i].required,
        params::path_parameters(names, schema)[i].schema == Some(schema.prefix_items[i]),
{
}

/// A lone value documents the only parameter of its template.
pub proof fn a_value_documents_the_only_parameter(name: Seq<char>, schema: SchemaModel)
    requires
        schema.properties.len() == 0,
    ensures
        params::path_parameters(seq![name], schema).len() == 1,
        params::path_parameters(seq![name], schema)[0].name == name,
        params::path_parameters(seq![name], schema)[0].location == ParameterIn::Path,
        params::path_parameters(seq![name], schema)[0].required,
        params::path_parameters(seq![name], schema)[0].description == schema.description,
        params::path_parameters(seq![name], schema)[0].schema == Some(
            SchemaModel { description: None, ..schema },
        ),
{
}

/// Each property of a struct is documented as one parameter in the query, with
/// its schema, required exactly where the struct requires it.
pub proof fn a_query_parameter_is_documented_as_its_property(schema: SchemaModel, i: int)
    requires
        0 <= i < schema.properties.len(),
    ensures
        params::object_parameters(schema, ParameterIn::Query).len() == schema.properties.len(),
        params::object_parameters(schema, ParameterIn::Query)[i] == (ParameterModel {
            name: schema.properties[i].0,
            location: ParameterIn::Query,
            description: schema.properties[i].1.description,
            required: schema.required.contains(schema.properties[i].0),
            deprecated: false,
            style: None,
            explode: None,
            schema: Some(SchemaModel { description: None, ..schema.properties[i].1 }),
            examples: Seq::empty(),
        }),
{
}

/// A parameter that was added is there. One of the same name and location makes
/// way for it; the others stay as they are.
pub proof fn a_parameter_replaces_its_namesake(
    list: Seq<ParameterModel>,
    p: ParameterModel,
    i: int,
)
    requires
        0 <= i < list.len(),
    ensures
        operation::parameter_added(list, p).contains(p),
        list[i].name != p.name || list[i].location != p.location ==> operation::parameter_added(
            list,
            p,
        )[i] == list[i],
        list.len() <= operation::parameter_added(list, p).len() <= list.len() + 1,
        operation::parameter_added(list, p).len() == list.len() <==> exists|j: int|
            0 <= j < list.len() && (#[trigger] list[j]).name == p.name && list[j].location
                == p.location,
{
    lemma_parameter_from(list, p.name, p.location, 0);
    let after = operation::parameter_added(list, p);
    match operation::parameter_from(list, p.name, p.location, 0) {
        Some(k) => {
            assert(after[k] == p);
        },
        None => {
            assert(after[list.len() as int] == p);
        },
    }
}

proof fn lemma_parameter_from(
    list: Seq<ParameterModel>,
    name: Seq<char>,
    location: ParameterIn,
    from: int,
)
    requires
        0 <= from <= list.len(),
    ensures
        match operation::parameter_from(list, name, location, from) {
            Some(k) => from <= k < list.len() && list[k].name == name && list[k].location
                == location,
            None => forall|j: int|
                from <= j < list.len() ==> (#[trigger] list[j]).name != name || list[j].location
                    != location,
        },
    decreases list.len() - from,
{
    if from < list.len() {
        lemma_parameter_from(list, name, location, from + 1);
    }
}

/// An optional extractor asks for nothing: what it adds is not required, but for
/// a path parameter, without which there is no route.
pub proof fn an_optional_part_is_not_required(p: ParameterModel)
    ensures
        p.location != ParameterIn::Path ==> pieces::relaxed(p) == (ParameterModel {
            required: false,
            ..p
        }),
        p.location == ParameterIn::Path ==> pieces::relaxed(p) == p,
{
}

} // verus!
