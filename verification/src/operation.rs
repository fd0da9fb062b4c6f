//! The bridge between a handler's signature and its OpenAPI operation.
//!
//! This is the heart of the "docs can't drift" guarantee. Every extractor
//! implements [`OperationInput`] and every response type implements
//! [`OperationOutput`]; a route calls them for each argument and for the return
//! type. Changing a handler's types changes the document, because there is only
//! one place the information lives.

use crate::error;
use crate::error::ProblemDetails;
use crate::openapi::gen;
use crate::openapi::gen::{Collected, JsonSchema, SchemaGenerator};
use crate::openapi::ordered;
use crate::openapi::schema;
use crate::openapi::schema::{Schema, SchemaModel};
use crate::openapi::spec;
use crate::openapi::spec::{
    Operation, OperationModel, Parameter, ParameterIn, ParameterModel, Response, ResponseModel,
};
use crate::text;
use vstd::prelude::*;
use vstd::string::*;

verus! {

/// Everything an input or output needs in order to describe itself.
pub struct OperationContext {
    /// The shared schema generator; nested types are registered here.
    pub generator: SchemaGenerator,
    /// The operation being built, changed in place.
    pub operation: Operation,
    /// The route template, e.g. `/users/{id}`.
    pub path: String,
    /// The uppercase HTTP method.
    pub method: String,
}

/// What is described, as a value.
#[verifier::ext_equal]
pub struct ContextModel {
    pub generator: Collected,
    pub operation: OperationModel,
    pub path: Seq<char>,
    pub method: Seq<char>,
}

impl View for OperationContext {
    type V = ContextModel;

    open spec fn view(&self) -> ContextModel {
        ContextModel {
            generator: self.generator@,
            operation: self.operation@,
            path: self.path@,
            method: self.method@,
        }
    }
}

/// A parameter's name, without the star of a catch-all.
pub open spec fn unstarred(raw: Seq<char>) -> Seq<char> {
    if raw.len() > 0 && raw[0] == '*' {
        raw.skip(1)
    } else {
        raw
    }
}

/// The parameter names in a route template at or after `from`.
pub open spec fn names_from(path: Seq<char>, from: int) -> Seq<Seq<char>>
    decreases path.len() - from,
{
    if from < 0 {
        Seq::empty()
    } else {
        match text::index_of(path, '{', from) {
            None => Seq::empty(),
            Some(open) => match text::index_of(path, '}', open + 1) {
                None => Seq::empty(),
                Some(close) => {
                    proof {
                        text::lemma_index_of(path, '{', from);
                        text::lemma_index_of(path, '}', open + 1);
                    }
                    seq![unstarred(path.subrange(open + 1, close))] + names_from(path, close + 1)
                },
            },
        }
    }
}

/// The first parameter of this name and location, at or after `from`.
pub open spec fn parameter_from(
    list: Seq<ParameterModel>,
    name: Seq<char>,
    location: ParameterIn,
    from: int,
) -> Option<int>
    decreases list.len() - from,
{
    if from < 0 || from >= list.len() {
        None
    } else if list[from].name == name && list[from].location == location {
        Some(from)
    } else {
        parameter_from(list, name, location, from + 1)
    }
}

/// The parameters after one was added: it takes the place of the one with the
/// same name and location, or goes to the end.
pub open spec fn parameter_added(list: Seq<ParameterModel>, p: ParameterModel) -> Seq<
    ParameterModel,
> {
    match parameter_from(list, p.name, p.location, 0) {
        Some(i) => list.update(i, p),
        None => list.push(p),
    }
}

/// The parameters after several were added, one after the other.
pub open spec fn parameters_added(list: Seq<ParameterModel>, added: Seq<ParameterModel>) -> Seq<
    ParameterModel,
>
    decreases added.len(),
{
    if added.len() == 0 {
        list
    } else {
        parameter_added(parameters_added(list, added.drop_last()), added.last())
    }
}

/// An error response whose body is documented as problem details.
pub open spec fn problem(g: Collected, description: Seq<char>) -> ResponseModel {
    ResponseModel::new(description).with_content(
        error::PROBLEM_JSON@,
        gen::used::<ProblemDetails>(g),
    )
}

pub open spec fn validation_description() -> Seq<char> {
    "Validation failed. `errors` lists every field that did not pass, each with a JSON Pointer to the value."@
}

/// A schema that may be a bare reference, expanded into what is registered
/// under it.
pub open spec fn resolved(
    definitions: Seq<(Seq<char>, SchemaModel)>,
    schema: SchemaModel,
) -> SchemaModel {
    let prefix = "#/components/schemas/"@;
    match schema.reference {
        Some(target) => if text::starts_with(target, prefix) {
            match ordered::lookup(definitions, target.skip(prefix.len() as int)) {
                Some(found) => found,
                None => schema,
            }
        } else {
            schema
        },
        None => schema,
    }
}

impl ContextModel {
    pub open spec fn with_operation(self, operation: OperationModel) -> ContextModel {
        ContextModel { operation, ..self }
    }

    pub open spec fn with_generator(self, generator: Collected) -> ContextModel {
        ContextModel { generator, ..self }
    }

    pub open spec fn with_parameter(self, p: ParameterModel) -> ContextModel {
        self.with_operation(
            OperationModel {
                parameters: parameter_added(self.operation.parameters, p),
                ..self.operation
            },
        )
    }

    pub open spec fn with_parameters(self, added: Seq<ParameterModel>) -> ContextModel {
        self.with_operation(
            OperationModel {
                parameters: parameters_added(self.operation.parameters, added),
                ..self.operation
            },
        )
    }

    pub open spec fn with_response(self, status: Seq<char>, r: ResponseModel) -> ContextModel {
        self.with_operation(
            OperationModel {
                responses: ordered::inserted(self.operation.responses, status, r),
                ..self.operation
            },
        )
    }

    pub open spec fn with_problem(self, status: Seq<char>, description: Seq<char>) -> ContextModel {
        self.with_generator(gen::used_collect::<ProblemDetails>(self.generator)).with_response(
            status,
            problem(self.generator, description),
        )
    }

    pub open spec fn with_validation(self) -> ContextModel {
        self.with_problem("422"@, validation_description())
    }
}

impl OperationContext {
    /// The parameter names in the route template, in order.
    ///
    /// A path extractor uses this to name its parameters, which is why a single
    /// number on `/users/{id}` documents an `id` parameter without any
    /// annotation.
    pub fn path_param_names(&self) -> (names: Vec<String>)
        ensures
            text::views(names@) == names_from(self@.path, 0),
    {
        path_names(self.path.as_str())
    }

    /// Adds a parameter, replacing any existing one with the same name and
    /// location so later extractors refine rather than duplicate.
    pub fn add_parameter(&mut self, parameter: Parameter)
        ensures
            final(self)@ == old(self)@.with_parameter(parameter@),
    {
        let ghost list = self@.operation.parameters;
        let ghost p = parameter@;
        let n: usize = self.operation.parameters.len();
        let mut i: usize = 0;
        while i < n
            invariant
                i <= n,
                n == self.operation.parameters@.len(),
                self@ == old(self)@,
                list == spec::seq_model(self.operation.parameters@),
                list == old(self)@.operation.parameters,
                p == parameter@,
                parameter_from(list, p.name, p.location, 0) == parameter_from(
                    list,
                    p.name,
                    p.location,
                    i as int,
                ),
            decreases n - i,
        {
            let existing = &self.operation.parameters[i];
            assert(list[i as int] == existing@);
            if existing.location == parameter.location && text::same(
                existing.name.as_str(),
                parameter.name.as_str(),
            ) {
                self.operation.parameters.set(i, parameter);
                assert(self@.operation.parameters =~= list.update(i as int, p));
                return ;
            }
            i += 1;
        }
        self.operation.parameters.push(parameter);
        assert(self@.operation.parameters =~= list.push(p));
    }

    /// Adds several parameters, one after the other.
    pub fn add_parameters(&mut self, parameters: Vec<Parameter>)
        ensures
            final(self)@ == old(self)@.with_parameters(spec::seq_model(parameters@)),
    {
        let ghost all = spec::seq_model(parameters@);
        let ghost start = self@;
        assert(all.take(0) =~= Seq::<ParameterModel>::empty());
        for parameter in it: parameters
            invariant
                all == spec::seq_model(it.seq()),
                start == old(self)@,
                self@ == start.with_parameters(all.take(it.index() as int)),
        {
            let ghost k = it.index() as int;
            assert(all.take(k + 1).drop_last() =~= all.take(k));
            assert(all.take(k + 1).last() == parameter@);
            self.add_parameter(parameter);
        }
        assert(all.take(all.len() as int) =~= all);
    }

    /// Records a response, keyed by status code (or `"default"`).
    pub fn add_response(&mut self, status: &str, response: Response)
        ensures
            final(self)@ == old(self)@.with_response(status@, response@),
    {
        proof {
            spec::lemma_map_inserted(self.operation.responses@, status@, response);
        }
        self.operation.responses.insert(status.to_owned(), response);
    }

    /// Records an error response documented as RFC 9457 problem details.
    pub fn add_problem_response(&mut self, status: &str, description: &str)
        ensures
            final(self)@ == old(self)@.with_problem(status@, description@),
    {
        let response = problem_response(&mut self.generator, description);
        self.add_response(status, response);
    }

    /// Records the `422` that a failed `#[validate(...)]` rule produces.
    pub fn add_validation_response(&mut self)
        ensures
            final(self)@ == old(self)@.with_validation(),
    {
        let response = validation_response(&mut self.generator);
        self.add_response("422", response);
    }

    /// Registers `T` and returns a reference to it.
    pub fn schema_for<T: JsonSchema + ?Sized>(&mut self) -> (out: Schema)
        ensures
            out@ == gen::used::<T>(old(self)@.generator),
            final(self)@ == old(self)@.with_generator(
                gen::used_collect::<T>(old(self)@.generator),
            ),
    {
        self.generator.subschema_for::<T>()
    }

    /// Returns `T`'s schema fully expanded, for cases where the keywords must
    /// be readable in place (query and path parameters).
    pub fn inline_schema_for<T: JsonSchema + ?Sized>(&mut self) -> (out: Schema)
        ensures
            out@ == T::describe(old(self)@.generator),
            final(self)@ == old(self)@.with_generator(T::collect(old(self)@.generator)),
    {
        self.generator.inline_for::<T>()
    }
}

/// The parameter names in a route template, in order.
pub fn path_names(path: &str) -> (names: Vec<String>)
    ensures
        text::views(names@) == names_from(path@, 0),
{
    let v = text::chars(path);
    let n: usize = v.len();
    let mut names: Vec<String> = Vec::new();
    let mut at: usize = 0;
    assert(text::views(names@) + names_from(path@, 0) =~= names_from(path@, 0));
    while at < n
        invariant
            at <= n,
            v@ == path@,
            n == v@.len(),
            text::views(names@) + names_from(path@, at as int) == names_from(path@, 0),
        ensures
            text::views(names@) == names_from(path@, 0),
        decreases n - at,
    {
        let open: usize = match text::find_from(&v, '{', at) {
            Some(i) => i,
            None => {
                assert(text::views(names@) =~= names_from(path@, 0));
                break ;
            },
        };
        let close: usize = match text::find_from(&v, '}', open + 1) {
            Some(i) => i,
            None => {
                assert(text::views(names@) =~= names_from(path@, 0));
                break ;
            },
        };
        let ghost raw = path@.subrange(open + 1, close as int);
        let name = if open + 1 < close && v[open + 1] == '*' {
            assert(raw.skip(1) =~= path@.subrange(open + 2, close as int));
            text::text_of(&v, open + 2, close)
        } else {
            text::text_of(&v, open + 1, close)
        };
        assert(name@ == unstarred(raw));
        let ghost before = text::views(names@);
        proof {
            text::lemma_views_push(names@, name);
        }
        names.push(name);
        assert(before + (seq![unstarred(raw)] + names_from(path@, close + 1)) =~= before.push(
            unstarred(raw),
        ) + names_from(path@, close + 1));
        at = close + 1;
    }
    names
}

/// A handler argument that contributes to the operation description.
pub trait OperationInput {
    /// The operation with this input accounted for.
    open spec fn described(c: ContextModel) -> ContextModel {
        c
    }

    /// Changes the operation to account for this input.
    fn describe(ctx: &mut OperationContext)
        ensures
            final(ctx)@ == Self::described(old(ctx)@),
    ;
}

/// A handler return type that contributes response documentation.
pub trait OperationOutput {
    /// The operation with this output accounted for.
    open spec fn described(c: ContextModel) -> ContextModel {
        c
    }

    /// The status code this type produces on its own, when it is fixed.
    open spec fn fixed_status() -> Option<u16> {
        None
    }

    /// Changes the operation to account for this output.
    fn describe(ctx: &mut OperationContext)
        ensures
            final(ctx)@ == Self::described(old(ctx)@),
    ;

    /// The status code this type produces on its own, when it is fixed.
    fn status() -> (status: Option<u16>)
        ensures
            status == Self::fixed_status(),
    ;
}

/// Builds an error response whose body is documented as problem details.
///
/// Every error this framework produces has the same shape, so the document
/// should say so rather than leaving clients to guess per endpoint.
pub fn problem_response(generator: &mut SchemaGenerator, description: &str) -> (out: Response)
    ensures
        out@ == problem(old(generator)@, description@),
        final(generator)@ == gen::used_collect::<ProblemDetails>(old(generator)@),
{
    let schema = generator.subschema_for::<ProblemDetails>();
    Response::new(description).with_content(error::PROBLEM_JSON, schema)
}

/// The `422` a failed `#[validate(...)]` rule produces, including the
/// `errors` array that names each offending field.
pub fn validation_response(generator: &mut SchemaGenerator) -> (out: Response)
    ensures
        out@ == problem(old(generator)@, validation_description()),
        final(generator)@ == gen::used_collect::<ProblemDetails>(old(generator)@),
{
    problem_response(
        generator,
        "Validation failed. `errors` lists every field that did not pass, each with a JSON Pointer to the value.",
    )
}

/// Expands a schema that may be a bare reference into an object with visible
/// properties, following the reference into the generator's definitions.
///
/// Query and path parameters need real keywords, not a pointer, because each
/// property becomes its own parameter.
pub fn resolve_object(generator: &SchemaGenerator, schema: &Schema) -> (out: Schema)
    ensures
        out@ == resolved(generator@.definitions, schema@),
{
    if let Some(reference) = &schema.reference {
        if text::has_prefix(reference.as_str(), "#/components/schemas/") {
            let v = text::chars(reference.as_str());
            let skipped: usize = text::chars("#/components/schemas/").len();
            let n: usize = v.len();
            assert(v@.subrange(skipped as int, n as int) =~= v@.skip(skipped as int));
            let name = text::text_of(&v, skipped, n);
            let definitions = generator.definitions();
            proof {
                gen::lemma_position(*definitions, name@);
                schema::lemma_schemas_model(*definitions);
                ordered::lemma_position(definitions@, name@);
            }
            if let Some(found) = definitions.get(name.as_str()) {
                return found.copy();
            }
        }
    }
    schema.copy()
}

// ---------------------------------------------------------------------------
// what holds of every operation
// ---------------------------------------------------------------------------

/// No two parameters have the same name and location.
pub open spec fn parameters_distinct(list: Seq<ParameterModel>) -> bool {
    forall|i: int, j: int|
        0 <= i < j < list.len() ==> (#[trigger] list[i]).name != (#[trigger] list[j]).name
            || list[i].location != list[j].location
}

proof fn lemma_parameter_from(
    list: Seq<ParameterModel>,
    name: Seq<char>,
    location: ParameterIn,
    from: int,
)
    requires
        0 <= from,
    ensures
        match parameter_from(list, name, location, from) {
            Some(i) => from <= i < list.len() && list[i].name == name && list[i].location
                == location,
            None => forall|i: int|
                from <= i < list.len() ==> (#[trigger] list[i]).name != name || list[i].location
                    != location,
        },
    decreases list.len() - from,
{
    if from < list.len() && !(list[from].name == name && list[from].location == location) {
        lemma_parameter_from(list, name, location, from + 1);
    }
}

/// Adding a parameter refines an earlier one of the same name and location in
/// its place and leaves the others alone: no parameter is documented twice.
pub proof fn adding_a_parameter_refines(list: Seq<ParameterModel>, p: ParameterModel)
    requires
        parameters_distinct(list),
    ensures
        parameters_distinct(parameter_added(list, p)),
        parameter_added(list, p).contains(p),
        forall|q: ParameterModel|
            list.contains(q) && (q.name != p.name || q.location != p.location)
                ==> #[trigger] parameter_added(list, p).contains(q),
        parameter_added(parameter_added(list, p), p) == parameter_added(list, p),
{
    lemma_parameter_from(list, p.name, p.location, 0);
    let added = parameter_added(list, p);
    let at = match parameter_from(list, p.name, p.location, 0) {
        Some(i) => i,
        None => list.len() as int,
    };
    assert(added[at] == p);
    assert forall|q: ParameterModel|
        list.contains(q) && (q.name != p.name || q.location != p.location) implies #[trigger] added.contains(
    q) by {
        let i = choose|i: int| 0 <= i < list.len() && list[i] == q;
        assert(added[i] == q);
    }
    lemma_parameter_from(added, p.name, p.location, 0);
    assert(parameter_added(added, p) =~= added);
}

} // verus!
