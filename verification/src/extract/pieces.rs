//! Pieces of a request, state and dependencies.

use crate::error::{ApiError, Problem};
use crate::extract;
use crate::openapi::schema::{Schema, SchemaModel};
use crate::openapi::spec;
use crate::openapi::spec::{
    OperationModel, Parameter, ParameterIn, ParameterModel, RequestBodyModel,
};
use crate::operation;
use crate::operation::{ContextModel, OperationContext, OperationInput};
use crate::request::Request;
use crate::text;
use crate::utf8;
use std::collections::HashMap;
use std::sync::Arc;
use vstd::prelude::*;
use vstd::string::*;
use vstd::utf8::*;

verus! {

broadcast use vstd::std_specs::hash::group_hash_axioms;

// ---------------------------------------------------------------------------
// optional and fallible extractors
// ---------------------------------------------------------------------------

/// A parameter that an optional extractor contributed.
pub open spec fn relaxed(p: ParameterModel) -> ParameterModel {
    if p.location == ParameterIn::Path {
        p
    } else {
        ParameterModel { required: false, ..p }
    }
}

/// An operation without parameters and body, to see what an extractor adds.
pub open spec fn bare(o: OperationModel) -> OperationModel {
    OperationModel { parameters: Seq::empty(), request_body: None, ..o }
}

/// The operation of an optional extractor: what was there, and everything the
/// extractor contributed on its own, which is optional by construction.
pub open spec fn made_optional(o: OperationModel, contributed: OperationModel) -> OperationModel {
    OperationModel {
        parameters: operation::parameters_added(
            o.parameters,
            contributed.parameters.map_values(|p: ParameterModel| relaxed(p)),
        ),
        request_body: match contributed.request_body {
            Some(body) => Some(RequestBodyModel { required: false, ..body }),
            None => o.request_body,
        },
        ..contributed
    }
}

/// Makes any extractor optional: a failure becomes `None` instead of a 4xx.
impl<T: OperationInput> OperationInput for Option<T> {
    open spec fn described(c: ContextModel) -> ContextModel {
        let inner = T::described(c.with_operation(bare(c.operation)));
        inner.with_operation(made_optional(c.operation, inner.operation))
    }

    fn describe(ctx: &mut OperationContext) {
        let ghost start = ctx@;
        // Only what this extractor contributes becomes optional, so it
        // describes itself apart from what is already there.
        let body = ctx.operation.request_body.take();
        let mut held: Vec<Parameter> = Vec::new();
        std::mem::swap(&mut held, &mut ctx.operation.parameters);
        assert(ctx@ =~= start.with_operation(bare(start.operation)));
        T::describe(ctx);
        let ghost inner = ctx@;
        let mut contributed: Vec<Parameter> = Vec::new();
        std::mem::swap(&mut contributed, &mut ctx.operation.parameters);
        ctx.operation.parameters = held;
        assert(ctx@.operation.parameters =~= start.operation.parameters);
        let ghost given = contributed@;
        assert(spec::seq_model(given) =~= inner.operation.parameters);
        let mut loosened: Vec<Parameter> = Vec::new();
        for parameter in it: contributed
            invariant
                it.seq() == given,
                loosened@.len() == it.index(),
                forall|j: int|
                    0 <= j < it.index() ==> (#[trigger] loosened@[j])@ == relaxed(given[j]@),
        {
            assert(parameter == given[it.index() as int]);
            let mut p = parameter;
            if p.location != ParameterIn::Path {
                p.required = false;
            }
            loosened.push(p);
        }
        let ghost all = inner.operation.parameters.map_values(|p: ParameterModel| relaxed(p));
        assert(spec::seq_model(loosened@) =~= all);
        ctx.add_parameters(loosened);
        match ctx.operation.request_body.take() {
            Some(mut own) => {
                own.required = false;
                ctx.operation.request_body = Some(own);
            },
            None => {
                ctx.operation.request_body = body;
            },
        }
        assert(ctx@.operation =~= made_optional(start.operation, inner.operation));
    }
}

/// An optional extractor that has no body of its own leaves that of another as
/// it is.
pub proof fn an_optional_extractor_leaves_another_body_alone<T: OperationInput>(c: ContextModel)
    requires
        T::described(c.with_operation(bare(c.operation))).operation.request_body is None,
    ensures
        <Option<T>>::described(c).operation.request_body == c.operation.request_body,
{
}

/// What an optional extractor gives the handler.
pub fn optional<T>(extracted: Result<T, ApiError>) -> (out: Option<T>)
    ensures
        match extracted {
            Ok(value) => out == Some(value),
            Err(_) => out is None,
        },
{
    match extracted {
        Ok(value) => Some(value),
        Err(_) => None,
    }
}

/// Surfaces the rejection to the handler instead of short-circuiting.
impl<T: OperationInput> OperationInput for Result<T, ApiError> {
    open spec fn described(c: ContextModel) -> ContextModel {
        T::described(c)
    }

    fn describe(ctx: &mut OperationContext) {
        T::describe(ctx);
    }
}

// ---------------------------------------------------------------------------
// the request line and the headers
// ---------------------------------------------------------------------------

/// A method of the `http` crate.
#[verifier::external_type_specification]
#[verifier::external_body]
pub struct ExMethod(http::Method);

/// A URI of the `http` crate.
#[verifier::external_type_specification]
#[verifier::external_body]
pub struct ExUri(http::Uri);

/// A buffer of the `bytes` crate.
#[verifier::external_type_specification]
#[verifier::external_body]
pub struct ExBytes(bytes::Bytes);

impl OperationInput for http::Method {
    open spec fn described(c: ContextModel) -> ContextModel {
        c
    }

    fn describe(ctx: &mut OperationContext) {
    }
}

impl OperationInput for http::Uri {
    open spec fn described(c: ContextModel) -> ContextModel {
        c
    }

    fn describe(ctx: &mut OperationContext) {
    }
}

impl OperationInput for http::HeaderMap<http::HeaderValue> {
    open spec fn described(c: ContextModel) -> ContextModel {
        c
    }

    fn describe(ctx: &mut OperationContext) {
    }
}

// ---------------------------------------------------------------------------
// raw bodies
// ---------------------------------------------------------------------------

impl OperationInput for Vec<u8> {
    open spec fn described(c: ContextModel) -> ContextModel {
        extract::body_described(
            c,
            Some("Raw request body"@),
            "application/octet-stream"@,
            SchemaModel::typed("string"@, "binary"@),
        )
    }

    fn describe(ctx: &mut OperationContext) {
        extract::describe_body(
            ctx,
            Some("Raw request body".to_owned()),
            "application/octet-stream",
            Schema::typed("string", "binary"),
        );
    }
}

impl OperationInput for bytes::Bytes {
    open spec fn described(c: ContextModel) -> ContextModel {
        <Vec<u8>>::described(c)
    }

    fn describe(ctx: &mut OperationContext) {
        <Vec<u8>>::describe(ctx);
    }
}

impl OperationInput for String {
    open spec fn described(c: ContextModel) -> ContextModel {
        extract::body_described(
            c,
            Some("Plain text request body"@),
            "text/plain"@,
            SchemaModel::of_type("string"@),
        )
    }

    fn describe(ctx: &mut OperationContext) {
        extract::describe_body(
            ctx,
            Some("Plain text request body".to_owned()),
            "text/plain",
            Schema::of_type("string"),
        );
    }
}

/// The body of a request as text.
pub fn text_body(req: &Request) -> (r: Result<String, ApiError>)
    ensures
        match r {
            Ok(s) => valid_utf8(req@.body) && s@ == decode_utf8(req@.body),
            Err(e) => !valid_utf8(req@.body) && e@ == (Problem {
                title: "Invalid encoding"@,
                ..Problem::detailed(
                    400,
                    "Request body is not valid UTF-8: "@ + utf8::utf8_fault(req@.body),
                )
            }),
        },
{
    match utf8::from_utf8(req.body().as_slice()) {
        Ok(s) => Ok(s.to_owned()),
        Err(message) => {
            let mut detail = "Request body is not valid UTF-8: ".to_owned();
            detail.append(message.as_str());
            Err(ApiError::bad_request(detail.as_str()).with_title("Invalid encoding"))
        },
    }
}

/// The peer address, as text.
pub struct ConnectInfo(pub String);

impl ConnectInfo {
    pub fn from_request(req: &Request) -> (r: Result<ConnectInfo, ApiError>)
        ensures
            match req@.peer {
                Some(peer) => r is Ok && r->Ok_0.0@ == peer,
                None => r is Err && r->Err_0@ == Problem::internal(
                    "peer address is unavailable for this transport"@,
                ),
            },
    {
        match req.peer_addr() {
            Some(peer) => Ok(ConnectInfo(peer.to_owned())),
            None => Err(ApiError::internal("peer address is unavailable for this transport")),
        }
    }
}

impl OperationInput for ConnectInfo {
    open spec fn described(c: ContextModel) -> ContextModel {
        c
    }

    fn describe(ctx: &mut OperationContext) {
    }
}

// ---------------------------------------------------------------------------
// state and extensions
// ---------------------------------------------------------------------------

/// Shared application state.
///
/// Lookup is by type, and a missing type is a 500 with a message naming what
/// *was* registered: a wiring mistake should not read as a client error.
pub struct State<T>(pub Arc<T>);

/// The error for state that was never registered.
pub open spec fn missing_state(type_text: Seq<char>, registered: Seq<Seq<char>>) -> Problem {
    Problem::internal(
        "state type `"@ + type_text + "` was never registered; registered types: ["@ + text::join(
            registered,
            ", "@,
        ) + "]"@,
    )
}

impl<T> State<T> {
    /// Reads state, given what was found under its type.
    pub fn from_found(found: Option<Arc<T>>, type_text: &str, registered: &Vec<String>) -> (r:
        Result<State<T>, ApiError>)
        ensures
            match found {
                Some(value) => r is Ok && r->Ok_0.0 == value,
                None => r is Err && r->Err_0@ == missing_state(
                    type_text@,
                    text::views(registered@),
                ),
            },
    {
        match found {
            Some(value) => Ok(State(value)),
            None => {
                assert(text::views(registered@).skip(0) =~= text::views(registered@));
                let mut cause = "state type `".to_owned();
                cause.append(type_text);
                cause.append("` was never registered; registered types: [");
                cause.append(text::join_text(registered, 0, ", ").as_str());
                cause.append("]");
                Err(ApiError::internal(cause.as_str()))
            },
        }
    }
}

impl<T> OperationInput for State<T> {
    open spec fn described(c: ContextModel) -> ContextModel {
        c
    }

    fn describe(ctx: &mut OperationContext) {
    }
}

/// A value placed in the request extensions by middleware.
pub struct Extension<T>(pub T);

impl<T> Extension<T> {
    /// Reads an extension, given what was found under its type.
    pub fn from_found(found: Option<T>, type_text: &str) -> (r: Result<Extension<T>, ApiError>)
        ensures
            match found {
                Some(value) => r is Ok && r->Ok_0.0 == value,
                None => r is Err && r->Err_0@ == Problem::internal(
                    "no request extension of type `"@ + type_text@
                        + "`; is the middleware that inserts it mounted?"@,
                ),
            },
    {
        match found {
            Some(value) => Ok(Extension(value)),
            None => {
                let mut cause = "no request extension of type `".to_owned();
                cause.append(type_text);
                cause.append("`; is the middleware that inserts it mounted?");
                Err(ApiError::internal(cause.as_str()))
            },
        }
    }
}

impl<T> OperationInput for Extension<T> {
    open spec fn described(c: ContextModel) -> ContextModel {
        c
    }

    fn describe(ctx: &mut OperationContext) {
    }
}

// ---------------------------------------------------------------------------
// dependencies
// ---------------------------------------------------------------------------

/// A value computed from the request, resolved at most once per request.
///
/// Dependencies compose: one can extract others, and a dependency needed by
/// three different sub-dependencies still runs a single time, so an auth lookup
/// does not turn into three database round-trips.
pub struct Depends<T>(pub T);

impl<T> Depends<T> {
    pub fn into_inner(self) -> (value: T)
        ensures
            value == self.0,
    {
        self.0
    }
}

/// What a dependency contributes to the operation: security requirements,
/// headers it reads, error responses it can produce.
impl<T: OperationInput> OperationInput for Depends<T> {
    open spec fn described(c: ContextModel) -> ContextModel {
        T::described(c)
    }

    fn describe(ctx: &mut OperationContext) {
        T::describe(ctx);
    }
}

/// The dependencies that one request has resolved, each under the number of its
/// type.
pub struct Resolved<V> {
    values: HashMap<u64, V>,
}

impl<V> View for Resolved<V> {
    type V = Map<u64, V>;

    closed spec fn view(&self) -> Map<u64, V> {
        self.values@
    }
}

impl<V> Resolved<V> {
    /// A fresh request has resolved nothing.
    pub fn new() -> (out: Self)
        ensures
            out@ == Map::<u64, V>::empty(),
    {
        Resolved { values: HashMap::new() }
    }

    /// The value of a dependency, if it has been resolved.
    pub fn get(&self, type_number: u64) -> (value: Option<&V>)
        ensures
            match value {
                Some(v) => self@.dom().contains(type_number) && *v == self@[type_number],
                None => !self@.dom().contains(type_number),
            },
    {
        self.values.get(&type_number)
    }

    /// Takes what came of resolving a dependency: a value is kept for the rest
    /// of the request, a failure is not.
    pub fn settle(&mut self, type_number: u64, outcome: Result<V, ApiError>) -> (r: Result<
        (),
        ApiError,
    >)
        ensures
            match outcome {
                Ok(value) => r is Ok && final(self)@ == old(self)@.insert(type_number, value),
                Err(e) => r == Err::<(), ApiError>(e) && final(self)@ == old(self)@,
            },
    {
        match outcome {
            Ok(value) => {
                self.values.insert(type_number, value);
                Ok(())
            },
            Err(e) => Err(e),
        }
    }
}

/// A dependency that was resolved once is found from then on, whatever else is
/// resolved in the meantime.
pub proof fn a_dependency_resolves_once<V>(
    before: Map<u64, V>,
    type_number: u64,
    value: V,
    other: u64,
    later: V,
)
    requires
        other != type_number,
    ensures
        before.insert(type_number, value).insert(other, later).dom().contains(type_number),
        before.insert(type_number, value).insert(other, later)[type_number] == value,
{
}

} // verus!
