//! Extractors: typed handler arguments.
//!
//! An extractor is a type that knows how to pull itself out of a request *and*
//! how to describe itself in the OpenAPI document.

use crate::error;
use crate::error::{ApiError, FieldError, FieldFailure, Problem};
use crate::openapi::ordered::OrderedMap;
use crate::openapi::schema::{Schema, SchemaModel};
use crate::openapi::spec;
use crate::openapi::spec::{
    MediaType, MediaTypeModel, OperationModel, RequestBody, RequestBodyModel,
};
use crate::operation::{ContextModel, OperationContext};
use crate::text;
use vstd::prelude::*;
use vstd::string::*;

pub mod cookies;
pub mod de;
pub mod json;
pub mod multipart;
pub mod params;
pub mod pieces;

verus! {

/// The operation with a required request body of one media type.
pub open spec fn body_described(
    c: ContextModel,
    description: Option<Seq<char>>,
    media_type: Seq<char>,
    schema: SchemaModel,
) -> ContextModel {
    c.with_operation(
        OperationModel {
            request_body: Some(
                RequestBodyModel {
                    description,
                    content: seq![(media_type, MediaTypeModel::new(schema))],
                    required: true,
                },
            ),
            ..c.operation
        },
    )
}

/// Documents a required request body of one media type.
pub fn describe_body(
    ctx: &mut OperationContext,
    description: Option<String>,
    media_type: &str,
    schema: Schema,
)
    ensures
        final(ctx)@ == body_described(
            old(ctx)@,
            text::opt(description),
            media_type@,
            schema@,
        ),
{
    let mut content: OrderedMap<MediaType> = OrderedMap::new();
    content.insert(media_type.to_owned(), MediaType::new(schema));
    assert(spec::map_model(content@) =~= seq![(media_type@, MediaTypeModel::new(schema@))]);
    ctx.operation.request_body = Some(RequestBody { description, content, required: true });
}

/// The 422 for one failure.
pub fn single_failure(pointer: &str, code: &str, message: &str) -> (e: ApiError)
    ensures
        e@ == Problem::unprocessable(
            seq![FieldFailure { pointer: pointer@, code: code@, message: message@ }],
        ),
{
    let mut list: Vec<FieldError> = Vec::new();
    list.push(FieldError::new(pointer, code, message));
    assert(error::failures(list@) =~= seq![
        FieldFailure { pointer: pointer@, code: code@, message: message@ },
    ]);
    ApiError::unprocessable(list)
}

} // verus!
