//! JSON request bodies and responses.

use crate::body::{BodyModel, ResBody};
use crate::error::{ApiError, FieldFailure, Problem};
use crate::extract;
use crate::openapi::gen;
use crate::openapi::gen::JsonSchema;
use crate::operation::{ContextModel, OperationContext, OperationInput, OperationOutput};
use crate::outputs;
use crate::request::{Request, RequestModel};
use crate::response;
use crate::response::{IntoResponse, Reply, Response};
use crate::text;
use crate::validate;
use crate::validate::Validate;
use vstd::prelude::*;
use vstd::string::*;

verus! {

/// A JSON body, in either direction.
///
/// As an argument it is parsed, validated, and documents the request body. As a
/// return value it documents the response. One type, one schema, both
/// directions: there is no way to document one shape and send another.
pub struct Json<T>(pub T);

impl<T> Json<T> {
    pub fn into_inner(self) -> (value: T)
        ensures
            value == self.0,
    {
        self.0
    }
}

/// The position of the last `+`.
pub open spec fn last_plus(s: Seq<char>, to: int) -> Option<int>
    decreases to,
{
    if to <= 0 || to > s.len() {
        None
    } else if s[to - 1] == '+' {
        Some(to - 1)
    } else {
        last_plus(s, to - 1)
    }
}

/// `application/json`, `text/json`, and the `+json` structured suffix
/// (`application/merge-patch+json`, `application/vnd.api+json`, ...).
pub open spec fn is_json(content_type: Seq<char>) -> bool {
    let ct = text::trim(content_type);
    ||| text::ascii_lower(ct) == "application/json"@
    ||| text::ascii_lower(ct) == "text/json"@
    ||| match last_plus(ct, ct.len() as int) {
        Some(i) => text::ascii_lower(ct.skip(i + 1)) == "json"@,
        None => false,
    }
}

/// True for JSON media types.
pub fn is_json_media_type(content_type: &str) -> (r: bool)
    ensures
        r == is_json(content_type@),
{
    proof {
        reveal_strlit("application/json");
        reveal_strlit("text/json");
        reveal_strlit("json");
        assert(text::ascii_lower("application/json"@) =~= "application/json"@);
        assert(text::ascii_lower("text/json"@) =~= "text/json"@);
        assert(text::ascii_lower("json"@) =~= "json"@);
    }
    let ct = text::trim_text(content_type);
    if text::same_ignoring_case(ct.as_str(), "application/json") || text::same_ignoring_case(
        ct.as_str(),
        "text/json",
    ) {
        return true;
    }
    let v = text::chars(ct.as_str());
    let n: usize = v.len();
    let mut to: usize = n;
    while to > 0 && v[to - 1] != '+'
        invariant
            to <= n,
            n == v@.len(),
            v@ == ct@,
            last_plus(ct@, n as int) == last_plus(ct@, to as int),
        decreases to,
    {
        to -= 1;
    }
    if to == 0 {
        return false;
    }
    assert(v@.subrange(to as int, n as int) =~= ct@.skip(to as int));
    let suffix = text::text_of(&v, to, n);
    text::same_ignoring_case(suffix.as_str(), "json")
}

/// One step on the way to a value inside a JSON document.
pub enum PathStep {
    Index(usize),
    Key(String),
    /// An enum variant, or a step that is not known.
    Unnamed,
}

/// What a step adds to a JSON Pointer. Unnamed ones have no pointer
/// representation; the parent location is still the most useful thing to report.
pub open spec fn step_pointer(step: PathStep) -> Seq<char> {
    match step {
        PathStep::Index(i) => "/"@ + text::decimal(i as nat),
        PathStep::Key(key) => "/"@ + validate::escaped(key@),
        PathStep::Unnamed => Seq::empty(),
    }
}

/// The JSON Pointer along steps.
pub open spec fn pointer(steps: Seq<PathStep>) -> Seq<char>
    decreases steps.len(),
{
    if steps.len() == 0 {
        Seq::empty()
    } else {
        pointer(steps.drop_last()) + step_pointer(steps.last())
    }
}

/// Converts the path of a failure into an RFC 6901 pointer.
pub fn to_json_pointer(steps: &Vec<PathStep>) -> (out: String)
    ensures
        out@ == pointer(steps@),
{
    let mut out = String::new();
    assert(steps@.take(0) =~= Seq::<PathStep>::empty());
    for i in 0..steps.len()
        invariant
            out@ == pointer(steps@.take(i as int)),
    {
        assert(steps@.take(i + 1).drop_last() =~= steps@.take(i as int));
        let ghost before = out@;
        match &steps[i] {
            PathStep::Index(index) => {
                out.append("/");
                out.append(text::decimal_text(*index as u64).as_str());
                assert(out@ =~= before + step_pointer(steps@[i as int]));
            },
            PathStep::Key(key) => {
                out.append("/");
                out.append(validate::escape_pointer(key.as_str()).as_str());
                assert(out@ =~= before + step_pointer(steps@[i as int]));
            },
            PathStep::Unnamed => {
                assert(out@ =~= before + step_pointer(steps@[i as int]));
            },
        }
    }
    assert(steps@.take(steps@.len() as int) =~= steps@);
    out
}

/// What kind of failure a parser reports.
#[derive(Clone, Copy, Debug, PartialEq, Eq, Structural)]
pub enum JsonCategory {
    /// The body could not be read.
    Io,
    /// The body is not JSON.
    Syntax,
    /// The body ends before the document does.
    Eof,
    /// The document is not what was asked for.
    Data,
}

/// Why a body could not be read as a `T`.
pub struct JsonFailure {
    /// Where in the document it failed.
    pub path: Vec<PathStep>,
    pub category: JsonCategory,
    pub message: String,
}

/// The error of a failure. Syntax errors, and bodies that end too early, are
/// the client sending something that is not JSON at all (400); everything else
/// is well-formed JSON that does not fit the schema (422), which is a different
/// fix.
pub open spec fn failure_problem(f: JsonFailure) -> Problem {
    if f.category == JsonCategory::Syntax || f.category == JsonCategory::Eof {
        Problem {
            title: "Invalid JSON"@,
            ..Problem::detailed(400, "Malformed JSON: "@ + f.message@)
        }
    } else {
        Problem::unprocessable(
            seq![
                FieldFailure {
                    pointer: pointer(f.path@),
                    code: "invalid_type"@,
                    message: f.message@,
                },
            ],
        )
    }
}

/// What is wrong with a request whose body should be JSON, before it is parsed.
/// A body with no `Content-Type` is accepted rather than rejected: the payload
/// is what matters, and a parse failure says so precisely.
pub open spec fn json_fault(req: RequestModel) -> Option<Problem> {
    match req.content_type() {
        Some(ct) => if !is_json(ct) {
            Some(Problem::detailed(415, "Expected `application/json`, got `"@ + ct + "`."@))
        } else if req.body.len() == 0 {
            Some(
                Problem {
                    title: "Missing body"@,
                    ..Problem::detailed(400, "Expected a JSON request body, but it was empty."@)
                },
            )
        } else {
            None
        },
        None => if req.body.len() == 0 {
            Some(
                Problem {
                    title: "Missing body"@,
                    ..Problem::detailed(400, "Expected a JSON request body."@)
                },
            )
        } else {
            None
        },
    }
}

/// Checks that a request has a body that should be JSON.
pub fn check_json(req: &Request) -> (r: Result<(), ApiError>)
    ensures
        match r {
            Ok(_) => json_fault(req@) is None,
            Err(e) => json_fault(req@) == Some(e@),
        },
{
    let empty = req.body().len() == 0;
    match req.content_type() {
        Some(ct) => {
            if !is_json_media_type(ct.as_str()) {
                let mut detail = "Expected `application/json`, got `".to_owned();
                detail.append(ct.as_str());
                detail.append("`.");
                return Err(ApiError::unsupported_media_type(detail.as_str()));
            }
            if empty {
                return Err(
                    ApiError::bad_request(
                        "Expected a JSON request body, but it was empty.",
                    ).with_title("Missing body"),
                );
            }
        },
        None => {
            if empty {
                return Err(
                    ApiError::bad_request("Expected a JSON request body.").with_title(
                        "Missing body",
                    ),
                );
            }
        },
    }
    Ok(())
}

impl<T: Validate> Json<T> {
    /// Reads the body of a request, given what came of parsing it.
    pub fn from_request(req: &Request, parsed: Result<T, JsonFailure>) -> (r: Result<
        Json<T>,
        ApiError,
    >)
        ensures
            match json_fault(req@) {
                Some(p) => r is Err && r->Err_0@ == p,
                None => match parsed {
                    Err(f) => r is Err && r->Err_0@ == failure_problem(f),
                    Ok(value) => if value.faults().len() == 0 {
                        r is Ok && r->Ok_0.0 == value
                    } else {
                        r is Err && r->Err_0@ == Problem::unprocessable(value.faults())
                    },
                },
            },
    {
        match check_json(req) {
            Ok(_) => {},
            Err(e) => return Err(e),
        }
        let value = match parsed {
            Ok(value) => value,
            Err(f) => return Err(failure_error(&f)),
        };
        match value.validate() {
            Ok(_) => Ok(Json(value)),
            Err(e) => Err(e.into_api_error()),
        }
    }
}

/// The error of a failure to parse.
pub fn failure_error(f: &JsonFailure) -> (e: ApiError)
    ensures
        e@ == failure_problem(*f),
{
    if f.category == JsonCategory::Syntax || f.category == JsonCategory::Eof {
        let mut detail = "Malformed JSON: ".to_owned();
        detail.append(f.message.as_str());
        ApiError::bad_request(detail.as_str()).with_title("Invalid JSON")
    } else {
        extract::single_failure(
            to_json_pointer(&f.path).as_str(),
            "invalid_type",
            f.message.as_str(),
        )
    }
}

impl<T: JsonSchema> OperationInput for Json<T> {
    open spec fn described(c: ContextModel) -> ContextModel {
        extract::body_described(
            c.with_generator(gen::used_collect::<T>(c.generator)),
            None,
            "application/json"@,
            gen::used::<T>(c.generator),
        ).with_validation()
    }

    fn describe(ctx: &mut OperationContext) {
        let schema = ctx.schema_for::<T>();
        extract::describe_body(ctx, None, "application/json", schema);
        ctx.add_validation_response();
    }
}

impl<T: JsonSchema> OperationOutput for Json<T> {
    open spec fn described(c: ContextModel) -> ContextModel {
        outputs::json_described::<T>(c)
    }

    open spec fn fixed_status() -> Option<u16> {
        Some(200)
    }

    fn describe(ctx: &mut OperationContext) {
        outputs::describe_json::<T>(ctx);
    }

    fn status() -> Option<u16> {
        Some(200)
    }
}

/// The bytes of a value written out as JSON, or why it could not be.
pub struct Written(pub Result<Vec<u8>, String>);

impl<S> IntoResponse<S> for Json<Written> {
    open spec fn fits(self) -> bool {
        true
    }

    /// Serialisation failing means the response type is broken, not the
    /// request. Surfacing a 500 beats emitting truncated JSON.
    open spec fn response(self) -> Reply<S> {
        match self.0.0 {
            Ok(bytes) => Reply::of_type(BodyModel::full(bytes@), "application/json"@),
            Err(cause) => Reply::problem(
                Problem {
                    detail: Some("The response could not be serialised."@),
                    ..Problem::internal(cause@)
                },
            ),
        }
    }

    fn into_response(self) -> Response<S> {
        proof {
            response::lemma_known_types();
        }
        match self.0.0 {
            Ok(bytes) => Response::of_type(ResBody::full(bytes), "application/json"),
            Err(cause) => ApiError::internal(cause.as_str()).with_detail(
                "The response could not be serialised.",
            ).into_response(),
        }
    }
}

} // verus!
