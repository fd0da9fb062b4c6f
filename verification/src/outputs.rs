//! What return types say of the responses of an operation.

use crate::error::ApiError;
use crate::openapi::gen;
use crate::openapi::gen::JsonSchema;
use crate::openapi::ordered;
use crate::openapi::ordered::OrderedMap;
use crate::openapi::schema::{Schema, SchemaModel};
use crate::openapi::spec;
use crate::openapi::spec::{Header, HeaderModel, OperationModel, Response, ResponseModel};
use crate::operation;
use crate::operation::{ContextModel, OperationContext, OperationOutput};
use crate::response::{
    Accepted, Created, Html, NoContent, Redirect, StatusCode, WithHeaders, WithStatus,
};
use crate::text;
use vstd::prelude::*;
use vstd::string::*;

verus! {

impl OperationOutput for () {
    open spec fn described(c: ContextModel) -> ContextModel {
        c.with_response("204"@, ResponseModel::new("No content"@))
    }

    open spec fn fixed_status() -> Option<u16> {
        Some(204)
    }

    fn describe(ctx: &mut OperationContext) {
        ctx.add_response("204", Response::new("No content"));
    }

    fn status() -> Option<u16> {
        Some(204)
    }
}

impl OperationOutput for StatusCode {
    open spec fn described(c: ContextModel) -> ContextModel {
        c.with_response("default"@, ResponseModel::new("Status only"@))
    }

    open spec fn fixed_status() -> Option<u16> {
        None
    }

    fn describe(ctx: &mut OperationContext) {
        ctx.add_response("default", Response::new("Status only"));
    }

    fn status() -> Option<u16> {
        None
    }
}

/// A `200` with a plain text body.
pub open spec fn plain_text() -> ResponseModel {
    ResponseModel::new("Success"@).with_content("text/plain"@, SchemaModel::of_type("string"@))
}

impl OperationOutput for String {
    open spec fn described(c: ContextModel) -> ContextModel {
        c.with_response("200"@, plain_text())
    }

    open spec fn fixed_status() -> Option<u16> {
        Some(200)
    }

    fn describe(ctx: &mut OperationContext) {
        ctx.add_response(
            "200",
            Response::new("Success").with_content("text/plain", Schema::of_type("string")),
        );
    }

    fn status() -> Option<u16> {
        Some(200)
    }
}

impl OperationOutput for &'static str {
    open spec fn described(c: ContextModel) -> ContextModel {
        c.with_response("200"@, plain_text())
    }

    open spec fn fixed_status() -> Option<u16> {
        Some(200)
    }

    fn describe(ctx: &mut OperationContext) {
        ctx.add_response(
            "200",
            Response::new("Success").with_content("text/plain", Schema::of_type("string")),
        );
    }

    fn status() -> Option<u16> {
        Some(200)
    }
}

impl OperationOutput for Vec<u8> {
    open spec fn described(c: ContextModel) -> ContextModel {
        c.with_response(
            "200"@,
            ResponseModel::new("Binary payload"@).with_content(
                "application/octet-stream"@,
                SchemaModel::typed("string"@, "binary"@),
            ),
        )
    }

    open spec fn fixed_status() -> Option<u16> {
        Some(200)
    }

    fn describe(ctx: &mut OperationContext) {
        ctx.add_response(
            "200",
            Response::new("Binary payload").with_content(
                "application/octet-stream",
                Schema::typed("string", "binary"),
            ),
        );
    }

    fn status() -> Option<u16> {
        Some(200)
    }
}

/// `Result` documents the success type's responses plus the error type's.
impl<T: OperationOutput, E: OperationOutput> OperationOutput for Result<T, E> {
    open spec fn described(c: ContextModel) -> ContextModel {
        E::described(T::described(c))
    }

    open spec fn fixed_status() -> Option<u16> {
        T::fixed_status()
    }

    fn describe(ctx: &mut OperationContext) {
        T::describe(ctx);
        E::describe(ctx);
    }

    fn status() -> Option<u16> {
        T::status()
    }
}

/// Any error path through an `ApiError` is documented once, as a `default`
/// problem-details response, rather than guessing at every status a handler
/// might return.
impl OperationOutput for ApiError {
    open spec fn described(c: ContextModel) -> ContextModel {
        c.with_problem("default"@, "Error (RFC 9457 problem details)"@)
    }

    open spec fn fixed_status() -> Option<u16> {
        None
    }

    fn describe(ctx: &mut OperationContext) {
        ctx.add_problem_response("default", "Error (RFC 9457 problem details)");
    }

    fn status() -> Option<u16> {
        None
    }
}

impl<T: OperationOutput> OperationOutput for WithStatus<T> {
    open spec fn described(c: ContextModel) -> ContextModel {
        T::described(c)
    }

    open spec fn fixed_status() -> Option<u16> {
        None
    }

    fn describe(ctx: &mut OperationContext) {
        T::describe(ctx);
    }

    fn status() -> Option<u16> {
        None
    }
}

impl<T: OperationOutput> OperationOutput for (StatusCode, T) {
    open spec fn described(c: ContextModel) -> ContextModel {
        T::described(c)
    }

    open spec fn fixed_status() -> Option<u16> {
        None
    }

    fn describe(ctx: &mut OperationContext) {
        T::describe(ctx);
    }

    fn status() -> Option<u16> {
        None
    }
}

impl<T: OperationOutput> OperationOutput for WithHeaders<T> {
    open spec fn described(c: ContextModel) -> ContextModel {
        T::described(c)
    }

    open spec fn fixed_status() -> Option<u16> {
        T::fixed_status()
    }

    fn describe(ctx: &mut OperationContext) {
        T::describe(ctx);
    }

    fn status() -> Option<u16> {
        T::status()
    }
}

impl OperationOutput for NoContent {
    open spec fn described(c: ContextModel) -> ContextModel {
        c.with_response("204"@, ResponseModel::new("No content"@))
    }

    open spec fn fixed_status() -> Option<u16> {
        Some(204)
    }

    fn describe(ctx: &mut OperationContext) {
        ctx.add_response("204", Response::new("No content"));
    }

    fn status() -> Option<u16> {
        Some(204)
    }
}

impl<T> OperationOutput for Html<T> {
    open spec fn described(c: ContextModel) -> ContextModel {
        c.with_response(
            "200"@,
            ResponseModel::new("An HTML document"@).with_content(
                "text/html"@,
                SchemaModel::of_type("string"@),
            ),
        )
    }

    open spec fn fixed_status() -> Option<u16> {
        Some(200)
    }

    fn describe(ctx: &mut OperationContext) {
        ctx.add_response(
            "200",
            Response::new("An HTML document").with_content("text/html", Schema::of_type("string")),
        );
    }

    fn status() -> Option<u16> {
        Some(200)
    }
}

/// The documentation of a `Location` header.
pub open spec fn location_header(description: Seq<char>, required: bool) -> Seq<
    (Seq<char>, HeaderModel),
> {
    seq![
        (
            "Location"@,
            HeaderModel {
                description: Some(description),
                required,
                schema: Some(SchemaModel::typed("string"@, "uri-reference"@)),
            },
        ),
    ]
}

fn location_headers(description: &str, required: bool) -> (out: OrderedMap<Header>)
    ensures
        spec::map_model(out@) == location_header(description@, required),
{
    let mut out: OrderedMap<Header> = OrderedMap::new();
    let header = Header {
        description: Some(description.to_owned()),
        required,
        schema: Some(Schema::typed("string", "uri-reference")),
    };
    out.insert("Location".to_owned(), header);
    assert(spec::map_model(out@) =~= location_header(description@, required));
    out
}

impl OperationOutput for Redirect {
    open spec fn described(c: ContextModel) -> ContextModel {
        c.with_response(
            "303"@,
            ResponseModel {
                headers: location_header("The URI to follow."@, true),
                ..ResponseModel::new("Redirect"@)
            },
        )
    }

    open spec fn fixed_status() -> Option<u16> {
        Some(303)
    }

    fn describe(ctx: &mut OperationContext) {
        let mut response = Response::new("Redirect");
        response.headers = location_headers("The URI to follow.", true);
        ctx.add_response("303", response);
    }

    fn status() -> Option<u16> {
        Some(303)
    }
}

/// Documents a handler as returning `T`'s schema without any wrapper, for
/// hand-written responses.
pub struct Documented<T>(pub core::marker::PhantomData<T>);

impl<T: JsonSchema> OperationOutput for Documented<T> {
    open spec fn described(c: ContextModel) -> ContextModel {
        json_described::<T>(c)
    }

    open spec fn fixed_status() -> Option<u16> {
        Some(200)
    }

    fn describe(ctx: &mut OperationContext) {
        describe_json::<T>(ctx);
    }

    fn status() -> Option<u16> {
        Some(200)
    }
}

/// The operation with a `200` whose JSON body is a `T`.
pub open spec fn json_described<T: JsonSchema>(c: ContextModel) -> ContextModel {
    c.with_generator(gen::used_collect::<T>(c.generator)).with_response(
        "200"@,
        ResponseModel::new("Success"@).with_content(
            "application/json"@,
            gen::used::<T>(c.generator),
        ),
    )
}

/// Documents a `200` whose JSON body is a `T`.
pub fn describe_json<T: JsonSchema>(ctx: &mut OperationContext)
    ensures
        final(ctx)@ == json_described::<T>(old(ctx)@),
{
    let schema = ctx.schema_for::<T>();
    ctx.add_response("200", Response::new("Success").with_json(schema));
}

// ---------------------------------------------------------------------------
// created resources
// ---------------------------------------------------------------------------

/// The keys of entries, in order.
pub open spec fn keys<V>(entries: Seq<(Seq<char>, V)>) -> Seq<Seq<char>> {
    entries.map_values(|e: (Seq<char>, V)| e.0)
}

/// The names of a list that are not among others.
pub open spec fn names_added(before: Seq<Seq<char>>, after: Seq<Seq<char>>) -> Seq<Seq<char>>
    decreases after.len(),
{
    if after.len() == 0 {
        Seq::empty()
    } else {
        let earlier = names_added(before, after.drop_last());
        if before.contains(after.last()) {
            earlier
        } else {
            earlier.push(after.last())
        }
    }
}

/// What a wrapper that sends a status of its own makes of a response.
#[derive(Clone, Copy, Debug, PartialEq, Eq, Structural)]
enum Sent {
    Created,
    Accepted,
}

/// What a wrapper that sends a status of its own makes of a response, as a
/// value.
pub enum SentModel {
    Created,
    Accepted,
}

impl View for Sent {
    type V = SentModel;

    closed spec fn view(&self) -> SentModel {
        match self {
            Sent::Created => SentModel::Created,
            Sent::Accepted => SentModel::Accepted,
        }
    }
}

impl SentModel {
    /// The status that is sent.
    pub open spec fn key(self) -> Seq<char> {
        match self {
            SentModel::Created => "201"@,
            SentModel::Accepted => "202"@,
        }
    }

    /// The response as it is documented there.
    pub open spec fn shown(self, r: ResponseModel) -> ResponseModel {
        match self {
            SentModel::Created => ResponseModel {
                description: "Created"@,
                headers: location_header("URI of the newly created resource."@, false),
                ..r
            },
            SentModel::Accepted => ResponseModel { description: "Accepted"@, ..r },
        }
    }
}

/// The responses with the one under `key` moved to the status that is sent. The
/// `default` stays.
pub open spec fn moved(
    sent: SentModel,
    responses: Seq<(Seq<char>, ResponseModel)>,
    key: Seq<char>,
) -> Seq<(Seq<char>, ResponseModel)> {
    if key == "default"@ {
        responses
    } else {
        match ordered::lookup(responses, key) {
            Some(r) => ordered::inserted(
                ordered::removed(responses, key),
                sent.key(),
                sent.shown(r),
            ),
            None => responses,
        }
    }
}

/// The responses with those under `keys` moved to the status that is sent, one
/// after the other.
pub open spec fn all_moved(
    sent: SentModel,
    responses: Seq<(Seq<char>, ResponseModel)>,
    keys: Seq<Seq<char>>,
) -> Seq<(Seq<char>, ResponseModel)>
    decreases keys.len(),
{
    if keys.len() == 0 {
        responses
    } else {
        moved(sent, all_moved(sent, responses, keys.drop_last()), keys.last())
    }
}

/// The operation with what a type added to it moved to the status that is sent,
/// so the document shows the status that is actually sent.
pub open spec fn described_at<T: OperationOutput>(sent: SentModel, c: ContextModel)
    -> ContextModel {
    let inner = T::described(c);
    let added = names_added(keys(c.operation.responses), keys(inner.operation.responses));
    inner.with_operation(
        OperationModel {
            responses: all_moved(sent, inner.operation.responses, added),
            ..inner.operation
        },
    )
}

fn response_keys(responses: &OrderedMap<Response>) -> (out: Vec<String>)
    ensures
        text::views(out@) == keys(spec::map_model(responses@)),
        ordered::distinct(spec::map_model(responses@)),
{
    let mut out: Vec<String> = Vec::new();
    let n: usize = responses.len();
    for i in 0..n
        invariant
            n == responses@.len(),
            out@.len() == i,
            forall|j: int| 0 <= j < i ==> (#[trigger] out@[j])@ == responses@[j].0,
    {
        out.push(responses.key_at(i).to_owned());
    }
    assert(text::views(out@) =~= keys(spec::map_model(responses@)));
    assert forall|i: int, j: int|
        0 <= i < j < spec::map_model(responses@).len() implies (#[trigger] spec::map_model(
        responses@,
    )[i]).0 != (#[trigger] spec::map_model(responses@)[j]).0 by {
        assert(responses@[i].0 != responses@[j].0);
    }
    out
}

fn added_keys(before: &Vec<String>, after: &Vec<String>) -> (out: Vec<String>)
    ensures
        text::views(out@) == names_added(text::views(before@), text::views(after@)),
{
    let ghost names = text::views(after@);
    let mut out: Vec<String> = Vec::new();
    assert(names.take(0) =~= Seq::<Seq<char>>::empty());
    assert(text::views(out@) =~= Seq::<Seq<char>>::empty());
    for i in 0..after.len()
        invariant
            names == text::views(after@),
            text::views(out@) == names_added(text::views(before@), names.take(i as int)),
    {
        assert(names.take(i + 1).drop_last() =~= names.take(i as int));
        assert(names[i as int] == after@[i as int]@);
        if !text::has_text(before, after[i].as_str()) {
            let name = after[i].clone();
            proof {
                text::lemma_views_push(out@, name);
            }
            out.push(name);
        }
    }
    assert(names.take(names.len() as int) =~= names);
    out
}

/// Removing a key from a map removes it from its model.
proof fn lemma_map_removed<T: View>(entries: Seq<(Seq<char>, T)>, key: Seq<char>)
    ensures
        spec::map_model(ordered::removed(entries, key)) == ordered::removed(
            spec::map_model(entries),
            key,
        ),
        ordered::lookup(spec::map_model(entries), key) == spec::opt_model(
            ordered::lookup(entries, key),
        ),
{
    crate::openapi::schema::lemma_same_position(entries, spec::map_model(entries), key);
    ordered::lemma_position(entries, key);
    assert(spec::map_model(ordered::removed(entries, key)) =~= ordered::removed(
        spec::map_model(entries),
        key,
    ));
}

fn move_response(sent: Sent, ctx: &mut OperationContext, key: &str)
    ensures
        final(ctx)@ == old(ctx)@.with_operation(
            OperationModel {
                responses: moved(sent@, old(ctx)@.operation.responses, key@),
                ..old(ctx)@.operation
            },
        ),
{
    if text::same(key, "default") {
        return ;
    }
    proof {
        lemma_map_removed(ctx.operation.responses@, key@);
    }
    if let Some(mut response) = ctx.operation.responses.shift_remove(key) {
        match sent {
            Sent::Created => {
                response.description = "Created".to_owned();
                response.headers = location_headers("URI of the newly created resource.", false);
                ctx.add_response("201", response);
            },
            Sent::Accepted => {
                response.description = "Accepted".to_owned();
                ctx.add_response("202", response);
            },
        }
    }
}

/// Describes a type, and moves what it added to the status that is sent.
fn describe_at<T: OperationOutput>(sent: Sent, ctx: &mut OperationContext)
    ensures
        final(ctx)@ == described_at::<T>(sent@, old(ctx)@),
{
    let before = response_keys(&ctx.operation.responses);
    T::describe(ctx);
    let ghost inner = ctx@;
    let after = response_keys(&ctx.operation.responses);
    let added = added_keys(&before, &after);
    let ghost names = text::views(added@);
    assert(names.take(0) =~= Seq::<Seq<char>>::empty());
    for i in 0..added.len()
        invariant
            names == text::views(added@),
            ctx@ == inner.with_operation(
                OperationModel {
                    responses: all_moved(
                        sent@,
                        inner.operation.responses,
                        names.take(i as int),
                    ),
                    ..inner.operation
                },
            ),
    {
        assert(names.take(i + 1).drop_last() =~= names.take(i as int));
        assert(names[i as int] == added@[i as int]@);
        move_response(sent, ctx, added[i].as_str());
    }
    assert(names.take(names.len() as int) =~= names);
}

impl<T: OperationOutput> OperationOutput for Created<T> {
    open spec fn described(c: ContextModel) -> ContextModel {
        described_at::<T>(SentModel::Created, c)
    }

    open spec fn fixed_status() -> Option<u16> {
        Some(201)
    }

    fn describe(ctx: &mut OperationContext) {
        describe_at::<T>(Sent::Created, ctx);
    }

    fn status() -> Option<u16> {
        Some(201)
    }
}

impl<T: OperationOutput> OperationOutput for Accepted<T> {
    open spec fn described(c: ContextModel) -> ContextModel {
        described_at::<T>(SentModel::Accepted, c)
    }

    open spec fn fixed_status() -> Option<u16> {
        Some(202)
    }

    fn describe(ctx: &mut OperationContext) {
        describe_at::<T>(Sent::Accepted, ctx);
    }

    fn status() -> Option<u16> {
        Some(202)
    }
}

/// Whether there is an entry under a key.
pub open spec fn has_key<V>(entries: Seq<(Seq<char>, V)>, key: Seq<char>) -> bool {
    exists|i: int| 0 <= i < entries.len() && (#[trigger] entries[i]).0 == key
}

proof fn lemma_moved(sent: SentModel, responses: Seq<(Seq<char>, ResponseModel)>, key: Seq<char>)
    requires
        ordered::distinct(responses),
    ensures
        ordered::distinct(moved(sent, responses, key)),
        forall|k: Seq<char>| #[trigger]
            has_key(moved(sent, responses, key), k) ==> k == sent.key() || (has_key(responses, k) && (k
                != key || k == "default"@)),
{
    if key != "default"@ {
        ordered::lemma_position(responses, key);
        if let Some(i) = ordered::position(responses, key) {
            let without = responses.remove(i);
            assert forall|a: int, b: int| 0 <= a < b < without.len() implies (
            #[trigger] without[a]).0 != (#[trigger] without[b]).0 by {
                let x = if a < i { a } else { a + 1 };
                let y = if b < i { b } else { b + 1 };
                assert(without[a] == responses[x] && without[b] == responses[y]);
            }
            ordered::lemma_position(without, sent.key());
            let after = moved(sent, responses, key);
            assert forall|k: Seq<char>| #[trigger] has_key(after, k) implies k == sent.key() || (
            has_key(responses, k) && (k != key || k == "default"@)) by {
                let a = choose|a: int| 0 <= a < after.len() && (#[trigger] after[a]).0 == k;
                if k != sent.key() {
                    assert(after[a] == without[a]);
                    let x = if a < i { a } else { a + 1 };
                    assert(without[a] == responses[x]);
                    assert(responses[i].0 == key);
                }
            }
        }
    }
}

proof fn lemma_all_moved(sent: SentModel, responses: Seq<(Seq<char>, ResponseModel)>, names: Seq<Seq<char>>)
    requires
        ordered::distinct(responses),
    ensures
        ordered::distinct(all_moved(sent, responses, names)),
        forall|k: Seq<char>| #[trigger]
            has_key(all_moved(sent, responses, names), k) ==> k == sent.key() || (has_key(responses, k) && (
            !names.contains(k) || k == "default"@)),
    decreases names.len(),
{
    if names.len() > 0 {
        lemma_all_moved(sent, responses, names.drop_last());
        lemma_moved(sent, all_moved(sent, responses, names.drop_last()), names.last());
        assert forall|k: Seq<char>| #[trigger]
            has_key(all_moved(sent, responses, names), k) implies k == sent.key() || (has_key(responses, k)
            && (!names.contains(k) || k == "default"@)) by {
            if k != sent.key() {
                assert(has_key(all_moved(sent, responses, names.drop_last()), k));
                if names.contains(k) && k != "default"@ {
                    let i = choose|i: int| 0 <= i < names.len() && names[i] == k;
                    assert(i < names.len() - 1);
                    assert(names.drop_last()[i] == k);
                }
            }
        }
    }
}

proof fn lemma_names_added(before: Seq<Seq<char>>, after: Seq<Seq<char>>, i: int)
    requires
        0 <= i < after.len(),
        !before.contains(after[i]),
    ensures
        names_added(before, after).contains(after[i]),
    decreases after.len(),
{
    let earlier = names_added(before, after.drop_last());
    if i < after.len() - 1 {
        lemma_names_added(before, after.drop_last(), i);
        let j = choose|j: int| 0 <= j < earlier.len() && earlier[j] == after[i];
        assert(names_added(before, after)[j] == after[i]);
    } else {
        assert(names_added(before, after).last() == after[i]);
    }
}

proof fn lemma_described_at<T: OperationOutput>(sent: SentModel, c: ContextModel, key: Seq<char>)
    requires
        ordered::distinct(T::described(c).operation.responses),
        has_key(described_at::<T>(sent, c).operation.responses, key),
    ensures
        key == sent.key() || key == "default"@ || has_key(c.operation.responses, key),
{
    let inner = T::described(c).operation.responses;
    let before = keys(c.operation.responses);
    let added = names_added(before, keys(inner));
    lemma_all_moved(sent, inner, added);
    if key != sent.key() && key != "default"@ {
        let i = choose|i: int| 0 <= i < inner.len() && (#[trigger] inner[i]).0 == key;
        assert(keys(inner)[i] == key);
        if !before.contains(key) {
            lemma_names_added(before, keys(inner), i);
        } else {
            let j = choose|j: int| 0 <= j < before.len() && before[j] == key;
            assert(c.operation.responses[j].0 == key);
        }
    }
}

/// Whatever status the inner type documents itself at, a created resource is
/// documented at `201`: beside that and the `default` response, only what was
/// documented before is left.
pub proof fn a_created_resource_is_documented_at_201<T: OperationOutput>(
    c: ContextModel,
    key: Seq<char>,
)
    requires
        ordered::distinct(T::described(c).operation.responses),
        has_key(Created::<T>::described(c).operation.responses, key),
    ensures
        key == "201"@ || key == "default"@ || has_key(c.operation.responses, key),
{
    lemma_described_at::<T>(SentModel::Created, c, key);
}

/// Whatever status the inner type documents itself at, an accepted request is
/// documented at `202`: beside that and the `default` response, only what was
/// documented before is left.
pub proof fn an_accepted_request_is_documented_at_202<T: OperationOutput>(
    c: ContextModel,
    key: Seq<char>,
)
    requires
        ordered::distinct(T::described(c).operation.responses),
        has_key(Accepted::<T>::described(c).operation.responses, key),
    ensures
        key == "202"@ || key == "default"@ || has_key(c.operation.responses, key),
{
    lemma_described_at::<T>(SentModel::Accepted, c, key);
}

} // verus!
