//! The application builder, and the document of an application.

use crate::app::group;
use crate::app::group::{EntryModel, Router, RouterModel};
use crate::app::naming;
use crate::derive::route::{Arguments, RoutePlan};
use crate::docs;
use crate::docs::Docs;
use crate::extract::cookies;
use crate::openapi::gen::{Collected, SchemaGenerator};
use crate::openapi::ordered;
use crate::openapi::ordered::OrderedMap;
use crate::openapi::schema;
use crate::openapi::spec;
use crate::openapi::spec::{
    Duplicate, Components, ComponentsModel, Info, InfoModel, OpenApi, OpenApiModel, Operation,
    OperationModel, PathItem, PathItemModel, Response, ResponseModel, SecurityScheme,
    SecuritySchemeModel, Server, ServerModel, Tag, TagModel, Verb,
};
use crate::operation::{ContextModel, OperationContext, OperationOutput};
use crate::router::RouteDef;
use crate::state::{StateMap, StateModel};
use crate::text;
use std::sync::Arc;
use vstd::prelude::*;
use vstd::string::*;

verus! {

/// The default ceiling on a buffered request body: 2 MiB.
pub const DEFAULT_BODY_LIMIT: usize = 2097152;

// ---------------------------------------------------------------------------
// handlers that describe themselves
// ---------------------------------------------------------------------------

/// A handler that knows the operation it stands for.
pub trait Describe {
    /// The operation with this handler accounted for.
    open spec fn described(&self, c: ContextModel) -> ContextModel {
        c
    }

    /// Changes the operation to account for this handler.
    fn describe(&self, ctx: &mut OperationContext)
        ensures
            final(ctx)@ == self.described(old(ctx)@),
    ;
}

/// A handler without documentation attached.
pub struct Plain<T>(pub T);

impl<T> Describe for Plain<T> {
    open spec fn described(&self, c: ContextModel) -> ContextModel {
        c
    }

    fn describe(&self, ctx: &mut OperationContext) {
    }
}

/// A handler with the route its attribute stands for, its argument types and
/// its return type.
pub struct Attributed<T, A, O> {
    pub plan: RoutePlan,
    pub handler: T,
    pub types: core::marker::PhantomData<(A, O)>,
}

impl<T, A: Arguments, O: OperationOutput> Describe for Attributed<T, A, O> {
    open spec fn described(&self, c: ContextModel) -> ContextModel {
        self.plan@.documented::<A, O>(c)
    }

    fn describe(&self, ctx: &mut OperationContext) {
        self.plan.document::<A, O>(ctx);
    }
}

// ---------------------------------------------------------------------------
// the builder
// ---------------------------------------------------------------------------

/// The application: routes, state, documentation, and settings.
///
/// `H` are the handlers, `L` the layers around them, and `V` the values of its
/// state.
pub struct App<H, L, V> {
    pub router: Router<H, L>,
    pub info: Info,
    pub servers: Vec<Server>,
    pub tags: Vec<Tag>,
    pub security_schemes: OrderedMap<SecurityScheme>,
    pub state: StateMap<V>,
    pub docs: Option<Docs>,
    pub body_limit: usize,
    pub catch_panics: bool,
}

/// An application, as a value.
#[verifier::ext_equal]
pub struct AppModel<H, L, V> {
    pub router: RouterModel<H, L>,
    pub info: InfoModel,
    pub servers: Seq<ServerModel>,
    pub tags: Seq<TagModel>,
    pub security_schemes: Seq<(Seq<char>, SecuritySchemeModel)>,
    pub state: StateModel<V>,
    pub docs: Option<docs::DocsModel>,
    pub body_limit: usize,
    pub catch_panics: bool,
}

impl<H, L, V> View for App<H, L, V> {
    type V = AppModel<H, L, V>;

    open spec fn view(&self) -> AppModel<H, L, V> {
        AppModel {
            router: self.router@,
            info: self.info@,
            servers: spec::seq_model(self.servers@),
            tags: spec::seq_model(self.tags@),
            security_schemes: spec::map_model(self.security_schemes@),
            state: self.state@,
            docs: spec::opt_model(self.docs),
            body_limit: self.body_limit,
            catch_panics: self.catch_panics,
        }
    }
}

impl<H, L, V> AppModel<H, L, V> {
    pub open spec fn new() -> AppModel<H, L, V> {
        AppModel {
            router: RouterModel::empty(),
            info: InfoModel { title: "velo"@, version: "0.1.0"@, ..InfoModel::empty() },
            servers: Seq::empty(),
            tags: Seq::empty(),
            security_schemes: Seq::empty(),
            state: StateModel::empty(),
            docs: Some(docs::DocsModel::standard()),
            body_limit: DEFAULT_BODY_LIMIT,
            catch_panics: true,
        }
    }
}

impl<H, L: Copy, V> App<H, L, V> {
    pub fn new() -> (out: Self)
        ensures
            out@ == AppModel::<H, L, V>::new(),
    {
        let out = App {
            router: Router::new(),
            info: Info {
                title: "velo".to_owned(),
                version: "0.1.0".to_owned(),
                ..Info::default()
            },
            servers: Vec::new(),
            tags: Vec::new(),
            security_schemes: OrderedMap::new(),
            state: StateMap::new(),
            docs: Some(Docs::default()),
            body_limit: DEFAULT_BODY_LIMIT,
            catch_panics: true,
        };
        assert(out@ =~= AppModel::<H, L, V>::new());
        out
    }

    // ---- document metadata ----------------------------------------------

    pub fn title(self, title: &str) -> (out: Self)
        ensures
            out@ == (AppModel { info: InfoModel { title: title@, ..self@.info }, ..self@ }),
    {
        let mut out = self;
        out.info.title = title.to_owned();
        out
    }

    pub fn version(self, version: &str) -> (out: Self)
        ensures
            out@ == (AppModel { info: InfoModel { version: version@, ..self@.info }, ..self@ }),
    {
        let mut out = self;
        out.info.version = version.to_owned();
        out
    }

    pub fn description(self, description: &str) -> (out: Self)
        ensures
            out@ == (AppModel {
                info: InfoModel { description: Some(description@), ..self@.info },
                ..self@
            }),
    {
        let mut out = self;
        out.info.description = Some(description.to_owned());
        out
    }

    /// Replaces the whole `info` block.
    pub fn info(self, info: Info) -> (out: Self)
        ensures
            out@ == (AppModel { info: info@, ..self@ }),
    {
        let mut out = self;
        out.info = info;
        out
    }

    /// Adds a server entry to the document.
    pub fn server(self, url: &str, description: Option<&str>) -> (out: Self)
        ensures
            out@ == (AppModel {
                servers: self@.servers.push(
                    ServerModel {
                        url: url@,
                        description: match description {
                            Some(d) => Some(d@),
                            None => None,
                        },
                        variables: Seq::empty(),
                    },
                ),
                ..self@
            }),
    {
        let ghost before = self@;
        let mut out = self;
        let server = Server {
            url: url.to_owned(),
            description: match description {
                Some(d) => Some(d.to_owned()),
                None => None,
            },
            variables: OrderedMap::new(),
        };
        let ghost model = server@;
        assert(model.variables =~= Seq::empty());
        out.servers.push(server);
        assert(out@.servers =~= before.servers.push(model));
        out
    }

    /// Documents a tag. Tags used by routes but never described here still
    /// appear; this only adds the prose.
    pub fn tag(self, name: &str, description: &str) -> (out: Self)
        ensures
            out@ == (AppModel {
                tags: self@.tags.push(
                    TagModel {
                        name: name@,
                        description: Some(description@),
                        external_docs: None,
                    },
                ),
                ..self@
            }),
    {
        let ghost before = self@;
        let mut out = self;
        let tag = Tag {
            name: name.to_owned(),
            description: Some(description.to_owned()),
            external_docs: None,
        };
        let ghost model = tag@;
        out.tags.push(tag);
        assert(out@.tags =~= before.tags.push(model));
        out
    }

    /// Registers a security scheme under a name.
    pub fn security_scheme(self, name: &str, scheme: SecurityScheme) -> (out: Self)
        ensures
            out@ == (AppModel {
                security_schemes: ordered::inserted(self@.security_schemes, name@, scheme@),
                ..self@
            }),
    {
        proof {
            spec::lemma_map_inserted(self.security_schemes@, name@, scheme);
        }
        let mut out = self;
        out.security_schemes.insert(name.to_owned(), scheme);
        out
    }

    // ---- wiring -----------------------------------------------------------

    /// Registers a value under its type.
    pub fn with_state(self, type_number: u64, name: &str, value: V) -> (out: Self)
        ensures
            out@ == (AppModel {
                state: self@.state.registered(type_number, name@, value),
                ..self@
            }),
    {
        let mut out = self;
        out.state.insert(type_number, name, value);
        out
    }

    /// Registers an already-shared value.
    pub fn with_shared_state(self, type_number: u64, name: &str, value: Arc<V>) -> (out: Self)
        ensures
            out@ == (AppModel {
                state: self@.state.registered(type_number, name@, *value),
                ..self@
            }),
    {
        let mut out = self;
        out.state.insert_arc(type_number, name, value);
        out
    }

    pub fn mount(self, routes: Vec<RouteDef<H>>) -> (out: Self)
        ensures
            out@ == (AppModel { router: self@.router.mounting(routes@), ..self@ }),
    {
        App { router: self.router.mount(routes), ..self }
    }

    pub fn mount_at(self, prefix: &str, routes: Vec<RouteDef<H>>) -> (out: Self)
        ensures
            out@ == (AppModel {
                router: self@.router.nesting(
                    prefix@,
                    RouterModel::<H, L>::empty().mounting(routes@),
                ),
                ..self@
            }),
    {
        App { router: self.router.mount_at(prefix, routes), ..self }
    }

    pub fn nest(self, prefix: &str, router: Router<H, L>) -> (out: Self)
        ensures
            out@ == (AppModel { router: self@.router.nesting(prefix@, router@), ..self@ }),
    {
        App { router: self.router.nest(prefix, router), ..self }
    }

    /// Applies a layer to every route.
    pub fn layer(self, middleware: L) -> (out: Self)
        ensures
            out@ == (AppModel {
                router: RouterModel {
                    middleware: self@.router.middleware.push(middleware),
                    ..self@.router
                },
                ..self@
            }),
    {
        App { router: self.router.layer(middleware), ..self }
    }

    /// Configures the documentation endpoints.
    pub fn docs(self, docs: Docs) -> (out: Self)
        ensures
            out@ == (AppModel { docs: Some(docs@), ..self@ }),
    {
        let mut out = self;
        out.docs = Some(docs);
        out
    }

    /// Serves no documentation endpoints. The document is still available
    /// programmatically via [`App::openapi`].
    pub fn without_docs(self) -> (out: Self)
        ensures
            out@ == (AppModel { docs: None, ..self@ }),
    {
        let mut out = self;
        out.docs = None;
        out
    }

    /// Sets the maximum buffered request body size.
    pub fn body_limit(self, bytes: usize) -> (out: Self)
        ensures
            out@ == (AppModel { body_limit: bytes, ..self@ }),
    {
        let mut out = self;
        out.body_limit = bytes;
        out
    }

    /// Turns off the panic-catching layer, letting panics propagate.
    pub fn without_panic_guard(self) -> (out: Self)
        ensures
            out@ == (AppModel { catch_panics: false, ..self@ }),
    {
        let mut out = self;
        out.catch_panics = false;
        out
    }
}

impl<H, L: Copy, V> Default for App<H, L, V> {
    fn default() -> (out: Self)
        ensures
            out@ == AppModel::<H, L, V>::new(),
    {
        App::new()
    }
}

// ---------------------------------------------------------------------------
// the document
// ---------------------------------------------------------------------------

/// The paths of a document.
pub type Paths = Seq<(Seq<char>, PathItemModel)>;

/// Tags with several more, each unless it is there.
pub open spec fn all_tagged(tags: Seq<Seq<char>>, more: Seq<Seq<char>>) -> Seq<Seq<char>>
    decreases more.len(),
{
    if more.len() == 0 {
        tags
    } else {
        group::tagged(all_tagged(tags, more.drop_last()), more.last())
    }
}

/// An operation with what every operation has: the tags of its group, an id,
/// and at least one response.
pub open spec fn finished(
    o: OperationModel,
    method: Seq<char>,
    path: Seq<char>,
    tags: Seq<Seq<char>>,
) -> OperationModel {
    OperationModel {
        tags: all_tagged(o.tags, tags),
        operation_id: match o.operation_id {
            Some(id) => Some(id),
            None => Some(naming::operation_id(method, path)),
        },
        responses: if o.responses.len() == 0 {
            seq![("200"@, ResponseModel::new("Success"@))]
        } else {
            o.responses
        },
        ..o
    }
}

/// What is described of a route, after what was collected before it.
pub open spec fn described_route<H: Describe, L>(g: Collected, e: EntryModel<H, L>)
    -> ContextModel {
    e.handler.described(
        ContextModel {
            generator: g,
            operation: OperationModel::empty(),
            path: e.path,
            method: e.method,
        },
    )
}

/// The paths with an operation in its place. OpenAPI has no place for some
/// methods; their path is listed all the same.
pub open spec fn placed(
    paths: Paths,
    method: Seq<char>,
    path: Seq<char>,
    operation: OperationModel,
) -> Paths {
    let key = naming::without_catch_alls(path);
    let item = match ordered::lookup(paths, key) {
        Some(item) => item,
        None => PathItemModel::empty(),
    };
    let item = match spec::verb_of(method) {
        Some(verb) => item.with(verb, Some(operation)),
        None => item,
    };
    ordered::inserted(paths, key, item)
}

/// What is collected, and the paths, after these routes.
pub open spec fn documented<H: Describe, L>(routes: Seq<EntryModel<H, L>>) -> (Collected, Paths)
    decreases routes.len(),
{
    if routes.len() == 0 {
        (Collected::empty(), Seq::empty())
    } else {
        let (g, paths) = documented(routes.drop_last());
        let e = routes.last();
        let c = described_route(g, e);
        (
            c.generator,
            placed(paths, e.method, e.path, finished(c.operation, e.method, e.path, e.tags)),
        )
    }
}

/// Whether an operation asks for a security scheme.
pub open spec fn asks_for(o: OperationModel, name: Seq<char>) -> bool {
    match o.security {
        Some(list) => exists|i: int, j: int|
            0 <= i < list.len() && 0 <= j < list[i].len() && (#[trigger] list[i][j]).0 == name,
        None => false,
    }
}

pub open spec fn may_ask_for(o: Option<OperationModel>, name: Seq<char>) -> bool {
    match o {
        Some(o) => asks_for(o, name),
        None => false,
    }
}

/// Whether an operation of a path asks for a security scheme.
pub open spec fn item_asks_for(item: PathItemModel, name: Seq<char>) -> bool {
    ||| may_ask_for(item.get, name)
    ||| may_ask_for(item.put, name)
    ||| may_ask_for(item.post, name)
    ||| may_ask_for(item.delete, name)
    ||| may_ask_for(item.options, name)
    ||| may_ask_for(item.head, name)
    ||| may_ask_for(item.patch, name)
    ||| may_ask_for(item.trace, name)
}

/// Whether some operation asks for a security scheme.
pub open spec fn paths_ask_for(paths: Paths, name: Seq<char>) -> bool {
    exists|i: int| 0 <= i < paths.len() && item_asks_for((#[trigger] paths[i]).1, name)
}

/// The security schemes of a document: those that were registered, and the
/// obvious definition of bearer tokens where an operation asks for them and
/// none was, rather than a document that dangles.
pub open spec fn schemes(
    registered: Seq<(Seq<char>, SecuritySchemeModel)>,
    paths: Paths,
) -> Seq<(Seq<char>, SecuritySchemeModel)> {
    let name = cookies::BEARER_SCHEME@;
    if paths_ask_for(paths, name) && ordered::position(registered, name) is None {
        ordered::inserted(registered, name, SecuritySchemeModel::bearer_jwt())
    } else {
        registered
    }
}

impl<H: Describe, L, V> AppModel<H, L, V> {
    /// The OpenAPI document of the mounted routes.
    pub open spec fn document(self) -> OpenApiModel {
        let (g, paths) = documented(self.router.routes);
        OpenApiModel {
            info: self.info,
            servers: self.servers,
            paths,
            components: ComponentsModel {
                schemas: g.definitions,
                security_schemes: schemes(self.security_schemes, paths),
                ..ComponentsModel::empty()
            },
            tags: self.tags,
            ..OpenApiModel::empty()
        }
    }
}

fn has_requirement(o: &Operation, name: &str) -> (r: bool)
    ensures
        r == asks_for(o@, name@),
{
    match &o.security {
        None => false,
        Some(list) => {
            let ghost model = spec::requirement_list(list@);
            for i in 0..list.len()
                invariant
                    model == spec::requirement_list(list@),
                    o@.security == Some(model),
                    forall|a: int, b: int|
                        0 <= a < i && 0 <= b < model[a].len() ==> (#[trigger] model[a][b]).0
                            != name@,
            {
                assert(model[i as int] == spec::requirement(list@[i as int]@));
                proof {
                    ordered::lemma_position(list@[i as int]@, name@);
                }
                if list[i].contains_key(name) {
                    proof {
                        let b = ordered::position(list@[i as int]@, name@)->0;
                        let held = o@.security->0;
                        assert(held == model);
                        assert(0 <= i < held.len() && 0 <= b < held[i as int].len());
                        assert(held[i as int][b].0 == name@);
                    }
                    return true;
                }
                assert forall|b: int| 0 <= b < model[i as int].len() implies (
                #[trigger] model[i as int][b]).0 != name@ by {
                    assert(list@[i as int]@[b].0 != name@);
                }
            }
            false
        },
    }
}

fn may_require(o: &Option<Operation>, name: &str) -> (r: bool)
    ensures
        r == may_ask_for(spec::opt_model(*o), name@),
{
    match o {
        Some(o) => has_requirement(o, name),
        None => false,
    }
}

/// Whether an operation of a path asks for a security scheme.
fn item_requires(item: &PathItem, name: &str) -> (r: bool)
    ensures
        r == item_asks_for(item@, name@),
{
    may_require(&item.get, name) || may_require(&item.put, name) || may_require(&item.post, name)
        || may_require(&item.delete, name) || may_require(&item.options, name) || may_require(
        &item.head,
        name,
    ) || may_require(&item.patch, name) || may_require(&item.trace, name)
}

fn paths_require(paths: &OrderedMap<PathItem>, name: &str) -> (r: bool)
    ensures
        r == paths_ask_for(spec::map_model(paths@), name@),
{
    let ghost model = spec::map_model(paths@);
    let n: usize = paths.len();
    for i in 0..n
        invariant
            n == paths@.len(),
            model == spec::map_model(paths@),
            forall|a: int| 0 <= a < i ==> !item_asks_for((#[trigger] model[a]).1, name@),
    {
        let item = paths.value_at(i);
        assert(model[i as int].1 == item@);
        if item_requires(item, name) {
            return true;
        }
    }
    false
}

fn add_tags(operation: &mut Operation, tags: &Vec<String>)
    ensures
        final(operation)@ == (OperationModel {
            tags: all_tagged(old(operation)@.tags, text::views(tags@)),
            ..old(operation)@
        }),
{
    let ghost start = operation@;
    let ghost more = text::views(tags@);
    assert(more.take(0) =~= Seq::<Seq<char>>::empty());
    for i in 0..tags.len()
        invariant
            more == text::views(tags@),
            operation@ == (OperationModel {
                tags: all_tagged(start.tags, more.take(i as int)),
                ..start
            }),
    {
        assert(more.take(i + 1).drop_last() =~= more.take(i as int));
        assert(more[i as int] == tags@[i as int]@);
        if !text::has_text(&operation.tags, tags[i].as_str()) {
            let tag = tags[i].clone();
            proof {
                text::lemma_views_push(operation.tags@, tag);
            }
            operation.tags.push(tag);
        }
    }
    assert(more.take(more.len() as int) =~= more);
}

/// Gives an operation what every operation has.
fn finish(operation: Operation, method: &str, path: &str, tags: &Vec<String>) -> (out: Operation)
    ensures
        out@ == finished(operation@, method@, path@, text::views(tags@)),
{
    let mut operation = operation;
    add_tags(&mut operation, tags);
    if operation.operation_id.is_none() {
        operation.operation_id = Some(naming::default_operation_id(method, path));
    }
    if operation.responses.is_empty() {
        let ghost before = operation.responses@;
        let success = Response::new("Success");
        operation.responses.insert("200".to_owned(), success);
        assert(spec::map_model(operation.responses@) =~= seq![
            ("200"@, ResponseModel::new("Success"@)),
        ]);
    }
    operation
}

/// Puts an operation in its place.
fn place(paths: &mut OrderedMap<PathItem>, method: &str, path: &str, operation: Operation)
    ensures
        spec::map_model(final(paths)@) == placed(
            spec::map_model(old(paths)@),
            method@,
            path@,
            operation@,
        ),
{
    let key = naming::document_path(path);
    let ghost before = paths@;
    let ghost op = operation@;
    proof {
        schema::lemma_same_position(before, spec::map_model(before), key@);
        ordered::lemma_position(before, key@);
    }
    let fresh = PathItem::default();
    let mut item = match paths.insert(key.clone(), fresh) {
        Some(item) => item,
        None => PathItem::default(),
    };
    let ghost between = paths@;
    let ghost start = item@;
    if let Some(slot) = item.slot(method) {
        *slot = Some(operation);
    }
    proof {
        ordered::lemma_position(between, key@);
        spec::lemma_map_inserted(between, key@, item);
    }
    let ghost last = item@;
    paths.insert(key, item);
    proof {
        lemma_inserted_twice(spec::map_model(before), key@, fresh@, last);
        spec::lemma_map_inserted(before, key@, fresh);
    }
}

/// A value inserted over another is as if it alone had been.
proof fn lemma_inserted_twice<T>(entries: Seq<(Seq<char>, T)>, key: Seq<char>, a: T, b: T)
    ensures
        ordered::inserted(ordered::inserted(entries, key, a), key, b) == ordered::inserted(
            entries,
            key,
            b,
        ),
{
    ordered::lemma_position(entries, key);
    let once = ordered::inserted(entries, key, a);
    match ordered::position(entries, key) {
        Some(i) => {
            lemma_position_updated(entries, key, i, a);
            assert(ordered::inserted(once, key, b) =~= ordered::inserted(entries, key, b));
        },
        None => {
            assert(ordered::position(once, key) == Some(once.len() - 1));
            assert(ordered::inserted(once, key, b) =~= ordered::inserted(entries, key, b));
        },
    }
}

proof fn lemma_position_updated<T>(
    entries: Seq<(Seq<char>, T)>,
    key: Seq<char>,
    i: int,
    value: T,
)
    requires
        ordered::position(entries, key) == Some(i),
        0 <= i < entries.len(),
    ensures
        ordered::position(entries.update(i, (key, value)), key) == Some(i),
    decreases entries.len(),
{
    if entries.last().0 != key {
        ordered::lemma_position(entries.drop_last(), key);
        lemma_position_updated(entries.drop_last(), key, i, value);
        assert(entries.update(i, (key, value)).drop_last() =~= entries.drop_last().update(
            i,
            (key, value),
        ));
    } else {
        assert(i == entries.len() - 1);
    }
}

impl<H: Describe, L, V> App<H, L, V> {
    /// Builds the OpenAPI document from the mounted routes.
    ///
    /// This walks the same descriptions the server uses, so what you get here
    /// is exactly what is served.
    pub fn openapi(&self) -> (out: OpenApi)
        ensures
            out@ == self@.document(),
    {
        let mut generator = SchemaGenerator::new();
        let mut paths: OrderedMap<PathItem> = OrderedMap::new();
        let routes = &self.router.routes;
        let ghost model = self@.router.routes;
        assert(model.take(0) =~= Seq::<EntryModel<H, L>>::empty());
        assert(spec::map_model(paths@) =~= Seq::<(Seq<char>, PathItemModel)>::empty());
        for i in 0..routes.len()
            invariant
                model == group::entry_models(routes@),
                documented(model.take(i as int)) == (generator@, spec::map_model(paths@)),
        {
            let entry = &routes[i];
            assert(model.take(i + 1).drop_last() =~= model.take(i as int));
            assert(model[i as int] == entry@);
            let mut ctx = OperationContext {
                generator,
                operation: Operation::default(),
                path: entry.def.path.clone(),
                method: entry.def.method.clone(),
            };
            entry.def.handler.describe(&mut ctx);
            generator = ctx.generator;
            let operation = finish(
                ctx.operation,
                entry.def.method.as_str(),
                entry.def.path.as_str(),
                &entry.tags,
            );
            place(&mut paths, entry.def.method.as_str(), entry.def.path.as_str(), operation);
        }
        assert(model.take(model.len() as int) =~= model);
        let mut security_schemes = spec::copy_map(&self.security_schemes);
        proof {
            schema::lemma_same_position(
                security_schemes@,
                spec::map_model(security_schemes@),
                cookies::BEARER_SCHEME@,
            );
        }
        // Any scheme an operation asked for that was not registered by hand:
        // supply the obvious definition.
        let name = cookies::BEARER_SCHEME;
        if paths_require(&paths, name) && !security_schemes.contains_key(name) {
            let scheme = SecurityScheme::bearer_jwt();
            proof {
                spec::lemma_map_inserted(security_schemes@, name@, scheme);
            }
            security_schemes.insert(name.to_owned(), scheme);
        }
        let components = Components {
            schemas: generator.into_definitions(),
            security_schemes,
            ..Components::default()
        };
        let out = OpenApi {
            info: self.info.copy(),
            servers: spec::copy_seq(&self.servers),
            paths,
            components,
            tags: spec::copy_seq(&self.tags),
            ..OpenApi::default()
        };
        assert(out@ =~= self@.document());
        out
    }
}

// ---------------------------------------------------------------------------
// laws
// ---------------------------------------------------------------------------

/// Whether an operation has an id and a response.
pub open spec fn complete(o: OperationModel) -> bool {
    o.operation_id is Some && o.responses.len() > 0
}

/// The operation at a path and a method, if it is in the document.
pub open spec fn operation_at(paths: Paths, key: Seq<char>, verb: Verb) -> Option<OperationModel> {
    match ordered::lookup(paths, key) {
        Some(item) => item.at(verb),
        None => None,
    }
}

proof fn lemma_documented_distinct<H: Describe, L>(routes: Seq<EntryModel<H, L>>)
    ensures
        ordered::distinct(documented(routes).1),
    decreases routes.len(),
{
    if routes.len() > 0 {
        lemma_documented_distinct(routes.drop_last());
        lemma_placed_last(routes);
        let (key, item) = last_placed(routes);
        ordered::insertion_is_remembered(documented(routes.drop_last()).1, key, item, key);
    }
}

/// What the last route puts into the paths.
spec fn last_placed<H: Describe, L>(routes: Seq<EntryModel<H, L>>) -> (Seq<char>, PathItemModel) {
    let (g, paths) = documented(routes.drop_last());
    let e = routes.last();
    let c = described_route(g, e);
    let key = naming::without_catch_alls(e.path);
    let item = match ordered::lookup(paths, key) {
        Some(item) => item,
        None => PathItemModel::empty(),
    };
    let operation = finished(c.operation, e.method, e.path, e.tags);
    match spec::verb_of(e.method) {
        Some(verb) => (key, item.with(verb, Some(operation))),
        None => (key, item),
    }
}

proof fn lemma_placed_last<H: Describe, L>(routes: Seq<EntryModel<H, L>>)
    requires
        routes.len() > 0,
    ensures
        documented(routes).1 == ordered::inserted(
            documented(routes.drop_last()).1,
            last_placed(routes).0,
            last_placed(routes).1,
        ),
{
}

/// Every operation of a document has an id and at least one response, whatever
/// its handler says of itself.
pub proof fn every_operation_is_complete<H: Describe, L>(
    routes: Seq<EntryModel<H, L>>,
    key: Seq<char>,
    verb: Verb,
)
    ensures
        match operation_at(documented(routes).1, key, verb) {
            Some(o) => complete(o),
            None => true,
        },
    decreases routes.len(),
{
    if routes.len() > 0 {
        let before = documented(routes.drop_last()).1;
        every_operation_is_complete(routes.drop_last(), key, verb);
        lemma_documented_distinct(routes.drop_last());
        lemma_placed_last(routes);
        let (at, item) = last_placed(routes);
        ordered::insertion_is_remembered(before, at, item, key);
    }
}

/// Every route has its place in the document, except those whose method
/// OpenAPI does not know.
pub proof fn every_route_is_documented<H: Describe, L>(routes: Seq<EntryModel<H, L>>, i: int)
    requires
        0 <= i < routes.len(),
        spec::verb_of(routes[i].method) is Some,
    ensures
        operation_at(
            documented(routes).1,
            naming::without_catch_alls(routes[i].path),
            spec::verb_of(routes[i].method)->0,
        ) is Some,
    decreases routes.len(),
{
    let key = naming::without_catch_alls(routes[i].path);
    let before = documented(routes.drop_last()).1;
    lemma_documented_distinct(routes.drop_last());
    lemma_placed_last(routes);
    let (at, item) = last_placed(routes);
    ordered::insertion_is_remembered(before, at, item, key);
    if i < routes.len() - 1 {
        assert(routes.drop_last()[i] == routes[i]);
        every_route_is_documented(routes.drop_last(), i);
    }
}

/// Every operation in the document is that of a route.
pub proof fn every_documented_operation_has_a_route<H: Describe, L>(
    routes: Seq<EntryModel<H, L>>,
    key: Seq<char>,
    verb: Verb,
)
    requires
        operation_at(documented(routes).1, key, verb) is Some,
    ensures
        exists|i: int|
            0 <= i < routes.len() && naming::without_catch_alls((#[trigger] routes[i]).path) == key
                && spec::verb_of(routes[i].method) == Some(verb),
    decreases routes.len(),
{
    if routes.len() > 0 {
        let before = documented(routes.drop_last()).1;
        lemma_documented_distinct(routes.drop_last());
        lemma_placed_last(routes);
        let (at, item) = last_placed(routes);
        ordered::insertion_is_remembered(before, at, item, key);
        if operation_at(before, key, verb) is Some {
            every_documented_operation_has_a_route(routes.drop_last(), key, verb);
            let i = choose|i: int|
                0 <= i < routes.drop_last().len() && naming::without_catch_alls(
                    (#[trigger] routes.drop_last()[i]).path,
                ) == key && spec::verb_of(routes.drop_last()[i].method) == Some(verb);
            assert(routes[i] == routes.drop_last()[i]);
        } else {
            assert(routes[routes.len() - 1] == routes.last());
        }
    }
}

/// A document that asks for bearer tokens says what they are.
pub proof fn a_bearer_requirement_never_dangles<H: Describe, L, V>(app: AppModel<H, L, V>)
    requires
        ordered::distinct(app.security_schemes),
        paths_ask_for(app.document().paths, cookies::BEARER_SCHEME@),
    ensures
        ordered::lookup(app.document().components.security_schemes, cookies::BEARER_SCHEME@)
            is Some,
{
    let name = cookies::BEARER_SCHEME@;
    ordered::insertion_is_remembered(
        app.security_schemes,
        name,
        SecuritySchemeModel::bearer_jwt(),
        name,
    );
}

} // verus!
