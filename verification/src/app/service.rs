//! A built application: which handler a request goes to, and what is answered
//! where there is none.

use crate::app::document::{App, AppModel, Describe};
use crate::app::group;
use crate::app::group::RouteEntry;
use crate::body::{BodyModel, ResBody};
use crate::docs;
use crate::docs::{DocsRoute, Page, PageModel};
use crate::error::{ApiError, Problem};
use crate::headers;
use crate::middleware;
use crate::middleware::Chain;
use crate::openapi::spec::OpenApi;
use crate::request::{Request, RequestModel};
use crate::response;
use crate::response::{IntoResponse, Reply, Response};
use crate::router;
use crate::router::{Match, Route, RouteConflict, RouteDef, RouteTable};
use crate::state::StateMap;
use crate::text;
use vstd::prelude::*;
use vstd::string::*;

verus! {

// ---------------------------------------------------------------------------
// what is mounted
// ---------------------------------------------------------------------------

/// A layer of a built application.
pub enum Layer<L> {
    /// The guard that answers for a handler that panicked.
    CatchPanic,
    User(L),
}

/// A handler of a built application.
pub enum Served<H> {
    User(H),
    /// A documentation endpoint.
    Docs(Page),
}

/// A handler of a built application, as a value.
#[verifier::ext_equal]
pub enum ServedModel<H> {
    User(H),
    Docs(PageModel),
}

impl<H> View for Served<H> {
    type V = ServedModel<H>;

    open spec fn view(&self) -> ServedModel<H> {
        match self {
            Served::User(h) => ServedModel::User(*h),
            Served::Docs(page) => ServedModel::Docs(page@),
        }
    }
}

/// A handler inside its layers.
pub type Handler<H, L> = Chain<Layer<L>, Served<H>>;

/// A mounted route, as a value.
#[verifier::ext_equal]
pub struct Mounted<H, L> {
    pub method: Seq<char>,
    pub path: Seq<char>,
    pub layers: Seq<Layer<L>>,
    pub handler: ServedModel<H>,
}

/// The layers round a handler, outermost first. Global layers wrap per-router
/// layers, which wrap the handler.
pub open spec fn stacked<L>(guard: bool, global: Seq<L>, own: Seq<L>) -> Seq<Layer<L>> {
    let guards: Seq<Layer<L>> = if guard {
        seq![Layer::CatchPanic]
    } else {
        Seq::empty()
    };
    guards + (global + own).map_values(|l: L| Layer::User(l))
}

impl<H, L, V> AppModel<H, L, V> {
    /// A mounted route of a group.
    pub open spec fn mounted(self, e: group::EntryModel<H, L>) -> Mounted<H, L> {
        Mounted {
            method: e.method,
            path: e.path,
            layers: stacked(self.catch_panics, self.router.middleware, e.middleware),
            handler: ServedModel::User(e.handler),
        }
    }

    /// A mounted documentation endpoint.
    pub open spec fn mounted_page(self, r: DocsRoute) -> Mounted<H, L> {
        Mounted {
            method: "GET"@,
            path: r.path,
            layers: stacked(self.catch_panics, self.router.middleware, Seq::empty()),
            handler: ServedModel::Docs(r.page),
        }
    }

    /// The documentation endpoints, given the bytes of the document.
    pub open spec fn pages(self, document: Seq<u8>) -> Seq<DocsRoute> {
        match self.docs {
            Some(d) => d.routes(self.info.title, document),
            None => Seq::empty(),
        }
    }

    /// Everything that is mounted: the routes, then the documentation.
    pub open spec fn mounts(self, document: Seq<u8>) -> Seq<Mounted<H, L>> {
        self.router.routes.map_values(|e: group::EntryModel<H, L>| self.mounted(e)) + self.pages(
            document,
        ).map_values(|r: DocsRoute| self.mounted_page(r))
    }
}

/// The routes of a list of mounts.
pub open spec fn routes_of<H, L>(mounts: Seq<Mounted<H, L>>) -> Seq<Route> {
    mounts.map_values(|m: Mounted<H, L>| Route { method: m.method, path: m.path })
}

/// Whether a route definition is one that was to be mounted.
pub open spec fn carries<H, L>(def: RouteDef<Handler<H, L>>, m: Mounted<H, L>) -> bool {
    &&& def.method@ == m.method
    &&& def.path@ == m.path
    &&& serves(def.handler, m)
}

/// Whether a handler is the one that was to be mounted.
pub open spec fn serves<H, L>(handler: Handler<H, L>, m: Mounted<H, L>) -> bool {
    &&& handler.layers() == m.layers
    &&& handler.handler()@ == m.handler
}

/// Stacks the layers of a route.
fn stack<L: Copy>(guard: bool, global: &Vec<L>, own: &Vec<L>) -> (out: Vec<Layer<L>>)
    ensures
        out@ == stacked(guard, global@, own@),
{
    let mut out: Vec<Layer<L>> = Vec::new();
    if guard {
        out.push(Layer::CatchPanic);
    }
    let ghost guards = out@;
    let ghost users = (global@ + own@).map_values(|l: L| Layer::User(l));
    assert(guards =~= if guard {
        seq![Layer::<L>::CatchPanic]
    } else {
        Seq::empty()
    });
    assert(guards + users.take(0) =~= guards);
    for i in 0..global.len()
        invariant
            users == (global@ + own@).map_values(|l: L| Layer::User(l)),
            out@ == guards + users.take(i as int),
    {
        out.push(Layer::User(global[i]));
        assert(users.take(i + 1) =~= users.take(i as int).push(users[i as int]));
        assert(out@ =~= guards + users.take(i + 1));
    }
    let ghost n = global@.len() as int;
    for i in 0..own.len()
        invariant
            users == (global@ + own@).map_values(|l: L| Layer::User(l)),
            n == global@.len(),
            out@ == guards + users.take(n + i),
    {
        out.push(Layer::User(own[i]));
        assert(users.take(n + i + 1) =~= users.take(n + i).push(users[n + i]));
        assert(out@ =~= guards + users.take(n + i + 1));
    }
    assert(users.take(n + own@.len()) =~= users);
    out
}

// ---------------------------------------------------------------------------
// building
// ---------------------------------------------------------------------------

/// A built application, ready to serve.
pub struct Service<H, L, V> {
    pub table: RouteTable<Handler<H, L>>,
    pub state: StateMap<V>,
    pub body_limit: usize,
    pub document: OpenApi,
}

impl<H, L, V> Service<H, L, V> {
    /// The service's invariant.
    pub open spec fn wf(&self) -> bool {
        self.table.wf()
    }

    /// Whether these are the mounts of the service, in order.
    pub open spec fn mounts(&self, list: Seq<Mounted<H, L>>) -> bool {
        &&& self.table.routes() == routes_of(list)
        &&& self.table.handlers().len() == list.len()
        &&& forall|i: int|
            0 <= i < list.len() ==> serves(#[trigger] self.table.handlers()[i], list[i])
    }
}

impl<H: Describe, L: Copy, V> App<H, L, V> {
    /// Compiles the routing table and documentation endpoints, given what came
    /// of writing out the document.
    pub fn build(self, written: Result<Vec<u8>, String>) -> (r: Result<
        Service<H, L, V>,
        RouteConflict,
    >)
        ensures
            ({
                let mounts = self@.mounts(docs::payload(written));
                let routes = routes_of(mounts);
                &&& r is Ok <==> router::coexist(routes, routes.len() as int)
                &&& match r {
                    Ok(service) => {
                        &&& service.wf()
                        &&& service.mounts(mounts)
                        &&& service.state@ == self@.state
                        &&& service.body_limit == self@.body_limit
                        &&& service.document@ == self@.document()
                    },
                    Err(e) => exists|k: int|
                        {
                            &&& 0 <= k < routes.len()
                            &&& router::coexist(routes, k)
                            &&& #[trigger] router::explains(
                                routes.take(k),
                                routes[k].method,
                                routes[k].path,
                                e,
                            )
                        },
                }
            }),
    {
        let document = self.openapi();
        let ghost app = self@;
        let ghost mounts = app.mounts(docs::payload(written));
        let ghost entries = app.router.routes;
        let ghost pages = app.pages(docs::payload(written));
        let App { router, state, docs, body_limit, catch_panics, info, .. } = self;
        let group::Router { routes, middleware } = router;
        let mut defs: Vec<RouteDef<Handler<H, L>>> = Vec::new();
        let ghost given = routes@;
        for entry in it: routes
            invariant
                it.seq() == given,
                entries == group::entry_models(given),
                entries == app.router.routes,
                middleware@ == app.router.middleware,
                catch_panics == app.catch_panics,
                defs@.len() == it.index(),
                forall|j: int|
                    0 <= j < defs@.len() ==> carries(#[trigger] defs@[j], app.mounted(entries[j])),
        {
            let ghost k = it.index() as int;
            assert(entries[k] == entry@);
            let layers = stack(catch_panics, &middleware, &entry.middleware);
            let RouteEntry { def, .. } = entry;
            let RouteDef { method, path, handler } = def;
            let chain = middleware::compose(Served::User(handler), layers);
            defs.push(RouteDef { method, path, handler: chain });
        }
        let mut mounted_pages: Vec<RouteDef<Page>> = Vec::new();
        if let Some(d) = docs {
            mounted_pages = d.routes(info.title.as_str(), written);
        }
        assert(docs::are_routes(mounted_pages@, pages));
        let ghost listed = mounted_pages@;
        let ghost n = entries.len() as int;
        for def in it: mounted_pages
            invariant
                it.seq() == listed,
                docs::are_routes(listed, pages),
                n == entries.len(),
                middleware@ == app.router.middleware,
                catch_panics == app.catch_panics,
                defs@.len() == n + it.index(),
                forall|j: int|
                    0 <= j < n ==> carries(#[trigger] defs@[j], app.mounted(entries[j])),
                forall|j: int|
                    n <= j < defs@.len() ==> carries(
                        #[trigger] defs@[j],
                        app.mounted_page(pages[j - n]),
                    ),
        {
            let ghost k = it.index() as int;
            assert(listed[k] == def);
            let own: Vec<L> = Vec::new();
            let layers = stack(catch_panics, &middleware, &own);
            let RouteDef { method, path, handler } = def;
            let chain = middleware::compose(Served::Docs(handler), layers);
            defs.push(RouteDef { method, path, handler: chain });
            assert(defs@[n + k] == defs@.last());
        }
        assert forall|j: int| 0 <= j < defs@.len() implies carries(#[trigger] defs@[j], mounts[j]) by {
            if j < n {
                assert(mounts[j] == app.mounted(entries[j]));
            } else {
                assert(mounts[j] == app.mounted_page(pages[j - n]));
            }
        }
        assert(router::declared(defs@) =~= routes_of(mounts));
        let ghost handlers = defs@.map_values(|d: RouteDef<Handler<H, L>>| d.handler);
        let ghost all = defs@;
        let table = match router::build(defs) {
            Ok(table) => table,
            Err(e) => {
                proof {
                    let routes = routes_of(mounts);
                    let k = choose|k: int|
                        {
                            &&& 0 <= k < all.len()
                            &&& router::coexist(routes, k)
                            &&& #[trigger] router::explains(
                                routes.take(k),
                                all[k].method@,
                                all[k].path@,
                                e,
                            )
                        };
                    assert(routes[k].method == all[k].method@ && routes[k].path == all[k].path@);
                }
                return Err(e);
            },
        };
        assert forall|i: int| 0 <= i < mounts.len() implies serves(
            #[trigger] table.handlers()[i],
            mounts[i],
        ) by {
            assert(table.handlers()[i] == all[i].handler);
        }
        Ok(Service { table, state, body_limit, document })
    }
}

// ---------------------------------------------------------------------------
// dispatching
// ---------------------------------------------------------------------------

/// The methods mounted at a path, in ascending order.
pub open spec fn allows(routes: Seq<Route>, path: Seq<char>, list: Seq<Seq<char>>) -> bool {
    &&& router::ascending(list)
    &&& forall|m: Seq<char>| #[trigger]
        list.contains(m) <==> router::mounted(routes, router::segments(path), m)
}

/// A response with the methods that would have been answered, where the list
/// can be a header value.
pub open spec fn with_allow<S>(reply: Reply<S>, allow: Seq<char>) -> Reply<S> {
    if headers::is_value(allow) {
        reply.with_header("allow"@, allow)
    } else {
        reply
    }
}

/// What is answered to a method that is not mounted where others are.
///
/// A bare `OPTIONS` is a capability query, not an error.
pub open spec fn refusal<S>(method: Seq<char>, allowed: Seq<Seq<char>>) -> Reply<S> {
    let allow = text::join(allowed, ", "@);
    if method == "OPTIONS"@ {
        with_allow(Reply::new(BodyModel::Empty).with_status(204), allow)
    } else {
        with_allow(
            Reply::problem(
                Problem::detailed(
                    405,
                    "`"@ + method + "` is not supported here; try "@ + allow + "."@,
                ),
            ),
            allow,
        )
    }
}

/// What is answered where nothing is mounted.
pub open spec fn absent<S>(method: Seq<char>, path: Seq<char>) -> Reply<S> {
    Reply::problem(Problem::detailed(404, "No route for `"@ + method + " "@ + path + "`."@))
}

/// What is answered to a body over the limit.
pub open spec fn oversized<S>(limit: nat) -> Reply<S> {
    Reply::problem(
        Problem::detailed(
            413,
            "The request body exceeds the "@ + text::decimal(limit) + "-byte limit."@,
        ),
    )
}

/// A request on its way to the handler of a route.
pub open spec fn routed(r: RequestModel, route: Route) -> RequestModel {
    RequestModel {
        params: router::captures(route.pattern(), router::segments(r.path)),
        matched_path: Some(route.path),
        ..r
    }
}

/// What becomes of a request.
pub enum Dispatch<'a, H, L, S> {
    /// The handler runs. With `drop_body`, the body of its response is dropped.
    Run { handler: &'a Handler<H, L>, request: Request, drop_body: bool },
    /// There is no handler for it.
    Answer(Response<S>),
}

/// Whether a route is mounted for a method at a path.
pub open spec fn takes(routes: Seq<Route>, path: Seq<char>, method: Seq<char>) -> bool {
    router::mounted(routes, router::segments(path), method)
}

/// Whether a `HEAD` is answered by the handler of `GET`.
pub open spec fn falls_back(routes: Seq<Route>, path: Seq<char>, method: Seq<char>) -> bool {
    method == "HEAD"@ && !takes(routes, path, "HEAD"@) && takes(routes, path, "GET"@)
}

/// Whether a request reaches the handler of the route that wins for a method,
/// with what that route captured.
pub open spec fn handled<H>(
    routes: Seq<Route>,
    handlers: Seq<H>,
    r: RequestModel,
    method: Seq<char>,
    handler: H,
    arriving: RequestModel,
) -> bool {
    exists|i: int|
        {
            &&& #[trigger] router::wins(routes, i, router::segments(r.path), method)
            &&& handler == handlers[i]
            &&& arriving == routed(r, routes[i])
        }
}

/// Whether a request has no handler, and this is what is answered: that nothing
/// is there, or which methods are.
pub open spec fn unhandled<S>(routes: Seq<Route>, r: RequestModel, reply: Reply<S>) -> bool {
    &&& !takes(routes, r.path, r.method)
    &&& !falls_back(routes, r.path, r.method)
    &&& exists|list: Seq<Seq<char>>|
        {
            &&& #[trigger] allows(routes, r.path, list)
            &&& reply == if list.len() == 0 {
                absent::<S>(r.method, r.path)
            } else {
                refusal::<S>(r.method, list)
            }
        }
}

fn put_allow<S>(response: &mut Response<S>, allow: &str)
    requires
        headers::has_room(old(response)@.headers),
    ensures
        final(response)@ == with_allow(old(response)@, allow@),
{
    proof {
        response::lemma_known_names();
    }
    response.set_header("allow", allow);
}

/// Answers a method that is not mounted where others are.
pub fn method_not_allowed<S>(method: &str, allowed: &Vec<String>) -> (r: Response<S>)
    ensures
        r@ == refusal::<S>(method@, text::views(allowed@)),
{
    let ghost list = text::views(allowed@);
    assert(list.skip(0) =~= list);
    let allow = text::join_text(allowed, 0, ", ");
    if text::same(method, "OPTIONS") {
        let mut r = Response::new(ResBody::Empty);
        r.status = 204;
        put_allow(&mut r, allow.as_str());
        return r;
    }
    let mut detail = "`".to_owned();
    detail.append(method);
    detail.append("` is not supported here; try ");
    detail.append(allow.as_str());
    detail.append(".");
    let error = ApiError::new(405).with_detail(detail.as_str());
    let mut r: Response<S> = error.into_response();
    put_allow(&mut r, allow.as_str());
    r
}

/// Answers a body over the limit.
pub fn too_large<S>(limit: usize) -> (r: Response<S>)
    ensures
        r@ == oversized::<S>(limit as nat),
{
    let mut detail = "The request body exceeds the ".to_owned();
    let digits = text::decimal_text(limit as u64);
    detail.append(digits.as_str());
    detail.append("-byte limit.");
    ApiError::payload_too_large(detail.as_str()).into_response()
}

/// Whether a body is refused before a byte of it is read: its declared length
/// is over the limit.
pub fn refused_unread(declared: Option<u64>, limit: usize) -> (r: bool)
    ensures
        r == match declared {
            Some(n) => n > limit,
            None => false,
        },
{
    match declared {
        Some(n) => n > limit as u64,
        None => false,
    }
}

impl<H, L, V> Service<H, L, V> {
    /// The document this service serves.
    pub fn openapi(&self) -> (document: &OpenApi)
        ensures
            *document == self.document,
    {
        &self.document
    }

    /// Every registered `(method, template)` pair.
    pub fn routes(&self) -> (list: &[(String, String)])
        ensures
            router::as_routes(list@) == self.table.routes(),
    {
        self.table.registered()
    }

    /// Finds the handler of an already-buffered request.
    pub fn dispatch<S>(&self, request: Request) -> (out: Dispatch<'_, H, L, S>)
        requires
            self.wf(),
        ensures
            match out {
                Dispatch::Run { handler, request: routed, drop_body } => {
                    &&& drop_body == falls_back(
                        self.table.routes(),
                        request@.path,
                        request@.method,
                    )
                    &&& handled(
                        self.table.routes(),
                        self.table.handlers(),
                        request@,
                        if drop_body {
                            "GET"@
                        } else {
                            request@.method
                        },
                        *handler,
                        routed@,
                    )
                },
                Dispatch::Answer(reply) => unhandled(self.table.routes(), request@, reply@),
            },
    {
        let mut request = request;
        let ghost r = request@;
        let ghost routes = self.table.routes();
        let path = request.path.clone();
        let method = request.method.clone();
        match self.table.find(path.as_str(), method.as_str()) {
            Match::Found { endpoint, params } => {
                let ghost i = choose|i: int|
                    {
                        &&& #[trigger] router::wins(
                            routes,
                            i,
                            router::segments(r.path),
                            r.method,
                        )
                        &&& endpoint.handler == self.table.handlers()[i]
                        &&& endpoint.method@ == r.method
                        &&& endpoint.matched_path@ == routes[i].path
                        &&& router::pairs(params@) == router::captures(
                            routes[i].pattern(),
                            router::segments(r.path),
                        )
                    };
                request.params = params;
                request.matched_path = Some(endpoint.matched_path.clone());
                assert(router::answers(routes, i, router::segments(r.path), r.method));
                assert(headers::pairs_model(params@) =~= router::pairs(params@));
                assert(request@ =~= routed(r, routes[i]));
                Dispatch::Run { handler: &endpoint.handler, request, drop_body: false }
            },
            Match::MethodNotAllowed(allowed) => {
                let ghost list = text::views(allowed@);
                assert(allows(routes, r.path, list));
                // A HEAD with no explicit route is answered by the GET handler
                // with the body dropped.
                if text::same(method.as_str(), "HEAD") && text::has_text(&allowed, "GET") {
                    if let Match::Found { endpoint, params } = self.table.find(
                        path.as_str(),
                        "GET",
                    ) {
                        let ghost i = choose|i: int|
                            {
                                &&& #[trigger] router::wins(
                                    routes,
                                    i,
                                    router::segments(r.path),
                                    "GET"@,
                                )
                                &&& endpoint.handler == self.table.handlers()[i]
                                &&& endpoint.method@ == "GET"@
                                &&& endpoint.matched_path@ == routes[i].path
                                &&& router::pairs(params@) == router::captures(
                                    routes[i].pattern(),
                                    router::segments(r.path),
                                )
                            };
                        request.params = params;
                        request.matched_path = Some(endpoint.matched_path.clone());
                        assert(headers::pairs_model(params@) =~= router::pairs(params@));
                        assert(request@ =~= routed(r, routes[i]));
                        assert(falls_back(routes, r.path, r.method));
                        assert(handled(
                            routes,
                            self.table.handlers(),
                            r,
                            "GET"@,
                            endpoint.handler,
                            request@,
                        ));
                        return Dispatch::Run {
                            handler: &endpoint.handler,
                            request,
                            drop_body: true,
                        };
                    }
                }
                let reply = method_not_allowed(method.as_str(), &allowed);
                assert(!falls_back(routes, r.path, r.method)) by {
                    assert(list.contains("GET"@) <==> takes(routes, r.path, "GET"@));
                }
                assert(list.len() > 0);
                assert(unhandled::<S>(routes, r, reply@));
                Dispatch::Answer(reply)
            },
            Match::NotFound => {
                let mut detail = "No route for `".to_owned();
                detail.append(method.as_str());
                detail.append(" ");
                detail.append(path.as_str());
                detail.append("`.");
                proof {
                    let list = Seq::<Seq<char>>::empty();
                    assert forall|m: Seq<char>| #[trigger]
                        list.contains(m) <==> router::mounted(
                            routes,
                            router::segments(r.path),
                            m,
                        ) by {}
                    assert(allows(routes, r.path, list));
                }
                Dispatch::Answer(ApiError::not_found(detail.as_str()).into_response())
            },
        }
    }
}

/// The response of a handler, with its body dropped where the request was a
/// `HEAD` that its `GET` answered.
pub fn settled<S>(response: Response<S>, drop_body: bool) -> (out: Response<S>)
    ensures
        out@ == if drop_body {
            (Reply { body: BodyModel::Empty, ..response@ })
        } else {
            response@
        },
{
    let mut out = response;
    if drop_body {
        out.body = ResBody::Empty;
    }
    out
}

// ---------------------------------------------------------------------------
// laws
// ---------------------------------------------------------------------------

/// There is one list of allowed methods for a path.
pub proof fn the_allow_list_is_unique(
    routes: Seq<Route>,
    path: Seq<char>,
    a: Seq<Seq<char>>,
    b: Seq<Seq<char>>,
)
    requires
        allows(routes, path, a),
        allows(routes, path, b),
    ensures
        a == b,
{
    lemma_ascending_unique(a, b);
}

proof fn lemma_ascending_unique(a: Seq<Seq<char>>, b: Seq<Seq<char>>)
    requires
        router::ascending(a),
        router::ascending(b),
        forall|m: Seq<char>| #[trigger] a.contains(m) <==> b.contains(m),
    ensures
        a == b,
    decreases a.len(),
{
    if a.len() == 0 {
        if b.len() > 0 {
            assert(b.contains(b[0]));
            assert(a.contains(b[0]));
        }
        assert(a =~= b);
    } else {
        assert(a.contains(a.last()));
        if b.len() == 0 {
            assert(b.contains(a.last()));
        }
        assert(b.contains(b.last()));
        assert(a.contains(b.last()));
        let i = choose|i: int| 0 <= i < b.len() && b[i] == a.last();
        let j = choose|j: int| 0 <= j < a.len() && a[j] == b.last();
        if a.last() != b.last() {
            assert(i < b.len() - 1 && j < a.len() - 1);
            assert(text::precedes(b[i], b[b.len() - 1]));
            assert(text::precedes(a[j], a[a.len() - 1]));
            text::precedes_is_a_strict_total_order(a.last(), b.last(), a.last());
            assert(false);
        }
        let x = a.drop_last();
        let y = b.drop_last();
        assert forall|m: Seq<char>| #[trigger] x.contains(m) <==> y.contains(m) by {
            lemma_front_contains(a, m);
            lemma_front_contains(b, m);
        }
        lemma_ascending_unique(x, y);
        assert(a =~= x.push(a.last()));
        assert(b =~= y.push(b.last()));
    }
}

/// All but the last of an ascending list: the list without its last.
proof fn lemma_front_contains(a: Seq<Seq<char>>, m: Seq<char>)
    requires
        a.len() > 0,
        router::ascending(a),
    ensures
        a.drop_last().contains(m) <==> a.contains(m) && m != a.last(),
{
    let x = a.drop_last();
    if x.contains(m) {
        let i = choose|i: int| 0 <= i < x.len() && x[i] == m;
        assert(a[i] == m);
        assert(text::precedes(a[i], a[a.len() - 1]));
        text::precedes_is_a_strict_total_order(m, a.last(), m);
    }
    if a.contains(m) && m != a.last() {
        let i = choose|i: int| 0 <= i < a.len() && a[i] == m;
        assert(x[i] == m);
    }
}

/// A `HEAD` without a route of its own reaches the handler that the same
/// request would reach as a `GET`, with the same captures.
pub proof fn a_head_reaches_the_handler_of_get<H>(
    routes: Seq<Route>,
    handlers: Seq<H>,
    head: RequestModel,
    reached: (H, RequestModel),
    expected: (H, RequestModel),
)
    requires
        falls_back(routes, head.path, head.method),
        handled(routes, handlers, head, "GET"@, reached.0, reached.1),
        handled(
            routes,
            handlers,
            (RequestModel { method: "GET"@, ..head }),
            "GET"@,
            expected.0,
            expected.1,
        ),
    ensures
        reached.0 == expected.0,
        reached.1 == (RequestModel { method: head.method, ..expected.1 }),
{
    let parts = router::segments(head.path);
    let get = RequestModel { method: "GET"@, ..head };
    let i = choose|i: int|
        {
            &&& #[trigger] router::wins(routes, i, parts, "GET"@)
            &&& reached.0 == handlers[i]
            &&& reached.1 == routed(head, routes[i])
        };
    let j = choose|j: int|
        {
            &&& #[trigger] router::wins(routes, j, parts, "GET"@)
            &&& expected.0 == handlers[j]
            &&& expected.1 == routed(get, routes[j])
        };
    router::the_winner_is_unique(routes, i, j, parts, "GET"@);
}

/// A refusal says in `Allow` which methods are mounted, and is an error unless
/// the methods were asked for.
pub proof fn a_refusal_names_the_methods<S>(method: Seq<char>, allowed: Seq<Seq<char>>)
    requires
        forall|i: int|
            0 <= i < text::join(allowed, ", "@).len() ==> 32 <= (#[trigger] text::join(
                allowed,
                ", "@,
            )[i]) as int && (text::join(allowed, ", "@)[i] as int) < 127,
    ensures
        headers::first(refusal::<S>(method, allowed).headers, "allow"@) == Some(
            text::join(allowed, ", "@),
        ),
        refusal::<S>(method, allowed).status == if method == "OPTIONS"@ {
            204u16
        } else {
            405u16
        },
{
    let allow = text::join(allowed, ", "@);
    headers::lemma_visible(allow);
    let before = if method == "OPTIONS"@ {
        Reply::<S>::new(BodyModel::Empty).with_status(204)
    } else {
        Reply::<S>::problem(
            Problem::detailed(
                405,
                "`"@ + method + "` is not supported here; try "@ + allow + "."@,
            ),
        )
    };
    headers::a_field_reads_back(before.headers, "allow"@, allow, "allow"@);
}

} // verus!
