//! Groups of routes.

use crate::app::naming;
use crate::router::RouteDef;
use crate::text;
use vstd::prelude::*;
use vstd::string::*;

verus! {

/// A route in a group, with the tags and layers it got there.
pub struct RouteEntry<H, L> {
    pub def: RouteDef<H>,
    pub tags: Vec<String>,
    pub middleware: Vec<L>,
}

/// A route in a group, as a value.
#[verifier::ext_equal]
pub struct EntryModel<H, L> {
    pub method: Seq<char>,
    pub path: Seq<char>,
    pub handler: H,
    pub tags: Seq<Seq<char>>,
    pub middleware: Seq<L>,
}

impl<H, L> View for RouteEntry<H, L> {
    type V = EntryModel<H, L>;

    open spec fn view(&self) -> EntryModel<H, L> {
        EntryModel {
            method: self.def.method@,
            path: self.def.path@,
            handler: self.def.handler,
            tags: text::views(self.tags@),
            middleware: self.middleware@,
        }
    }
}

/// A group of routes sharing a prefix, tags, and middleware.
///
/// Nesting composes all three, so an `/admin` router can carry its own auth
/// layer and have every operation inside it tagged accordingly without
/// repeating anything per route.
pub struct Router<H, L> {
    pub routes: Vec<RouteEntry<H, L>>,
    pub middleware: Vec<L>,
}

/// A group of routes, as a value.
#[verifier::ext_equal]
pub struct RouterModel<H, L> {
    pub routes: Seq<EntryModel<H, L>>,
    pub middleware: Seq<L>,
}

pub open spec fn entry_models<H, L>(list: Seq<RouteEntry<H, L>>) -> Seq<EntryModel<H, L>> {
    list.map_values(|e: RouteEntry<H, L>| e@)
}

impl<H, L> View for Router<H, L> {
    type V = RouterModel<H, L>;

    open spec fn view(&self) -> RouterModel<H, L> {
        RouterModel { routes: entry_models(self.routes@), middleware: self.middleware@ }
    }
}

/// A route that was just mounted: no tags, no layers.
pub open spec fn bare<H, L>(def: RouteDef<H>) -> EntryModel<H, L> {
    EntryModel {
        method: def.method@,
        path: def.path@,
        handler: def.handler,
        tags: Seq::empty(),
        middleware: Seq::empty(),
    }
}

/// Tags with one more, unless it is there.
pub open spec fn tagged(tags: Seq<Seq<char>>, tag: Seq<char>) -> Seq<Seq<char>> {
    if tags.contains(tag) {
        tags
    } else {
        tags.push(tag)
    }
}

impl<H, L> RouterModel<H, L> {
    pub open spec fn empty() -> RouterModel<H, L> {
        RouterModel { routes: Seq::empty(), middleware: Seq::empty() }
    }

    pub open spec fn mounting(self, routes: Seq<RouteDef<H>>) -> RouterModel<H, L> {
        RouterModel {
            routes: self.routes + routes.map_values(|def: RouteDef<H>| bare::<H, L>(def)),
            ..self
        }
    }

    pub open spec fn tagging(self, tag: Seq<char>) -> RouterModel<H, L> {
        RouterModel {
            routes: self.routes.map_values(
                |e: EntryModel<H, L>| EntryModel { tags: tagged(e.tags, tag), ..e },
            ),
            ..self
        }
    }

    /// Another group under a prefix. Its own layers sit inside this one's.
    pub open spec fn nesting(self, prefix: Seq<char>, other: RouterModel<H, L>) -> RouterModel<
        H,
        L,
    > {
        RouterModel {
            routes: self.routes + other.routes.map_values(
                |e: EntryModel<H, L>|
                    EntryModel {
                        path: naming::joined(prefix, e.path),
                        middleware: other.middleware + e.middleware,
                        ..e
                    },
            ),
            ..self
        }
    }
}

impl<H, L: Copy> Router<H, L> {
    pub fn new() -> (out: Self)
        ensures
            out@ == RouterModel::<H, L>::empty(),
    {
        let out = Router { routes: Vec::new(), middleware: Vec::new() };
        assert(out@ =~= RouterModel::<H, L>::empty());
        out
    }

    /// Adds routes.
    pub fn mount(self, routes: Vec<RouteDef<H>>) -> (out: Self)
        ensures
            out@ == self@.mounting(routes@),
    {
        let ghost start = self@;
        let ghost all = routes@;
        let ghost added = all.map_values(|def: RouteDef<H>| bare::<H, L>(def));
        let mut out = self;
        assert(start.routes + added.take(0) =~= start.routes);
        for def in it: routes
            invariant
                it.seq() == all,
                added == all.map_values(|def: RouteDef<H>| bare::<H, L>(def)),
                out@.routes == start.routes + added.take(it.index() as int),
                out@.middleware == start.middleware,
        {
            let ghost k = it.index() as int;
            let entry = RouteEntry { def, tags: Vec::new(), middleware: Vec::new() };
            assert(entry@ =~= bare::<H, L>(all[k]));
            let ghost before = out@.routes;
            out.routes.push(entry);
            assert(out@.routes =~= before.push(entry@));
            assert(out@.routes =~= start.routes + added.take(k + 1));
        }
        assert(added.take(added.len() as int) =~= added);
        out
    }

    /// Adds routes under a path prefix.
    pub fn mount_at(self, prefix: &str, routes: Vec<RouteDef<H>>) -> (out: Self)
        ensures
            out@ == self@.nesting(prefix@, RouterModel::<H, L>::empty().mounting(routes@)),
    {
        self.nest(prefix, Router::new().mount(routes))
    }

    /// Applies a middleware layer to every route added to this router,
    /// including ones nested inside it.
    pub fn layer(self, middleware: L) -> (out: Self)
        ensures
            out@ == (RouterModel { middleware: self@.middleware.push(middleware), ..self@ }),
    {
        let mut out = self;
        out.middleware.push(middleware);
        out
    }

    /// Tags every route currently in this router.
    pub fn tag(self, tag: &str) -> (out: Self)
        ensures
            out@ == self@.tagging(tag@),
    {
        let ghost start = self@;
        let mut out = self;
        let n: usize = out.routes.len();
        for i in 0..n
            invariant
                n == out.routes@.len(),
                n == start.routes.len(),
                out@.middleware == start.middleware,
                forall|j: int|
                    0 <= j < n ==> (#[trigger] out.routes@[j])@ == if j < i {
                        EntryModel { tags: tagged(start.routes[j].tags, tag@), ..start.routes[j] }
                    } else {
                        start.routes[j]
                    },
        {
            assert(out.routes@[i as int]@ == start.routes[i as int]);
            if !text::has_text(&out.routes[i].tags, tag) {
                let tag = tag.to_owned();
                proof {
                    text::lemma_views_push(out.routes@[i as int].tags@, tag);
                }
                out.routes[i].tags.push(tag);
            }
        }
        assert(out@.routes =~= start.tagging(tag@).routes);
        out
    }

    /// Mounts another router under `prefix`, inheriting its tags and layers.
    pub fn nest(self, prefix: &str, other: Router<H, L>) -> (out: Self)
        ensures
            out@ == self@.nesting(prefix@, other@),
    {
        let ghost start = self@;
        let ghost inner = other@;
        let ghost nested = start.nesting(prefix@, inner).routes;
        let mut out = self;
        let layers = other.middleware;
        let ghost given = other.routes@;
        let ghost added = inner.routes.map_values(
            |e: EntryModel<H, L>|
                EntryModel {
                    path: naming::joined(prefix@, e.path),
                    middleware: inner.middleware + e.middleware,
                    ..e
                },
        );
        assert(start.routes + added.take(0) =~= start.routes);
        for entry in it: other.routes
            invariant
                it.seq() == given,
                inner.routes == entry_models(given),
                layers@ == inner.middleware,
                added == inner.routes.map_values(
                    |e: EntryModel<H, L>|
                        EntryModel {
                            path: naming::joined(prefix@, e.path),
                            middleware: inner.middleware + e.middleware,
                            ..e
                        },
                ),
                out@.routes == start.routes + added.take(it.index() as int),
                out@.middleware == start.middleware,
        {
            let ghost k = it.index() as int;
            assert(inner.routes[k] == entry@);
            let mut entry = entry;
            let ghost before_entry = entry@;
            entry.def.path = naming::join_path(prefix, entry.def.path.as_str());
            entry.middleware = layered(&layers, &entry.middleware);
            assert(entry@ =~= added[k]);
            let ghost before = out@.routes;
            out.routes.push(entry);
            assert(out@.routes =~= before.push(entry@));
            assert(out@.routes =~= start.routes + added.take(k + 1));
        }
        assert(added.take(added.len() as int) =~= added);
        out
    }

    pub fn is_empty(&self) -> (r: bool)
        ensures
            r == (self@.routes.len() == 0),
    {
        self.routes.len() == 0
    }

    pub fn len(&self) -> (n: usize)
        ensures
            n == self@.routes.len(),
    {
        self.routes.len()
    }
}

/// The layers of one list, then those of another.
pub fn layered<L: Copy>(outer: &Vec<L>, inner: &Vec<L>) -> (out: Vec<L>)
    ensures
        out@ == outer@ + inner@,
{
    let mut out: Vec<L> = Vec::new();
    for i in 0..outer.len()
        invariant
            out@ == outer@.take(i as int),
    {
        out.push(outer[i]);
        assert(out@ =~= outer@.take(i + 1));
    }
    assert(outer@.take(outer@.len() as int) =~= outer@);
    assert(outer@ + inner@.take(0) =~= outer@);
    for i in 0..inner.len()
        invariant
            out@ == outer@ + inner@.take(i as int),
    {
        out.push(inner[i]);
        assert(out@ =~= outer@ + inner@.take(i + 1));
    }
    assert(inner@.take(inner@.len() as int) =~= inner@);
    out
}

/// Tagging twice with the same tag is tagging once.
pub proof fn tagging_is_idempotent<H, L>(router: RouterModel<H, L>, tag: Seq<char>)
    ensures
        router.tagging(tag).tagging(tag) == router.tagging(tag),
{
    let once = router.tagging(tag);
    assert forall|i: int| 0 <= i < once.routes.len() implies once.tagging(tag).routes[i]
        == once.routes[i] by {
        let tags = router.routes[i].tags;
        if !tags.contains(tag) {
            assert(tags.push(tag)[tags.len() as int] == tag);
        }
        assert(once.routes[i].tags.contains(tag));
    }
    assert(once.tagging(tag).routes =~= once.routes);
}

/// Nesting twice composes prefixes and layers, the outer before the inner, and
/// keeps the tags.
pub proof fn nesting_composes<H, L>(
    outer: RouterModel<H, L>,
    middle: RouterModel<H, L>,
    inner: RouterModel<H, L>,
    a: Seq<char>,
    b: Seq<char>,
    i: int,
)
    requires
        0 <= i < inner.routes.len(),
    ensures
        outer.nesting(a, middle.nesting(b, inner)).routes[outer.routes.len()
            + middle.routes.len() + i] == (EntryModel {
            path: naming::joined(a, naming::joined(b, inner.routes[i].path)),
            middleware: middle.middleware + inner.middleware + inner.routes[i].middleware,
            ..inner.routes[i]
        }),
{
    let nested = middle.nesting(b, inner);
    let at = middle.routes.len() + i;
    let twice = outer.nesting(a, nested).routes[outer.routes.len() + at];
    assert(nested.routes[at].middleware == inner.middleware + inner.routes[i].middleware);
    assert(twice.middleware == middle.middleware + nested.routes[at].middleware);
    assert(twice.middleware =~= middle.middleware + inner.middleware + inner.routes[i].middleware);
}

} // verus!
