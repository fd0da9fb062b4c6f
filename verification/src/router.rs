//! Path matching.
//!
//! A segment trie with backtracking: static segments beat parameters, and
//! parameters beat catch-alls, at every level rather than only at the first
//! divergence. That ordering is what makes `/files/latest` reachable when
//! `/files/{*path}` is also registered.

use crate::percent;
use crate::text;
use vstd::prelude::*;
use vstd::string::*;

verus! {

/// A route before it is mounted: what to call for a method and a template.
pub struct RouteDef<H> {
    pub method: String,
    pub path: String,
    pub handler: H,
}

impl<H> RouteDef<H> {
    /// A route without documentation attached.
    pub fn raw(method: &str, path: &str, handler: H) -> (route: Self)
        ensures
            route.method@ == method@,
            route.path@ == path@,
            route.handler == handler,
    {
        RouteDef { method: method.to_owned(), path: path.to_owned(), handler }
    }
}

/// A mounted endpoint: the handler plus its template.
pub struct Endpoint<H> {
    pub handler: H,
    pub matched_path: String,
    pub method: String,
}

/// The captured parameters of a request, in template order.
pub type PathParams = Vec<(String, String)>;

/// The outcome of matching a request line.
pub enum Match<'a, H> {
    /// A handler was found.
    Found { endpoint: &'a Endpoint<H>, params: PathParams },
    /// The path exists but not for this method; carries the `Allow` list.
    MethodNotAllowed(Vec<String>),
    /// Nothing matched.
    NotFound,
}

/// Raised when two routes cannot coexist.
pub enum RouteConflict {
    /// The same method and template registered twice.
    Duplicate { method: String, path: String },
    /// Two different parameter names at the same position, e.g. `/a/{id}` and
    /// `/a/{name}`. Allowing this would make the captured name depend on
    /// registration order.
    ParameterName { path: String, existing: String, incoming: String },
    /// A catch-all that is not the final segment.
    TrailingWildcard { path: String },
}

// ---------------------------------------------------------------------------
// The model: templates as sequences of segments, a table as a sequence of routes
// ---------------------------------------------------------------------------

/// A template segment.
pub enum Segment {
    /// Matches itself.
    Static(String),
    /// `{name}` matches exactly one segment.
    Param(String),
    /// `{*name}` matches the remainder of the path.
    Wildcard(String),
}

/// A template segment, as a value.
pub enum Seg {
    Static(Seq<char>),
    Param(Seq<char>),
    Wildcard(Seq<char>),
}

impl View for Segment {
    type V = Seg;

    open spec fn view(&self) -> Seg {
        match self {
            Segment::Static(s) => Seg::Static(s@),
            Segment::Param(s) => Seg::Param(s@),
            Segment::Wildcard(s) => Seg::Wildcard(s@),
        }
    }
}

/// A registered route, as a value.
pub struct Route {
    pub method: Seq<char>,
    pub path: Seq<char>,
}

impl Route {
    /// The route's template, segment by segment.
    pub open spec fn pattern(self) -> Seq<Seg> {
        template(self.path)
    }
}

/// The non-empty segments of a path, so `/a/b`, `/a/b/`, and `//a//b` all route
/// identically.
pub open spec fn segments(path: Seq<char>) -> Seq<Seq<char>> {
    text::non_empty(text::split(path, '/'))
}

/// What one raw template segment stands for.
pub open spec fn segment(raw: Seq<char>) -> Seg {
    if raw.len() >= 2 && raw.first() == '{' && raw.last() == '}' {
        let inner = raw.subrange(1, raw.len() - 1);
        if inner.len() > 0 && inner[0] == '*' {
            Seg::Wildcard(inner.skip(1))
        } else {
            Seg::Param(inner)
        }
    } else {
        Seg::Static(raw)
    }
}

/// A template as a sequence of segments.
pub open spec fn template(path: Seq<char>) -> Seq<Seg> {
    segments(path).map_values(|raw: Seq<char>| segment(raw))
}

/// Whether a template segment accepts one raw path segment.
pub open spec fn accepts(seg: Seg, part: Seq<char>) -> bool {
    match seg {
        Seg::Static(s) => s == part,
        Seg::Param(_) => true,
        Seg::Wildcard(_) => false,
    }
}

/// Whether the first segments of a path are accepted, one for one.
pub open spec fn accepts_all(pattern: Seq<Seg>, parts: Seq<Seq<char>>) -> bool {
    &&& pattern.len() <= parts.len()
    &&& forall|k: int| 0 <= k < pattern.len() ==> accepts(#[trigger] pattern[k], parts[k])
}

/// Whether a template matches a path: segment for segment, with a final
/// catch-all taking whatever is left, even nothing.
pub open spec fn matches_path(pattern: Seq<Seg>, parts: Seq<Seq<char>>) -> bool {
    if pattern.len() > 0 && pattern.last() is Wildcard {
        accepts_all(pattern.drop_last(), parts)
    } else {
        pattern.len() == parts.len() && accepts_all(pattern, parts)
    }
}

/// Static segments come before parameters, and parameters before catch-alls.
pub open spec fn rank(seg: Seg) -> int {
    match seg {
        Seg::Static(_) => 0,
        Seg::Param(_) => 1,
        Seg::Wildcard(_) => 2,
    }
}

/// Whether template `a` is preferred to `b`: where they first differ, `a` ends
/// or holds the segment of smaller rank.
pub open spec fn beats(a: Seq<Seg>, b: Seq<Seg>) -> bool {
    exists|k: int| #[trigger] beats_at(a, b, k)
}

pub open spec fn beats_at(a: Seq<Seg>, b: Seq<Seg>, k: int) -> bool {
    &&& 0 <= k <= a.len()
    &&& k < b.len()
    &&& a.take(k) == b.take(k)
    &&& k < a.len() ==> rank(a[k]) < rank(b[k])
}

/// What a template captures from a path, percent-decoded, in template order.
pub open spec fn captures(pattern: Seq<Seg>, parts: Seq<Seq<char>>) -> Seq<(Seq<char>, Seq<char>)>
    decreases pattern.len(),
{
    if pattern.len() == 0 {
        Seq::empty()
    } else {
        let before = captures(pattern.drop_last(), parts);
        let k = pattern.len() - 1;
        match pattern.last() {
            Seg::Static(_) => before,
            Seg::Param(name) => before.push((name, percent::unescaped(parts[k]))),
            Seg::Wildcard(name) => before.push(
                (name, percent::unescaped(text::join(parts.skip(k), seq!['/']))),
            ),
        }
    }
}

/// The parameters of a request as pairs of texts.
pub open spec fn pairs(params: Seq<(String, String)>) -> Seq<(Seq<char>, Seq<char>)> {
    params.map_values(|p: (String, String)| (p.0@, p.1@))
}

/// Route `i` answers `method` on a path with these segments.
pub open spec fn answers(
    routes: Seq<Route>,
    i: int,
    parts: Seq<Seq<char>>,
    method: Seq<char>,
) -> bool {
    &&& 0 <= i < routes.len()
    &&& routes[i].method == method
    &&& matches_path(routes[i].pattern(), parts)
}

/// Route `i` answers, and every other route that does is less specific.
pub open spec fn wins(
    routes: Seq<Route>,
    i: int,
    parts: Seq<Seq<char>>,
    method: Seq<char>,
) -> bool {
    &&& answers(routes, i, parts, method)
    &&& forall|j: int| j != i && #[trigger] answers(routes, j, parts, method) ==> beats(
        routes[i].pattern(),
        routes[j].pattern(),
    )
}

/// Some route of `method` is mounted at a path with these segments.
pub open spec fn mounted(routes: Seq<Route>, parts: Seq<Seq<char>>, method: Seq<char>) -> bool {
    exists|i: int| #[trigger] answers(routes, i, parts, method)
}

/// The name that a parameter or catch-all segment binds.
pub open spec fn bound_name(seg: Seg) -> Option<Seq<char>> {
    match seg {
        Seg::Static(_) => None,
        Seg::Param(name) => Some(name),
        Seg::Wildcard(name) => Some(name),
    }
}

/// Route `r` holds, after the same first `k` segments, a segment of the same
/// kind as `pattern[k]` under another name.
pub open spec fn renames(r: Route, pattern: Seq<Seg>, k: int) -> bool {
    &&& 0 <= k < pattern.len()
    &&& k < r.pattern().len()
    &&& r.pattern().take(k) == pattern.take(k)
    &&& rank(r.pattern()[k]) == rank(pattern[k])
    &&& bound_name(pattern[k]) is Some
    &&& r.pattern()[k] != pattern[k]
}

/// `pattern[k]` is a catch-all with something after it.
pub open spec fn misplaced(pattern: Seq<Seg>, k: int) -> bool {
    0 <= k < pattern.len() - 1 && pattern[k] is Wildcard
}

/// Some registered route binds another name at position `k`.
pub open spec fn renamed(routes: Seq<Route>, pattern: Seq<Seg>, k: int) -> bool {
    exists|i: int| 0 <= i < routes.len() && #[trigger] renames(routes[i], pattern, k)
}

/// Position `k` of a template cannot be added to the table.
pub open spec fn refused_at(routes: Seq<Route>, pattern: Seq<Seg>, k: int) -> bool {
    misplaced(pattern, k) || renamed(routes, pattern, k)
}

/// No position before `k` is refused.
pub open spec fn clear_before(routes: Seq<Route>, pattern: Seq<Seg>, k: int) -> bool {
    forall|j: int| 0 <= j < k ==> !#[trigger] refused_at(routes, pattern, j)
}

/// The same method is registered for the same template.
pub open spec fn registered_twice(routes: Seq<Route>, pattern: Seq<Seg>, method: Seq<char>) -> bool {
    exists|i: int|
        0 <= i < routes.len() && (#[trigger] routes[i]).method == method && routes[i].pattern()
            == pattern
}

/// Whether `err` is the refusal owed to a route: the first position that cannot
/// be added decides, and a repeated registration is found last.
pub open spec fn explains(
    routes: Seq<Route>,
    method: Seq<char>,
    path: Seq<char>,
    err: RouteConflict,
) -> bool {
    let pattern = template(path);
    match err {
        RouteConflict::TrailingWildcard { path: p } => {
            &&& p@ == path
            &&& exists|k: int| #[trigger]
                misplaced(pattern, k) && clear_before(routes, pattern, k)
        },
        RouteConflict::ParameterName { path: p, existing, incoming } => {
            &&& p@ == path
            &&& exists|k: int, i: int|
                {
                    &&& 0 <= i < routes.len()
                    &&& #[trigger] renames(routes[i], pattern, k)
                    &&& !misplaced(pattern, k)
                    &&& clear_before(routes, pattern, k)
                    &&& bound_name(pattern[k]) == Some(incoming@)
                    &&& bound_name(routes[i].pattern()[k]) == Some(existing@)
                }
        },
        RouteConflict::Duplicate { method: m, path: p } => {
            &&& m@ == method
            &&& p@ == path
            &&& clear_before(routes, pattern, pattern.len() as int)
            &&& registered_twice(routes, pattern, method)
        },
    }
}

/// Whether a route can be added to the table.
pub open spec fn admissible(routes: Seq<Route>, method: Seq<char>, path: Seq<char>) -> bool {
    &&& clear_before(routes, template(path), template(path).len() as int)
    &&& !registered_twice(routes, template(path), method)
}

// ---------------------------------------------------------------------------
// The trie
// ---------------------------------------------------------------------------

struct Node {
    statics: Vec<(String, Node)>,
    param: Option<Box<ParamNode>>,
    wildcard: Option<Box<WildcardNode>>,
    methods: Vec<(String, usize)>,
}

struct ParamNode {
    name: String,
    node: Node,
}

struct WildcardNode {
    name: String,
    methods: Vec<(String, usize)>,
}

/// `prefix` is where `r`'s template starts.
spec fn under(r: Route, prefix: Seq<Seg>) -> bool {
    prefix.len() <= r.pattern().len() && r.pattern().take(prefix.len() as int) == prefix
}

/// The method table of a node lists exactly the routes whose template is `at`.
spec fn methods_agree(methods: Seq<(String, usize)>, routes: Seq<Route>, at: Seq<Seg>) -> bool {
    &&& forall|k: int|
        0 <= k < methods.len() ==> {
            &&& (#[trigger] methods[k]).1 < routes.len()
            &&& routes[methods[k].1 as int].method == methods[k].0@
            &&& routes[methods[k].1 as int].pattern() == at
        }
    &&& forall|i: int|
        0 <= i < routes.len() && (#[trigger] routes[i]).pattern() == at ==> exists|k: int|
            0 <= k < methods.len() && (#[trigger] methods[k]).1 == i
}

spec fn has_key(statics: Seq<(String, Node)>, key: Seq<char>) -> bool {
    exists|k: int| 0 <= k < statics.len() && (#[trigger] statics[k]).0@ == key
}

/// A node reached by `prefix` has a place for the next segment of `r`.
spec fn covers(node: Node, r: Route, prefix: Seq<Seg>) -> bool {
    match r.pattern()[prefix.len() as int] {
        Seg::Static(s) => has_key(node.statics@, s),
        Seg::Param(n) => node.param is Some && node.param->0.name@ == n,
        Seg::Wildcard(n) => node.wildcard is Some && node.wildcard->0.name@ == n
            && r.pattern().len() == prefix.len() + 1,
    }
}

/// The trie below `node` holds exactly the routes whose templates start with
/// `prefix`.
spec fn agrees(node: Node, routes: Seq<Route>, prefix: Seq<Seg>) -> bool
    decreases node,
{
    &&& methods_agree(node.methods@, routes, prefix)
    &&& forall|i: int, j: int|
        0 <= i < j < node.statics@.len() ==> (#[trigger] node.statics@[i]).0@ != (
        #[trigger] node.statics@[j]).0@
    &&& forall|i: int|
        0 <= i < node.statics@.len() ==> agrees(
            (#[trigger] node.statics@[i]).1,
            routes,
            prefix.push(Seg::Static(node.statics@[i].0@)),
        )
    &&& forall|r: int|
        0 <= r < routes.len() && under(#[trigger] routes[r], prefix) && routes[r].pattern().len()
            > prefix.len() ==> covers(node, routes[r], prefix)
    &&& match node.param {
        None => true,
        Some(p) => {
            &&& agrees(p.node, routes, prefix.push(Seg::Param(p.name@)))
            &&& exists|r: int|
                0 <= r < routes.len() && under(
                    #[trigger] routes[r],
                    prefix.push(Seg::Param(p.name@)),
                )
        },
    }
    &&& match node.wildcard {
        None => true,
        Some(w) => {
            &&& methods_agree(w.methods@, routes, prefix.push(Seg::Wildcard(w.name@)))
            &&& w.methods@.len() > 0
        },
    }
}

/// No two routes have the same method and template.
spec fn no_repeats(routes: Seq<Route>) -> bool {
    forall|i: int, j: int|
        0 <= i < j < routes.len() ==> !((#[trigger] routes[i]).method == (
        #[trigger] routes[j]).method && routes[i].pattern() == routes[j].pattern())
}

/// The texts are in ascending order, each once.
pub open spec fn ascending(list: Seq<Seq<char>>) -> bool {
    forall|i: int, j: int|
        0 <= i < j < list.len() ==> text::precedes(#[trigger] list[i], #[trigger] list[j])
}

proof fn lemma_push_under(r: Route, prefix: Seq<Seg>)
    requires
        under(r, prefix),
        r.pattern().len() > prefix.len(),
    ensures
        under(r, prefix.push(r.pattern()[prefix.len() as int])),
{
    let p = r.pattern();
    let n = prefix.len() as int;
    assert(p.take(n + 1) =~= p.take(n).push(p[n]));
}

proof fn lemma_under_push(r: Route, prefix: Seq<Seg>, seg: Seg)
    requires
        under(r, prefix.push(seg)),
    ensures
        under(r, prefix),
        r.pattern().len() > prefix.len(),
        r.pattern()[prefix.len() as int] == seg,
{
    let p = r.pattern();
    let n = prefix.len() as int;
    assert(p.take(n + 1)[n] == seg);
    assert(p.take(n) =~= p.take(n + 1).take(n));
    assert(prefix.push(seg).take(n) =~= prefix);
}

/// Where a route that answers can lie below a node.
proof fn lemma_next(
    node: Node,
    routes: Seq<Route>,
    prefix: Seq<Seg>,
    j: int,
    parts: Seq<Seq<char>>,
    method: Seq<char>,
)
    requires
        agrees(node, routes, prefix),
        prefix.len() <= parts.len(),
        accepts_all(prefix, parts),
        answers(routes, j, parts, method),
        under(routes[j], prefix),
    ensures
        prefix.len() == parts.len() ==> routes[j].pattern() == prefix || (node.wildcard is Some
            && routes[j].pattern() == prefix.push(Seg::Wildcard(node.wildcard->0.name@))),
        prefix.len() < parts.len() ==> {
            ||| has_key(node.statics@, parts[prefix.len() as int]) && under(
                routes[j],
                prefix.push(Seg::Static(parts[prefix.len() as int])),
            )
            ||| node.param is Some && under(
                routes[j],
                prefix.push(Seg::Param(node.param->0.name@)),
            )
            ||| node.wildcard is Some && routes[j].pattern() == prefix.push(
                Seg::Wildcard(node.wildcard->0.name@),
            )
        },
{
    let p = routes[j].pattern();
    let n = prefix.len() as int;
    assert(p.take(n) == prefix);
    if p.len() == n {
        assert(p =~= prefix);
        if n < parts.len() {
            assert(p.last() is Wildcard);
            assert(accepts(prefix[n - 1], parts[n - 1]));
        }
    } else {
        lemma_push_under(routes[j], prefix);
        assert(covers(node, routes[j], prefix));
        match p[n] {
            Seg::Wildcard(_) => {
                assert(p =~= prefix.push(p[n]));
            },
            _ => {
                if p.last() is Wildcard {
                    assert(p.drop_last()[n] == p[n]);
                    assert(accepts(p.drop_last()[n], parts[n]));
                } else {
                    assert(accepts(p[n], parts[n]));
                }
            },
        }
    }
}

/// Of two templates with a common prefix, the one whose next segment has the
/// smaller rank, or that ends there, is preferred.
proof fn lemma_beats(a: Route, b: Route, prefix: Seq<Seg>)
    requires
        under(a, prefix),
        under(b, prefix),
        b.pattern().len() > prefix.len(),
        a.pattern().len() > prefix.len() ==> rank(a.pattern()[prefix.len() as int]) < rank(
            b.pattern()[prefix.len() as int],
        ),
    ensures
        beats(a.pattern(), b.pattern()),
{
    assert(beats_at(a.pattern(), b.pattern(), prefix.len() as int));
}

/// A path's segments, split at `/` with empty ones dropped.
pub fn path_segments(path: &str) -> (out: Vec<String>)
    ensures
        text::views(out@) == segments(path@),
{
    let pieces = text::split_text(path, '/');
    let mut out: Vec<String> = Vec::new();
    let ghost all = text::views(pieces@);
    assert(all.take(0) == Seq::<Seq<char>>::empty());
    assert(text::views(out@) == Seq::<Seq<char>>::empty());
    for i in 0..pieces.len()
        invariant
            all == text::views(pieces@),
            text::views(out@) == text::non_empty(all.take(i as int)),
    {
        assert(all.take(i + 1).drop_last() == all.take(i as int));
        assert(all[i as int] == pieces@[i as int]@);
        if !pieces[i].as_str().is_empty() {
            let piece = pieces[i].clone();
            proof {
                text::lemma_views_push(out@, piece);
            }
            out.push(piece);
        }
    }
    assert(all.take(pieces@.len() as int) == all);
    out
}

/// Reads one raw template segment.
pub fn parse_segment(raw: &str) -> (seg: Segment)
    ensures
        seg@ == segment(raw@),
{
    let v = text::chars(raw);
    let n: usize = v.len();
    if n >= 2 && v[0] == '{' && v[n - 1] == '}' {
        let ghost inner = raw@.subrange(1, raw@.len() - 1);
        assert(inner.len() > 0 ==> inner[0] == raw@[1]);
        if n > 2 && v[1] == '*' {
            assert(inner.skip(1) == raw@.subrange(2, raw@.len() - 1));
            Segment::Wildcard(text::text_of(&v, 2, n - 1))
        } else {
            Segment::Param(text::text_of(&v, 1, n - 1))
        }
    } else {
        Segment::Static(raw.to_owned())
    }
}

/// The segments of a template, as values.
pub open spec fn seg_views(list: Seq<Segment>) -> Seq<Seg> {
    list.map_values(|s: Segment| s@)
}

/// Reads a template.
pub fn parse_template(path: &str) -> (out: Vec<Segment>)
    ensures
        seg_views(out@) == template(path@),
{
    let raw = path_segments(path);
    let mut out: Vec<Segment> = Vec::new();
    for i in 0..raw.len()
        invariant
            text::views(raw@) == segments(path@),
            out@.len() == i,
            forall|j: int| 0 <= j < i ==> (#[trigger] out@[j])@ == segment(raw@[j]@),
    {
        out.push(parse_segment(raw[i].as_str()));
    }
    assert(seg_views(out@) =~= template(path@)) by {
        assert(forall|j: int| 0 <= j < raw@.len() ==> text::views(raw@)[j] == raw@[j]@);
    }
    out
}

/// Looks a method up in a node's method table.
fn lookup_method(
    methods: &Vec<(String, usize)>,
    method: &str,
    Ghost(routes): Ghost<Seq<Route>>,
    Ghost(at): Ghost<Seq<Seg>>,
) -> (found: Option<usize>)
    requires
        methods_agree(methods@, routes, at),
    ensures
        match found {
            Some(i) => i < routes.len() && routes[i as int].method == method@
                && routes[i as int].pattern() == at,
            None => forall|i: int|
                0 <= i < routes.len() && (#[trigger] routes[i]).pattern() == at
                    ==> routes[i].method != method@,
        },
{
    for k in 0..methods.len()
        invariant
            methods_agree(methods@, routes, at),
            forall|j: int| 0 <= j < k ==> (#[trigger] methods@[j]).0@ != method@,
    {
        if text::same(methods[k].0.as_str(), method) {
            return Some(methods[k].1);
        }
    }
    None
}

/// Finds the child for a static segment.
fn lookup_static(statics: &Vec<(String, Node)>, key: &str) -> (found: Option<usize>)
    ensures
        match found {
            Some(k) => k < statics@.len() && statics@[k as int].0@ == key@,
            None => !has_key(statics@, key@),
        },
{
    for k in 0..statics.len()
        invariant
            forall|j: int| 0 <= j < k ==> (#[trigger] statics@[j]).0@ != key@,
    {
        if text::same(statics[k].0.as_str(), key) {
            return Some(k);
        }
    }
    None
}

proof fn lemma_pairs_push(params: Seq<(String, String)>, p: (String, String))
    ensures
        pairs(params.push(p)) == pairs(params).push((p.0@, p.1@)),
{
    assert(pairs(params.push(p)) =~= pairs(params).push((p.0@, p.1@)));
}

/// Finds a matching endpoint, filling `params` along the way.
#[verifier::rlimit(40)]
fn find_endpoint(
    node: &Node,
    parts: &Vec<String>,
    index: usize,
    method: &str,
    params: &mut PathParams,
    Ghost(routes): Ghost<Seq<Route>>,
    Ghost(prefix): Ghost<Seq<Seg>>,
) -> (found: Option<usize>)
    requires
        agrees(*node, routes, prefix),
        no_repeats(routes),
        prefix.len() == index <= parts@.len(),
        accepts_all(prefix, text::views(parts@)),
        pairs(old(params)@) == captures(prefix, text::views(parts@)),
    ensures
        match found {
            Some(i) => {
                &&& answers(routes, i as int, text::views(parts@), method@)
                &&& under(routes[i as int], prefix)
                &&& pairs(final(params)@) == captures(
                    routes[i as int].pattern(),
                    text::views(parts@),
                )
                &&& forall|j: int|
                    j != i && #[trigger] answers(routes, j, text::views(parts@), method@) && under(
                        routes[j],
                        prefix,
                    ) ==> beats(routes[i as int].pattern(), routes[j].pattern())
            },
            None => {
                &&& final(params)@ == old(params)@
                &&& forall|j: int| #[trigger]
                    answers(routes, j, text::views(parts@), method@) ==> !under(routes[j], prefix)
            },
        },
    decreases parts@.len() - index,
{
    let ghost views = text::views(parts@);
    proof {
        assert forall|j: int|
            prefix.len() == views.len() && #[trigger] answers(routes, j, views, method@) && under(
                routes[j],
                prefix,
            ) implies routes[j].pattern() == prefix || (node.wildcard is Some
            && routes[j].pattern() == prefix.push(Seg::Wildcard(node.wildcard->0.name@))) by {
            lemma_next(*node, routes, prefix, j, views, method@);
        }
    }
    if index == parts.len() {
        if let Some(i) = lookup_method(&node.methods, method, Ghost(routes), Ghost(prefix)) {
            assert(prefix.len() > 0 ==> accepts(prefix[prefix.len() - 1], views[prefix.len() - 1]));
            assert(routes[i as int].pattern().take(prefix.len() as int) =~= prefix);
            proof {
                assert forall|j: int|
                    j != i && #[trigger] answers(routes, j, views, method@) && under(
                        routes[j],
                        prefix,
                    ) implies beats(routes[i as int].pattern(), routes[j].pattern()) by {
                    if routes[j].pattern() != prefix {
                        lemma_beats(routes[i as int], routes[j], prefix);
                    }
                }
            }
            return Some(i);
        }
        // An empty tail can still satisfy a catch-all: `/files/{*path}` matches
        // `/files`.
        if let Some(wildcard) = &node.wildcard {
            let ghost at = prefix.push(Seg::Wildcard(wildcard.name@));
            if let Some(i) = lookup_method(&wildcard.methods, method, Ghost(routes), Ghost(at)) {
                let pair = (wildcard.name.clone(), String::new());
                proof {
                    lemma_pairs_push(params@, pair);
                    assert(at.drop_last() =~= prefix);
                    assert(at.take(prefix.len() as int) =~= prefix);
                    assert(views.skip(index as int) =~= Seq::<Seq<char>>::empty());
                    percent::text_without_percent_is_unescaped(Seq::<char>::empty());
                }
                params.push(pair);
                return Some(i);
            }
        }
        return None;
    }
    let segment = &parts[index];
    assert(views[index as int] == segment@);
    proof {
        assert forall|j: int|
            #[trigger] answers(routes, j, views, method@) && under(routes[j], prefix) implies {
            ||| has_key(node.statics@, segment@) && under(
                routes[j],
                prefix.push(Seg::Static(segment@)),
            )
            ||| node.param is Some && under(
                routes[j],
                prefix.push(Seg::Param(node.param->0.name@)),
            )
            ||| node.wildcard is Some && routes[j].pattern() == prefix.push(
                Seg::Wildcard(node.wildcard->0.name@),
            )
        } by {
            lemma_next(*node, routes, prefix, j, views, method@);
        }
    }
    if let Some(k) = lookup_static(&node.statics, segment.as_str()) {
        let ghost next = prefix.push(Seg::Static(segment@));
        proof {
            assert(next.drop_last() =~= prefix);
            assert(node.statics@[k as int].0@ == segment@);
            assert(agrees(node.statics@[k as int].1, routes, next));
            assert forall|q: int| 0 <= q < next.len() implies accepts(
                #[trigger] next[q],
                views[q],
            ) by {
                if q < prefix.len() {
                    assert(next[q] == prefix[q]);
                }
            }
        }
        let found = find_endpoint(
            &node.statics[k].1,
            parts,
            index + 1,
            method,
            params,
            Ghost(routes),
            Ghost(next),
        );
        if let Some(i) = found {
            proof {
                lemma_under_push(routes[i as int], prefix, Seg::Static(segment@));
                assert forall|j: int|
                    j != i && #[trigger] answers(routes, j, views, method@) && under(
                        routes[j],
                        prefix,
                    ) implies beats(routes[i as int].pattern(), routes[j].pattern()) by {
                    if !under(routes[j], next) {
                        if node.param is Some && under(
                            routes[j],
                            prefix.push(Seg::Param(node.param->0.name@)),
                        ) {
                            lemma_under_push(
                                routes[j],
                                prefix,
                                Seg::Param(node.param->0.name@),
                            );
                        }
                        lemma_beats(routes[i as int], routes[j], prefix);
                    }
                }
            }
            return found;
        }
    }
    if let Some(param) = &node.param {
        let ghost next = prefix.push(Seg::Param(param.name@));
        let checkpoint: usize = params.len();
        let ghost before = params@;
        let pair = (param.name.clone(), percent::decode_segment(segment.as_str()));
        proof {
            lemma_pairs_push(params@, pair);
            assert(next.drop_last() =~= prefix);
            assert forall|q: int| 0 <= q < next.len() implies accepts(
                #[trigger] next[q],
                views[q],
            ) by {
                if q < prefix.len() {
                    assert(next[q] == prefix[q]);
                }
            }
        }
        params.push(pair);
        let found = find_endpoint(
            &param.node,
            parts,
            index + 1,
            method,
            params,
            Ghost(routes),
            Ghost(next),
        );
        if let Some(i) = found {
            proof {
                lemma_under_push(routes[i as int], prefix, Seg::Param(param.name@));
                assert forall|j: int|
                    j != i && #[trigger] answers(routes, j, views, method@) && under(
                        routes[j],
                        prefix,
                    ) implies beats(routes[i as int].pattern(), routes[j].pattern()) by {
                    if !under(routes[j], next) {
                        lemma_beats(routes[i as int], routes[j], prefix);
                    }
                }
            }
            return found;
        }
        // Backtrack: this branch did not lead to a handler.
        params.truncate(checkpoint);
        assert(params@ =~= before);
    }
    if let Some(wildcard) = &node.wildcard {
        let ghost at = prefix.push(Seg::Wildcard(wildcard.name@));
        if let Some(i) = lookup_method(&wildcard.methods, method, Ghost(routes), Ghost(at)) {
            let rest = text::join_text(parts, index, "/");
            let pair = (wildcard.name.clone(), percent::decode_segment(rest.as_str()));
            proof {
                reveal_strlit("/");
                assert("/"@ =~= seq!['/']);
                lemma_pairs_push(params@, pair);
                assert(at.drop_last() =~= prefix);
                assert(at.take(prefix.len() as int) =~= prefix);
            }
            params.push(pair);
            return Some(i);
        }
    }
    None
}

/// Adds a method to an ascending list, unless it is there.
fn note(allowed: &mut Vec<String>, method: &str)
    requires
        ascending(text::views(old(allowed)@)),
    ensures
        ascending(text::views(final(allowed)@)),
        forall|m: Seq<char>|
            text::views(final(allowed)@).contains(m) <==> text::views(old(allowed)@).contains(m)
                || m == method@,
{
    let ghost before = text::views(allowed@);
    let mut k: usize = 0;
    while k < allowed.len() && text::less(allowed[k].as_str(), method)
        invariant
            k <= allowed@.len(),
            before == text::views(allowed@),
            ascending(before),
            forall|j: int| 0 <= j < k ==> text::precedes(#[trigger] before[j], method@),
        decreases allowed@.len() - k,
    {
        assert(before[k as int] == allowed@[k as int]@);
        k += 1;
    }
    if k < allowed.len() && text::same(allowed[k].as_str(), method) {
        assert(before[k as int] == method@);
        return;
    }
    let entry = method.to_owned();
    allowed.insert(k, entry);
    let ghost after = text::views(allowed@);
    proof {
        assert(after =~= before.insert(k as int, method@));
        if k < before.len() {
            assert(before[k as int] == before[k as int]);
            text::precedes_is_a_strict_total_order(before[k as int], method@, method@);
        }
        assert forall|i: int, j: int| 0 <= i < j < after.len() implies text::precedes(
            #[trigger] after[i],
            #[trigger] after[j],
        ) by {
            let x = if i < k { i } else { i - 1 };
            let y = if j < k { j } else { j - 1 };
            if i != k && j != k {
                assert(after[i] == before[x] && after[j] == before[y]);
            } else if j == k {
                assert(after[i] == before[i]);
            } else {
                assert(after[j] == before[j - 1]);
                if j - 1 > k {
                    text::precedes_is_a_strict_total_order(
                        method@,
                        before[k as int],
                        before[j - 1],
                    );
                }
            }
        }
        assert forall|m: Seq<char>| after.contains(m) <==> before.contains(m) || m == method@ by {
            if before.contains(m) {
                let i = choose|i: int| 0 <= i < before.len() && before[i] == m;
                if i < k {
                    assert(after[i] == m);
                } else {
                    assert(after[i + 1] == m);
                }
            }
            if m == method@ {
                assert(after[k as int] == m);
            }
            if after.contains(m) {
                let i = choose|i: int| 0 <= i < after.len() && after[i] == m;
                if i < k {
                    assert(before[i] == m);
                } else if i > k {
                    assert(before[i - 1] == m);
                }
            }
        }
    }
}

/// Some route below `prefix` answers `m` on this path.
spec fn offers(routes: Seq<Route>, prefix: Seq<Seg>, parts: Seq<Seq<char>>, m: Seq<char>) -> bool {
    exists|j: int| #[trigger] answers(routes, j, parts, m) && under(routes[j], prefix)
}

/// Some route with exactly this template has method `m`.
spec fn has_method(routes: Seq<Route>, at: Seq<Seg>, m: Seq<char>) -> bool {
    exists|j: int|
        0 <= j < routes.len() && (#[trigger] routes[j]).pattern() == at && routes[j].method == m
}

/// Adds the methods of a node other than `method`.
fn note_all(
    methods: &Vec<(String, usize)>,
    method: &str,
    allowed: &mut Vec<String>,
    Ghost(routes): Ghost<Seq<Route>>,
    Ghost(at): Ghost<Seq<Seg>>,
)
    requires
        methods_agree(methods@, routes, at),
        ascending(text::views(old(allowed)@)),
    ensures
        ascending(text::views(final(allowed)@)),
        forall|m: Seq<char>|
            #![trigger text::views(final(allowed)@).contains(m)]
            text::views(final(allowed)@).contains(m) <==> text::views(old(allowed)@).contains(m)
                || (m != method@ && has_method(routes, at, m)),
{
    let ghost before = text::views(allowed@);
    for k in 0..methods.len()
        invariant
            methods_agree(methods@, routes, at),
            before == text::views(old(allowed)@),
            ascending(text::views(allowed@)),
            forall|m: Seq<char>|
                #![trigger text::views(allowed@).contains(m)]
                text::views(allowed@).contains(m) <==> before.contains(m) || (m != method@
                    && exists|j: int| 0 <= j < k && (#[trigger] methods@[j]).0@ == m),
    {
        if !text::same(methods[k].0.as_str(), method) {
            note(allowed, methods[k].0.as_str());
        }
    }
    proof {
        assert forall|m: Seq<char>| has_method(routes, at, m) <==> exists|j: int|
            0 <= j < methods@.len() && (#[trigger] methods@[j]).0@ == m by {
            if has_method(routes, at, m) {
                let i = choose|i: int|
                    0 <= i < routes.len() && (#[trigger] routes[i]).pattern() == at
                        && routes[i].method == m;
                let k = choose|k: int| 0 <= k < methods@.len() && (#[trigger] methods@[k]).1 == i;
                assert(methods@[k].0@ == m);
            }
            if exists|j: int| 0 <= j < methods@.len() && (#[trigger] methods@[j]).0@ == m {
                let j = choose|j: int|
                    0 <= j < methods@.len() && (#[trigger] methods@[j]).0@ == m;
                assert(routes[methods@[j].1 as int].pattern() == at);
            }
        }
    }
}

/// Walks the trie ignoring the method, recording which methods are available
/// on any path that matches. Used to answer 405 rather than 404.
#[verifier::rlimit(40)]
fn walk(
    node: &Node,
    parts: &Vec<String>,
    index: usize,
    method: &str,
    allowed: &mut Vec<String>,
    Ghost(routes): Ghost<Seq<Route>>,
    Ghost(prefix): Ghost<Seq<Seg>>,
)
    requires
        agrees(*node, routes, prefix),
        prefix.len() == index <= parts@.len(),
        accepts_all(prefix, text::views(parts@)),
        ascending(text::views(old(allowed)@)),
    ensures
        ascending(text::views(final(allowed)@)),
        forall|m: Seq<char>|
            #![trigger text::views(final(allowed)@).contains(m)]
            text::views(final(allowed)@).contains(m) <==> text::views(old(allowed)@).contains(m)
                || (m != method@ && offers(routes, prefix, text::views(parts@), m)),
    decreases parts@.len() - index,
{
    let ghost views = text::views(parts@);
    let ghost n = prefix.len() as int;
    let ghost wild = prefix.push(Seg::Wildcard(node.wildcard->0.name@));
    proof {
        if node.wildcard is Some {
            assert(wild.drop_last() =~= prefix);
            assert(wild.take(n) =~= prefix);
        }
        assert(prefix.take(n) =~= prefix);
        if n > 0 {
            assert(accepts(prefix[n - 1], views[n - 1]));
        }
    }
    if index == parts.len() {
        note_all(&node.methods, method, allowed, Ghost(routes), Ghost(prefix));
        if let Some(wildcard) = &node.wildcard {
            note_all(&wildcard.methods, method, allowed, Ghost(routes), Ghost(wild));
        }
        proof {
            assert forall|m: Seq<char>| #[trigger] offers(routes, prefix, views, m) <==> has_method(
                routes,
                prefix,
                m,
            ) || (node.wildcard is Some && has_method(routes, wild, m)) by {
                if offers(routes, prefix, views, m) {
                    let j = choose|j: int| #[trigger]
                        answers(routes, j, views, m) && under(routes[j], prefix);
                    lemma_next(*node, routes, prefix, j, views, m);
                }
                if has_method(routes, prefix, m) {
                    let j = choose|j: int|
                        0 <= j < routes.len() && (#[trigger] routes[j]).pattern() == prefix
                            && routes[j].method == m;
                    assert(answers(routes, j, views, m));
                }
                if node.wildcard is Some && has_method(routes, wild, m) {
                    let j = choose|j: int|
                        0 <= j < routes.len() && (#[trigger] routes[j]).pattern() == wild
                            && routes[j].method == m;
                    assert(answers(routes, j, views, m));
                }
            }
        }
        return;
    }
    let segment = &parts[index];
    assert(views[index as int] == segment@);
    let ghost fixed = prefix.push(Seg::Static(segment@));
    let ghost bound = prefix.push(Seg::Param(node.param->0.name@));
    proof {
        assert forall|m: Seq<char>| #[trigger] offers(routes, prefix, views, m) <==> {
            ||| has_key(node.statics@, segment@) && offers(routes, fixed, views, m)
            ||| node.param is Some && offers(routes, bound, views, m)
            ||| node.wildcard is Some && has_method(routes, wild, m)
        } by {
            if offers(routes, prefix, views, m) {
                let j = choose|j: int| #[trigger]
                    answers(routes, j, views, m) && under(routes[j], prefix);
                lemma_next(*node, routes, prefix, j, views, m);
            }
            if offers(routes, fixed, views, m) {
                let j = choose|j: int| #[trigger]
                    answers(routes, j, views, m) && under(routes[j], fixed);
                lemma_under_push(routes[j], prefix, Seg::Static(segment@));
            }
            if node.param is Some && offers(routes, bound, views, m) {
                let j = choose|j: int| #[trigger]
                    answers(routes, j, views, m) && under(routes[j], bound);
                lemma_under_push(routes[j], prefix, Seg::Param(node.param->0.name@));
            }
            if node.wildcard is Some && has_method(routes, wild, m) {
                let j = choose|j: int|
                    0 <= j < routes.len() && (#[trigger] routes[j]).pattern() == wild
                        && routes[j].method == m;
                assert(answers(routes, j, views, m));
            }
        }
    }
    let ghost a0 = text::views(allowed@);
    if let Some(k) = lookup_static(&node.statics, segment.as_str()) {
        proof {
            assert(node.statics@[k as int].0@ == segment@);
            assert(agrees(node.statics@[k as int].1, routes, fixed));
            assert forall|q: int| 0 <= q < fixed.len() implies accepts(
                #[trigger] fixed[q],
                views[q],
            ) by {
                if q < prefix.len() {
                    assert(fixed[q] == prefix[q]);
                }
            }
        }
        walk(
            &node.statics[k].1,
            parts,
            index + 1,
            method,
            allowed,
            Ghost(routes),
            Ghost(fixed),
        );
    }
    let ghost a1 = text::views(allowed@);
    if let Some(param) = &node.param {
        proof {
            assert forall|q: int| 0 <= q < bound.len() implies accepts(
                #[trigger] bound[q],
                views[q],
            ) by {
                if q < prefix.len() {
                    assert(bound[q] == prefix[q]);
                }
            }
        }
        walk(&param.node, parts, index + 1, method, allowed, Ghost(routes), Ghost(bound));
    }
    let ghost a2 = text::views(allowed@);
    if let Some(wildcard) = &node.wildcard {
        note_all(&wildcard.methods, method, allowed, Ghost(routes), Ghost(wild));
    }
    proof {
        let a3 = text::views(allowed@);
        assert forall|m: Seq<char>| #[trigger] a3.contains(m) <==> a0.contains(m) || (m != method@
            && offers(routes, prefix, views, m)) by {
            assert(a1.contains(m) <==> a0.contains(m) || (m != method@ && has_key(
                node.statics@,
                segment@,
            ) && offers(routes, fixed, views, m)));
            assert(a2.contains(m) <==> a1.contains(m) || (m != method@ && node.param is Some
                && offers(routes, bound, views, m)));
            assert(a3.contains(m) <==> a2.contains(m) || (m != method@ && node.wildcard is Some
                && has_method(routes, wild, m)));
        }
    }
}

/// No registered route starts with `prefix`.
spec fn unused(routes: Seq<Route>, prefix: Seq<Seg>) -> bool {
    forall|i: int| 0 <= i < routes.len() ==> !under(#[trigger] routes[i], prefix)
}

/// Beyond an unused prefix nothing can be bound to another name.
proof fn lemma_unused_not_renamed(routes: Seq<Route>, pattern: Seq<Seg>, k: int, j: int)
    requires
        0 <= k <= j,
        k <= pattern.len(),
        unused(routes, pattern.take(k)),
    ensures
        !renamed(routes, pattern, j),
{
    if renamed(routes, pattern, j) {
        let i = choose|i: int| 0 <= i < routes.len() && #[trigger] renames(routes[i], pattern, j);
        let p = routes[i].pattern();
        assert(p.take(k) =~= p.take(j).take(k));
        assert(pattern.take(k) =~= pattern.take(j).take(k));
        assert(under(routes[i], pattern.take(k)));
    }
}

/// Looks for a misplaced catch-all beyond the part of the trie in use.
fn check_fresh(
    parts: &Vec<Segment>,
    from: usize,
    path: &str,
    Ghost(routes): Ghost<Seq<Route>>,
    Ghost(method): Ghost<Seq<char>>,
) -> (err: Option<RouteConflict>)
    requires
        from <= parts@.len(),
        seg_views(parts@) == template(path@),
        clear_before(routes, template(path@), from as int),
        unused(routes, template(path@).take(from as int)),
    ensures
        match err {
            Some(e) => explains(routes, method, path@, e),
            None => admissible(routes, method, path@),
        },
{
    let ghost pattern = template(path@);
    let mut k: usize = from;
    while k < parts.len()
        invariant
            from <= k <= parts@.len(),
            pattern == template(path@),
            seg_views(parts@) == pattern,
            clear_before(routes, pattern, k as int),
            unused(routes, pattern.take(from as int)),
        decreases parts@.len() - k,
    {
        proof {
            lemma_unused_not_renamed(routes, pattern, from as int, k as int);
            assert(pattern[k as int] == parts@[k as int]@);
        }
        if let Segment::Wildcard(_) = &parts[k] {
            if k + 1 < parts.len() {
                assert(misplaced(pattern, k as int));
                return Some(RouteConflict::TrailingWildcard { path: path.to_owned() });
            }
        }
        k += 1;
    }
    proof {
        if registered_twice(routes, pattern, method) {
            let i = choose|i: int|
                0 <= i < routes.len() && (#[trigger] routes[i]).method == method
                    && routes[i].pattern() == pattern;
            assert(under(routes[i], pattern.take(from as int)));
        }
    }
    None
}

proof fn lemma_not_renamed(
    node: Node,
    routes: Seq<Route>,
    pattern: Seq<Seg>,
    k: int,
)
    requires
        0 <= k < pattern.len(),
        agrees(node, routes, pattern.take(k)),
        match pattern[k] {
            Seg::Static(_) => true,
            Seg::Param(n) => node.param is Some ==> node.param->0.name@ == n,
            Seg::Wildcard(n) => node.wildcard is Some ==> node.wildcard->0.name@ == n,
        },
    ensures
        !renamed(routes, pattern, k),
{
    if renamed(routes, pattern, k) {
        let i = choose|i: int| 0 <= i < routes.len() && #[trigger] renames(routes[i], pattern, k);
        assert(under(routes[i], pattern.take(k)));
        assert(covers(node, routes[i], pattern.take(k)));
    }
}

proof fn lemma_unused_next(node: Node, routes: Seq<Route>, prefix: Seq<Seg>, seg: Seg)
    requires
        agrees(node, routes, prefix),
        match seg {
            Seg::Static(s) => !has_key(node.statics@, s),
            Seg::Param(_) => node.param is None,
            Seg::Wildcard(_) => node.wildcard is None,
        },
    ensures
        unused(routes, prefix.push(seg)),
{
    assert forall|i: int| 0 <= i < routes.len() implies !under(
        #[trigger] routes[i],
        prefix.push(seg),
    ) by {
        if under(routes[i], prefix.push(seg)) {
            lemma_under_push(routes[i], prefix, seg);
            assert(covers(node, routes[i], prefix));
        }
    }
}

/// Decides whether a route can be added below `node`.
#[verifier::rlimit(40)]
fn check(
    node: &Node,
    parts: &Vec<Segment>,
    k: usize,
    method: &str,
    path: &str,
    Ghost(routes): Ghost<Seq<Route>>,
) -> (err: Option<RouteConflict>)
    requires
        k <= parts@.len(),
        seg_views(parts@) == template(path@),
        clear_before(routes, template(path@), k as int),
        agrees(*node, routes, template(path@).take(k as int)),
    ensures
        match err {
            Some(e) => explains(routes, method@, path@, e),
            None => admissible(routes, method@, path@),
        },
    decreases parts@.len() - k,
{
    let ghost pattern = template(path@);
    let ghost prefix = pattern.take(k as int);
    if k == parts.len() {
        assert(prefix =~= pattern);
        if let Some(_) = lookup_method(&node.methods, method, Ghost(routes), Ghost(prefix)) {
            return Some(
                RouteConflict::Duplicate { method: method.to_owned(), path: path.to_owned() },
            );
        }
        return None;
    }
    assert(pattern[k as int] == parts@[k as int]@);
    assert(pattern.take(k + 1) =~= prefix.push(pattern[k as int]));
    match &parts[k] {
        Segment::Static(name) => {
            proof {
                lemma_not_renamed(*node, routes, pattern, k as int);
            }
            match lookup_static(&node.statics, name.as_str()) {
                Some(c) => {
                    assert(agrees(node.statics@[c as int].1, routes, pattern.take(k + 1)));
                    check(&node.statics[c].1, parts, k + 1, method, path, Ghost(routes))
                },
                None => {
                    proof {
                        lemma_unused_next(*node, routes, prefix, pattern[k as int]);
                    }
                    check_fresh(parts, k + 1, path, Ghost(routes), Ghost(method@))
                },
            }
        },
        Segment::Param(name) => match &node.param {
            Some(param) => {
                if !text::same(param.name.as_str(), name.as_str()) {
                    proof {
                        let i = choose|i: int|
                            0 <= i < routes.len() && under(
                                #[trigger] routes[i],
                                prefix.push(Seg::Param(param.name@)),
                            );
                        lemma_under_push(routes[i], prefix, Seg::Param(param.name@));
                        assert(renames(routes[i], pattern, k as int));
                    }
                    return Some(
                        RouteConflict::ParameterName {
                            path: path.to_owned(),
                            existing: param.name.clone(),
                            incoming: name.clone(),
                        },
                    );
                }
                proof {
                    lemma_not_renamed(*node, routes, pattern, k as int);
                }
                check(&param.node, parts, k + 1, method, path, Ghost(routes))
            },
            None => {
                proof {
                    lemma_not_renamed(*node, routes, pattern, k as int);
                    lemma_unused_next(*node, routes, prefix, pattern[k as int]);
                }
                check_fresh(parts, k + 1, path, Ghost(routes), Ghost(method@))
            },
        },
        Segment::Wildcard(name) => {
            if k + 1 < parts.len() {
                assert(misplaced(pattern, k as int));
                return Some(RouteConflict::TrailingWildcard { path: path.to_owned() });
            }
            assert(pattern.take(k + 1) =~= pattern);
            match &node.wildcard {
                Some(wildcard) => {
                    let ghost at = prefix.push(Seg::Wildcard(wildcard.name@));
                    if !text::same(wildcard.name.as_str(), name.as_str()) {
                        proof {
                            let i = wildcard.methods@[0].1 as int;
                            assert(at.take(k as int) =~= prefix);
                            assert(renames(routes[i], pattern, k as int));
                        }
                        return Some(
                            RouteConflict::ParameterName {
                                path: path.to_owned(),
                                existing: wildcard.name.clone(),
                                incoming: name.clone(),
                            },
                        );
                    }
                    proof {
                        lemma_not_renamed(*node, routes, pattern, k as int);
                    }
                    let found = lookup_method(
                        &wildcard.methods,
                        method,
                        Ghost(routes),
                        Ghost(at),
                    );
                    if let Some(_) = found {
                        return Some(
                            RouteConflict::Duplicate {
                                method: method.to_owned(),
                                path: path.to_owned(),
                            },
                        );
                    }
                    None
                },
                None => {
                    proof {
                        lemma_not_renamed(*node, routes, pattern, k as int);
                        lemma_unused_next(*node, routes, prefix, pattern[k as int]);
                    }
                    check_fresh(parts, k + 1, path, Ghost(routes), Ghost(method@))
                },
            }
        },
    }
}

/// A subtree that a new route does not enter stays as it was.
proof fn lemma_frame(node: Node, routes: Seq<Route>, new: Route, prefix: Seq<Seg>)
    requires
        agrees(node, routes, prefix),
        !under(new, prefix),
    ensures
        agrees(node, routes.push(new), prefix),
    decreases node,
{
    let more = routes.push(new);
    assert(prefix.take(prefix.len() as int) =~= prefix);
    lemma_frame_methods(node.methods@, routes, new, prefix);
    assert forall|i: int| 0 <= i < node.statics@.len() implies agrees(
        (#[trigger] node.statics@[i]).1,
        more,
        prefix.push(Seg::Static(node.statics@[i].0@)),
    ) by {
        let seg = Seg::Static(node.statics@[i].0@);
        if under(new, prefix.push(seg)) {
            lemma_under_push(new, prefix, seg);
        }
        lemma_frame(node.statics@[i].1, routes, new, prefix.push(seg));
    }
    assert forall|r: int|
        0 <= r < more.len() && under(#[trigger] more[r], prefix) && more[r].pattern().len()
            > prefix.len() implies covers(node, more[r], prefix) by {
        assert(more[r] == routes[r]);
    }
    if node.param is Some {
        let p = node.param->0;
        let seg = Seg::Param(p.name@);
        if under(new, prefix.push(seg)) {
            lemma_under_push(new, prefix, seg);
        }
        lemma_frame(p.node, routes, new, prefix.push(seg));
        let r = choose|r: int|
            0 <= r < routes.len() && under(#[trigger] routes[r], prefix.push(seg));
        assert(under(more[r], prefix.push(seg)));
    }
    if node.wildcard is Some {
        let w = node.wildcard->0;
        let seg = Seg::Wildcard(w.name@);
        if new.pattern() == prefix.push(seg) {
            assert(prefix.push(seg).take(prefix.len() as int + 1) =~= prefix.push(seg));
            lemma_under_push(new, prefix, seg);
        }
        lemma_frame_methods(w.methods@, routes, new, prefix.push(seg));
    }
}

proof fn lemma_frame_methods(
    methods: Seq<(String, usize)>,
    routes: Seq<Route>,
    new: Route,
    at: Seq<Seg>,
)
    requires
        methods_agree(methods, routes, at),
        new.pattern() != at,
    ensures
        methods_agree(methods, routes.push(new), at),
{
    let more = routes.push(new);
    assert forall|k: int| 0 <= k < methods.len() implies {
        &&& (#[trigger] methods[k]).1 < more.len()
        &&& more[methods[k].1 as int].method == methods[k].0@
        &&& more[methods[k].1 as int].pattern() == at
    } by {
        assert(more[methods[k].1 as int] == routes[methods[k].1 as int]);
    }
    assert forall|i: int| 0 <= i < more.len() && (#[trigger] more[i]).pattern() == at implies exists|
        k: int,
    |
        0 <= k < methods.len() && (#[trigger] methods[k]).1 == i by {
        assert(more[i] == routes[i]);
    }
}

proof fn lemma_push_methods(
    methods: Seq<(String, usize)>,
    routes: Seq<Route>,
    new: Route,
    entry: (String, usize),
    at: Seq<Seg>,
)
    requires
        methods_agree(methods, routes, at),
        new.pattern() == at,
        entry.0@ == new.method,
        entry.1 == routes.len(),
    ensures
        methods_agree(methods.push(entry), routes.push(new), at),
{
    let more = routes.push(new);
    let after = methods.push(entry);
    assert forall|k: int| 0 <= k < after.len() implies {
        &&& (#[trigger] after[k]).1 < more.len()
        &&& more[after[k].1 as int].method == after[k].0@
        &&& more[after[k].1 as int].pattern() == at
    } by {
        if k < methods.len() {
            assert(after[k] == methods[k]);
            assert(more[methods[k].1 as int] == routes[methods[k].1 as int]);
        }
    }
    assert forall|i: int| 0 <= i < more.len() && (#[trigger] more[i]).pattern() == at implies exists|
        k: int,
    |
        0 <= k < after.len() && (#[trigger] after[k]).1 == i by {
        if i < routes.len() {
            assert(more[i] == routes[i]);
            let k = choose|k: int| 0 <= k < methods.len() && (#[trigger] methods[k]).1 == i;
            assert(after[k] == methods[k]);
        } else {
            assert(after[methods.len() as int] == entry);
        }
    }
}

/// What the parts of a node that a new route does not enter still hold.
proof fn lemma_frame_parts(node: Node, routes: Seq<Route>, new: Route, prefix: Seq<Seg>)
    requires
        agrees(node, routes, prefix),
        under(new, prefix),
        new.pattern().len() > prefix.len(),
    ensures
        methods_agree(node.methods@, routes.push(new), prefix),
        forall|i: int|
            0 <= i < node.statics@.len() && Seg::Static((#[trigger] node.statics@[i]).0@)
                != new.pattern()[prefix.len() as int] ==> agrees(
                node.statics@[i].1,
                routes.push(new),
                prefix.push(Seg::Static(node.statics@[i].0@)),
            ),
        node.param is Some && Seg::Param(node.param->0.name@)
            != new.pattern()[prefix.len() as int] ==> agrees(
            node.param->0.node,
            routes.push(new),
            prefix.push(Seg::Param(node.param->0.name@)),
        ),
        node.param is Some ==> exists|r: int|
            0 <= r < routes.push(new).len() && under(
                #[trigger] routes.push(new)[r],
                prefix.push(Seg::Param(node.param->0.name@)),
            ),
        node.wildcard is Some && Seg::Wildcard(node.wildcard->0.name@)
            != new.pattern()[prefix.len() as int] ==> methods_agree(
            node.wildcard->0.methods@,
            routes.push(new),
            prefix.push(Seg::Wildcard(node.wildcard->0.name@)),
        ),
        forall|r: int|
            0 <= r < routes.len() && under(#[trigger] routes[r], prefix)
                && routes[r].pattern().len() > prefix.len() ==> covers(node, routes[r], prefix),
{
    let more = routes.push(new);
    let n = prefix.len() as int;
    lemma_frame_methods(node.methods@, routes, new, prefix);
    assert forall|i: int|
        0 <= i < node.statics@.len() && Seg::Static((#[trigger] node.statics@[i]).0@)
            != new.pattern()[n] implies agrees(
        node.statics@[i].1,
        more,
        prefix.push(Seg::Static(node.statics@[i].0@)),
    ) by {
        let seg = Seg::Static(node.statics@[i].0@);
        if under(new, prefix.push(seg)) {
            lemma_under_push(new, prefix, seg);
        }
        lemma_frame(node.statics@[i].1, routes, new, prefix.push(seg));
    }
    if node.param is Some {
        let p = node.param->0;
        let seg = Seg::Param(p.name@);
        let r = choose|r: int|
            0 <= r < routes.len() && under(#[trigger] routes[r], prefix.push(seg));
        assert(more[r] == routes[r]);
        if seg != new.pattern()[n] {
            if under(new, prefix.push(seg)) {
                lemma_under_push(new, prefix, seg);
            }
            lemma_frame(p.node, routes, new, prefix.push(seg));
        }
    }
    if node.wildcard is Some {
        let w = node.wildcard->0;
        let seg = Seg::Wildcard(w.name@);
        if seg != new.pattern()[n] {
            lemma_frame_methods(w.methods@, routes, new, prefix.push(seg));
        }
    }
}

impl Node {
    fn empty(Ghost(routes): Ghost<Seq<Route>>, Ghost(prefix): Ghost<Seq<Seg>>) -> (node: Self)
        requires
            unused(routes, prefix),
        ensures
            agrees(node, routes, prefix),
    {
        let node = Node {
            statics: Vec::new(),
            param: None,
            wildcard: None,
            methods: Vec::new(),
        };
        proof {
            assert forall|i: int|
                0 <= i < routes.len() && (#[trigger] routes[i]).pattern() == prefix implies exists|
                k: int,
            |
                0 <= k < node.methods@.len() && (#[trigger] node.methods@[k]).1 == i by {
                assert(prefix.take(prefix.len() as int) =~= prefix);
                assert(under(routes[i], prefix));
            }
        }
        node
    }
}

/// Adds an admissible route below `node`.
#[verifier::rlimit(60)]
fn mount(
    node: &mut Node,
    parts: &Vec<Segment>,
    k: usize,
    method: &str,
    index: usize,
    Ghost(routes): Ghost<Seq<Route>>,
    Ghost(new): Ghost<Route>,
)
    requires
        k <= parts@.len(),
        seg_views(parts@) == new.pattern(),
        new.method == method@,
        index == routes.len(),
        clear_before(routes, new.pattern(), new.pattern().len() as int),
        agrees(*old(node), routes, new.pattern().take(k as int)),
    ensures
        agrees(*final(node), routes.push(new), new.pattern().take(k as int)),
    decreases parts@.len() - k,
{
    let ghost pattern = new.pattern();
    let ghost prefix = pattern.take(k as int);
    let ghost more = routes.push(new);
    let ghost before = *node;
    if k == parts.len() {
        let entry = (method.to_owned(), index);
        proof {
            assert(prefix =~= pattern);
            lemma_push_methods(node.methods@, routes, new, entry, prefix);
        }
        node.methods.push(entry);
        proof {
            lemma_frame_below(before, *node, routes, new, prefix);
        }
        return;
    }
    let ghost seg = pattern[k as int];
    let ghost next = prefix.push(seg);
    proof {
        assert(seg == parts@[k as int]@);
        assert(pattern.take(k + 1) =~= next);
        assert(under(new, prefix));
        assert(under(new, next));
        lemma_frame_parts(before, routes, new, prefix);
        assert(!refused_at(routes, pattern, k as int));
    }
    match &parts[k] {
        Segment::Static(name) => {
            let c: usize = match lookup_static(&node.statics, name.as_str()) {
                Some(c) => c,
                None => {
                    proof {
                        lemma_unused_next(before, routes, prefix, seg);
                    }
                    let child = Node::empty(Ghost(routes), Ghost(next));
                    let c: usize = node.statics.len();
                    node.statics.push((name.clone(), child));
                    c
                },
            };
            let ghost ready = *node;
            assert(ready.statics@[c as int].0@ == name@);
            assert(agrees(ready.statics@[c as int].1, routes, next));
            mount(&mut node.statics[c].1, parts, k + 1, method, index, Ghost(routes), Ghost(new));
            proof {
                let after = *node;
                assert(after.statics@.len() == ready.statics@.len());
                assert forall|i: int| 0 <= i < after.statics@.len() implies (
                #[trigger] after.statics@[i]).0 == ready.statics@[i].0 && (i != c
                    ==> after.statics@[i].1 == before.statics@[i].1) by {}
                assert forall|i: int| 0 <= i < after.statics@.len() implies agrees(
                    (#[trigger] after.statics@[i]).1,
                    more,
                    prefix.push(Seg::Static(after.statics@[i].0@)),
                ) by {
                    if i != c {
                        assert(ready.statics@[i].0@ != name@);
                        assert(after.statics@[i] == before.statics@[i]);
                    }
                }
                assert forall|r: int|
                    0 <= r < more.len() && under(#[trigger] more[r], prefix)
                        && more[r].pattern().len() > prefix.len() implies covers(
                    after,
                    more[r],
                    prefix,
                ) by {
                    if r < routes.len() {
                        assert(more[r] == routes[r]);
                        assert(covers(before, routes[r], prefix));
                        if let Seg::Static(s) = routes[r].pattern()[k as int] {
                            let q = choose|q: int|
                                0 <= q < before.statics@.len() && (
                                #[trigger] before.statics@[q]).0@ == s;
                            assert(after.statics@[q].0@ == s);
                        }
                    } else {
                        assert(after.statics@[c as int].0@ == name@);
                    }
                }
                assert(after.param == before.param);
                assert(after.wildcard == before.wildcard);
            }
        },
        Segment::Param(name) => {
            let param = node.param.take();
            let mut inner: Box<ParamNode> = match param {
                Some(inner) => inner,
                None => {
                    proof {
                        lemma_unused_next(before, routes, prefix, seg);
                    }
                    Box::new(
                        ParamNode {
                            name: name.clone(),
                            node: Node::empty(Ghost(routes), Ghost(next)),
                        },
                    )
                },
            };
            proof {
                if before.param is Some && before.param->0.name@ != name@ {
                    let held = Seg::Param(before.param->0.name@);
                    let i = choose|i: int|
                        0 <= i < routes.len() && under(#[trigger] routes[i], prefix.push(held));
                    lemma_under_push(routes[i], prefix, held);
                    assert(renames(routes[i], pattern, k as int));
                }
            }
            let mut child = inner.node;
            mount(&mut child, parts, k + 1, method, index, Ghost(routes), Ghost(new));
            inner = Box::new(ParamNode { name: inner.name, node: child });
            node.param = Some(inner);
            proof {
                let after = *node;
                assert(after.statics == before.statics);
                assert(more[routes.len() as int] == new);
                assert forall|r: int|
                    0 <= r < more.len() && under(#[trigger] more[r], prefix)
                        && more[r].pattern().len() > prefix.len() implies covers(
                    after,
                    more[r],
                    prefix,
                ) by {
                    if r < routes.len() {
                        assert(more[r] == routes[r]);
                        assert(covers(before, routes[r], prefix));
                    }
                }
            }
        },
        Segment::Wildcard(name) => {
            proof {
                if k + 1 < parts@.len() {
                    assert(misplaced(pattern, k as int));
                }
                assert(pattern =~= next);
            }
            let wildcard = node.wildcard.take();
            let mut inner: Box<WildcardNode> = match wildcard {
                Some(inner) => inner,
                None => {
                    proof {
                        lemma_unused_next(before, routes, prefix, seg);
                        assert forall|i: int|
                            0 <= i < routes.len() implies (#[trigger] routes[i]).pattern()
                            != next by {
                            if routes[i].pattern() == next {
                                assert(next.take(next.len() as int) =~= next);
                                assert(under(routes[i], next));
                            }
                        }
                    }
                    Box::new(WildcardNode { name: name.clone(), methods: Vec::new() })
                },
            };
            proof {
                if before.wildcard is Some && before.wildcard->0.name@ != name@ {
                    let held = prefix.push(Seg::Wildcard(before.wildcard->0.name@));
                    let i = before.wildcard->0.methods@[0].1 as int;
                    assert(held.take(k as int) =~= prefix);
                    assert(renames(routes[i], pattern, k as int));
                }
            }
            let entry = (method.to_owned(), index);
            proof {
                lemma_push_methods(inner.methods@, routes, new, entry, next);
            }
            inner.methods.push(entry);
            node.wildcard = Some(inner);
            proof {
                let after = *node;
                assert(after.statics == before.statics);
                assert forall|r: int|
                    0 <= r < more.len() && under(#[trigger] more[r], prefix)
                        && more[r].pattern().len() > prefix.len() implies covers(
                    after,
                    more[r],
                    prefix,
                ) by {
                    if r < routes.len() {
                        assert(more[r] == routes[r]);
                        assert(covers(before, routes[r], prefix));
                    }
                }
            }
        },
    }
}

/// A route that ends at a node leaves everything below the node as it was.
proof fn lemma_frame_below(
    before: Node,
    after: Node,
    routes: Seq<Route>,
    new: Route,
    prefix: Seq<Seg>,
)
    requires
        agrees(before, routes, prefix),
        new.pattern() == prefix,
        after.statics == before.statics,
        after.param == before.param,
        after.wildcard == before.wildcard,
        methods_agree(after.methods@, routes.push(new), prefix),
    ensures
        agrees(after, routes.push(new), prefix),
{
    let more = routes.push(new);
    assert forall|i: int| 0 <= i < after.statics@.len() implies agrees(
        (#[trigger] after.statics@[i]).1,
        more,
        prefix.push(Seg::Static(after.statics@[i].0@)),
    ) by {
        let seg = Seg::Static(before.statics@[i].0@);
        lemma_frame(before.statics@[i].1, routes, new, prefix.push(seg));
    }
    assert forall|r: int|
        0 <= r < more.len() && under(#[trigger] more[r], prefix) && more[r].pattern().len()
            > prefix.len() implies covers(after, more[r], prefix) by {
        assert(more[r] == routes[r]);
        assert(covers(before, routes[r], prefix));
    }
    if after.param is Some {
        let p = before.param->0;
        let seg = Seg::Param(p.name@);
        lemma_frame(p.node, routes, new, prefix.push(seg));
        let r = choose|r: int|
            0 <= r < routes.len() && under(#[trigger] routes[r], prefix.push(seg));
        assert(more[r] == routes[r]);
    }
    if after.wildcard is Some {
        let w = before.wildcard->0;
        let seg = Seg::Wildcard(w.name@);
        lemma_frame_methods(w.methods@, routes, new, prefix.push(seg));
    }
}

/// The compiled routing table.
pub struct RouteTable<H> {
    root: Node,
    endpoints: Vec<Endpoint<H>>,
    /// Every registered (method, template) pair, for diagnostics and docs.
    registered: Vec<(String, String)>,
}

/// A list of `(method, template)` pairs as routes.
pub open spec fn as_routes(list: Seq<(String, String)>) -> Seq<Route> {
    list.map_values(|p: (String, String)| Route { method: p.0@, path: p.1@ })
}

impl<H> RouteTable<H> {
    /// The registered routes, in registration order.
    pub closed spec fn routes(&self) -> Seq<Route> {
        as_routes(self.registered@)
    }

    /// The handler of each route.
    pub closed spec fn handlers(&self) -> Seq<H> {
        self.endpoints@.map_values(|e: Endpoint<H>| e.handler)
    }

    /// The table's invariant.
    pub closed spec fn wf(&self) -> bool {
        &&& self.endpoints@.len() == self.registered@.len()
        &&& forall|i: int|
            0 <= i < self.registered@.len() ==> {
                &&& (#[trigger] self.endpoints@[i]).method@ == self.registered@[i].0@
                &&& self.endpoints@[i].matched_path@ == self.registered@[i].1@
            }
        &&& no_repeats(self.routes())
        &&& agrees(self.root, self.routes(), Seq::empty())
    }

    /// A table without routes.
    pub fn new() -> (table: Self)
        ensures
            table.wf(),
            table.routes() == Seq::<Route>::empty(),
            table.handlers() == Seq::<H>::empty(),
    {
        let root = Node::empty(Ghost(Seq::empty()), Ghost(Seq::empty()));
        let table = RouteTable { root, endpoints: Vec::new(), registered: Vec::new() };
        assert(table.routes() =~= Seq::<Route>::empty());
        assert(table.handlers() =~= Seq::<H>::empty());
        table
    }

    /// Adds a route. A refused route leaves the table as it was.
    pub fn insert(&mut self, route: RouteDef<H>) -> (r: Result<(), RouteConflict>)
        requires
            old(self).wf(),
        ensures
            final(self).wf(),
            r is Ok <==> admissible(old(self).routes(), route.method@, route.path@),
            match r {
                Ok(_) => {
                    &&& final(self).routes() == old(self).routes().push(
                        (Route { method: route.method@, path: route.path@ }),
                    )
                    &&& final(self).handlers() == old(self).handlers().push(route.handler)
                },
                Err(e) => {
                    &&& *final(self) == *old(self)
                    &&& explains(old(self).routes(), route.method@, route.path@, e)
                },
            },
    {
        let ghost routes = self.routes();
        let ghost handlers = self.handlers();
        let ghost new = Route { method: route.method@, path: route.path@ };
        let ghost pattern = new.pattern();
        let parts = parse_template(route.path.as_str());
        assert(pattern.take(0) =~= Seq::<Seg>::empty());
        let refusal = check(
            &self.root,
            &parts,
            0,
            route.method.as_str(),
            route.path.as_str(),
            Ghost(routes),
        );
        if let Some(e) = refusal {
            proof {
                lemma_explained_is_refused(routes, route.method@, route.path@, e);
            }
            return Err(e);
        }
        let index: usize = self.registered.len();
        mount(
            &mut self.root,
            &parts,
            0,
            route.method.as_str(),
            index,
            Ghost(routes),
            Ghost(new),
        );
        let RouteDef { method, path, handler } = route;
        self.registered.push((method.clone(), path.clone()));
        self.endpoints.push(Endpoint { handler, matched_path: path, method });
        proof {
            assert(self.routes() =~= routes.push(new));
            assert(self.handlers() =~= handlers.push(handler));
        }
        Ok(())
    }

    /// Matches a request path and method.
    pub fn find(&self, path: &str, method: &str) -> (found: Match<'_, H>)
        requires
            self.wf(),
        ensures
            match found {
                Match::Found { endpoint, params } => exists|i: int|
                    {
                        &&& #[trigger] wins(self.routes(), i, segments(path@), method@)
                        &&& endpoint.handler == self.handlers()[i]
                        &&& endpoint.method@ == method@
                        &&& endpoint.matched_path@ == self.routes()[i].path
                        &&& pairs(params@) == captures(
                            self.routes()[i].pattern(),
                            segments(path@),
                        )
                    },
                Match::MethodNotAllowed(allowed) => {
                    &&& !mounted(self.routes(), segments(path@), method@)
                    &&& allowed@.len() > 0
                    &&& ascending(text::views(allowed@))
                    &&& forall|m: Seq<char>| #[trigger]
                        text::views(allowed@).contains(m) <==> mounted(
                            self.routes(),
                            segments(path@),
                            m,
                        )
                },
                Match::NotFound => forall|m: Seq<char>| !#[trigger]
                    mounted(self.routes(), segments(path@), m),
            },
    {
        let ghost routes = self.routes();
        let ghost views = segments(path@);
        let parts = path_segments(path);
        let mut params: PathParams = Vec::new();
        assert(pairs(params@) =~= Seq::<(Seq<char>, Seq<char>)>::empty());
        proof {
            assert forall|j: int| #![trigger routes[j]] under(routes[j], Seq::empty()) by {
                assert(routes[j].pattern().take(0) =~= Seq::<Seg>::empty());
            }
        }
        let found = find_endpoint(
            &self.root,
            &parts,
            0,
            method,
            &mut params,
            Ghost(routes),
            Ghost(Seq::empty()),
        );
        if let Some(i) = found {
            assert(wins(routes, i as int, views, method@));
            assert(routes[i as int].method == self.registered@[i as int].0@);
            return Match::Found { endpoint: &self.endpoints[i], params };
        }
        let mut allowed: Vec<String> = Vec::new();
        assert(text::views(allowed@) =~= Seq::<Seq<char>>::empty());
        walk(
            &self.root,
            &parts,
            0,
            method,
            &mut allowed,
            Ghost(routes),
            Ghost(Seq::empty()),
        );
        proof {
            let list = text::views(allowed@);
            assert forall|m: Seq<char>| #[trigger] list.contains(m) <==> mounted(
                routes,
                views,
                m,
            ) by {
                if mounted(routes, views, m) {
                    let j = choose|j: int| #[trigger] answers(routes, j, views, m);
                    assert(under(routes[j], Seq::empty()));
                    assert(offers(routes, Seq::empty(), views, m));
                }
                if offers(routes, Seq::empty(), views, m) {
                    let j = choose|j: int| #[trigger]
                        answers(routes, j, views, m) && under(routes[j], Seq::empty());
                    assert(mounted(routes, views, m));
                }
            }
            if list.len() == 0 {
                assert forall|m: Seq<char>| !#[trigger] mounted(routes, views, m) by {
                    assert(!list.contains(m));
                }
            }
        }
        if allowed.is_empty() {
            Match::NotFound
        } else {
            Match::MethodNotAllowed(allowed)
        }
    }

    /// Every registered `(method, template)` pair.
    pub fn registered(&self) -> (list: &[(String, String)])
        ensures
            as_routes(list@) == self.routes(),
    {
        self.registered.as_slice()
    }

    pub fn len(&self) -> (n: usize)
        ensures
            n == self.routes().len(),
    {
        self.registered.len()
    }

    pub fn is_empty(&self) -> (r: bool)
        ensures
            r == (self.routes().len() == 0),
    {
        self.registered.is_empty()
    }
}

/// A route that an error explains is not admissible.
proof fn lemma_explained_is_refused(
    routes: Seq<Route>,
    method: Seq<char>,
    path: Seq<char>,
    err: RouteConflict,
)
    requires
        explains(routes, method, path, err),
    ensures
        !admissible(routes, method, path),
{
    let pattern = template(path);
    match err {
        RouteConflict::TrailingWildcard { .. } => {
            let k = choose|k: int| #[trigger]
                misplaced(pattern, k) && clear_before(routes, pattern, k);
            assert(refused_at(routes, pattern, k));
        },
        RouteConflict::ParameterName { existing, incoming, .. } => {
            let (k, i) = choose|k: int, i: int|
                {
                    &&& 0 <= i < routes.len()
                    &&& #[trigger] renames(routes[i], pattern, k)
                    &&& !misplaced(pattern, k)
                    &&& clear_before(routes, pattern, k)
                    &&& bound_name(pattern[k]) == Some(incoming@)
                    &&& bound_name(routes[i].pattern()[k]) == Some(existing@)
                };
            assert(refused_at(routes, pattern, k));
        },
        RouteConflict::Duplicate { .. } => {},
    }
}

/// The routes that a list of definitions declares.
pub open spec fn declared<H>(routes: Seq<RouteDef<H>>) -> Seq<Route> {
    routes.map_values(|r: RouteDef<H>| Route { method: r.method@, path: r.path@ })
}

/// Every route of a list can be added after those before it.
pub open spec fn coexist(routes: Seq<Route>, n: int) -> bool {
    forall|k: int|
        0 <= k < n ==> admissible(
            routes.take(k),
            (#[trigger] routes[k]).method,
            routes[k].path,
        )
}

/// Builds a table from routes, stopping at the first that conflicts.
pub fn build<H>(routes: Vec<RouteDef<H>>) -> (r: Result<RouteTable<H>, RouteConflict>)
    ensures
        r is Ok <==> coexist(declared(routes@), routes@.len() as int),
        match r {
            Ok(table) => {
                &&& table.wf()
                &&& table.routes() == declared(routes@)
                &&& table.handlers() == routes@.map_values(|d: RouteDef<H>| d.handler)
            },
            Err(e) => exists|k: int|
                {
                    &&& 0 <= k < routes@.len()
                    &&& coexist(declared(routes@), k)
                    &&& #[trigger] explains(
                        declared(routes@).take(k),
                        routes@[k].method@,
                        routes@[k].path@,
                        e,
                    )
                },
        },
{
    let mut table: RouteTable<H> = RouteTable::new();
    let ghost all = declared(routes@);
    let ghost handlers = routes@.map_values(|d: RouteDef<H>| d.handler);
    assert(all.take(0) =~= Seq::<Route>::empty());
    assert(handlers.take(0) =~= Seq::<H>::empty());
    let ghost given = routes@;
    for route in it: routes
        invariant
            it.seq() == given,
            all == declared(given),
            handlers == given.map_values(|d: RouteDef<H>| d.handler),
            table.wf(),
            table.routes() == all.take(it.index() as int),
            table.handlers() == handlers.take(it.index() as int),
            coexist(all, it.index() as int),
    {
        let ghost k = it.index() as int;
        assert(route == given[k]);
        assert(all.take(k + 1) =~= all.take(k).push(all[k]));
        assert(handlers.take(k + 1) =~= handlers.take(k).push(handlers[k]));
        match table.insert(route) {
            Ok(_) => {},
            Err(e) => {
                proof {
                    lemma_explained_is_refused(
                        all.take(k),
                        given[k].method@,
                        given[k].path@,
                        e,
                    );
                    assert(all[k] == (Route { method: given[k].method@, path: given[k].path@ }));
                    assert(explains(all.take(k), given[k].method@, given[k].path@, e));
                }
                return Err(e);
            },
        }
    }
    assert(all.take(given.len() as int) =~= all);
    assert(handlers.take(given.len() as int) =~= handlers);
    Ok(table)
}

/// Convenience for tests and manual wiring.
pub fn table_from<H>(routes: Vec<RouteDef<H>>) -> (r: Result<RouteTable<H>, RouteConflict>)
    ensures
        r is Ok <==> coexist(declared(routes@), routes@.len() as int),
        match r {
            Ok(table) => {
                &&& table.wf()
                &&& table.routes() == declared(routes@)
                &&& table.handlers() == routes@.map_values(|d: RouteDef<H>| d.handler)
            },
            Err(e) => exists|k: int|
                {
                    &&& 0 <= k < routes@.len()
                    &&& coexist(declared(routes@), k)
                    &&& #[trigger] explains(
                        declared(routes@).take(k),
                        routes@[k].method@,
                        routes@[k].path@,
                        e,
                    )
                },
        },
{
    build(routes)
}

impl RouteConflict {
    /// What the conflict reads as.
    pub open spec fn text(self) -> Seq<char> {
        match self {
            RouteConflict::Duplicate { method, path } => "`"@ + method@ + " "@ + path@
                + "` is registered more than once"@,
            RouteConflict::ParameterName { path, existing, incoming } => "`"@ + path@
                + "` names a path parameter `"@ + incoming@ + "` where `"@ + existing@
                + "` is already used at that position; pick one name"@,
            RouteConflict::TrailingWildcard { path } => "`"@ + path@
                + "` has a catch-all that is not the last segment"@,
        }
    }

    /// The message shown to whoever registered the route.
    pub fn message(&self) -> (out: String)
        ensures
            out@ == self.text(),
    {
        let mut out = "`".to_owned();
        match self {
            RouteConflict::Duplicate { method, path } => {
                out.append(method.as_str());
                out.append(" ");
                out.append(path.as_str());
                out.append("` is registered more than once");
            },
            RouteConflict::ParameterName { path, existing, incoming } => {
                out.append(path.as_str());
                out.append("` names a path parameter `");
                out.append(incoming.as_str());
                out.append("` where `");
                out.append(existing.as_str());
                out.append("` is already used at that position; pick one name");
            },
            RouteConflict::TrailingWildcard { path } => {
                out.append(path.as_str());
                out.append("` has a catch-all that is not the last segment");
            },
        }
        out
    }
}

// ---------------------------------------------------------------------------
// What holds of routing as a whole
// ---------------------------------------------------------------------------

/// Preference between templates never goes both ways.
pub proof fn preference_is_asymmetric(a: Seq<Seg>, b: Seq<Seg>)
    ensures
        !(beats(a, b) && beats(b, a)),
{
    if beats(a, b) && beats(b, a) {
        let j = choose|k: int| #[trigger] beats_at(a, b, k);
        let k = choose|k: int| #[trigger] beats_at(b, a, k);
        if j < k {
            assert(a.take(k)[j] == b.take(k)[j]);
        } else if k < j {
            assert(a.take(j)[k] == b.take(j)[k]);
        }
    }
}

/// A request has at most one winner.
pub proof fn the_winner_is_unique(
    routes: Seq<Route>,
    i: int,
    j: int,
    parts: Seq<Seq<char>>,
    method: Seq<char>,
)
    requires
        wins(routes, i, parts, method),
        wins(routes, j, parts, method),
    ensures
        i == j,
{
    if i != j {
        preference_is_asymmetric(routes[i].pattern(), routes[j].pattern());
    }
}

/// Which template answers a request does not depend on the order in which the
/// routes were registered.
pub proof fn registration_order_does_not_matter(
    a: Seq<Route>,
    b: Seq<Route>,
    i: int,
    j: int,
    parts: Seq<Seq<char>>,
    method: Seq<char>,
)
    requires
        forall|r: Route| a.contains(r) <==> b.contains(r),
        wins(a, i, parts, method),
        wins(b, j, parts, method),
    ensures
        a[i] == b[j],
{
    assert(a.contains(a[i]));
    assert(b.contains(b[j]));
    assert(a.contains(b[j]));
    assert(b.contains(a[i]));
    let x = choose|x: int| 0 <= x < a.len() && a[x] == b[j];
    let y = choose|y: int| 0 <= y < b.len() && b[y] == a[i];
    assert(answers(a, x, parts, method));
    assert(answers(b, y, parts, method));
    if x != i {
        if y != j {
            preference_is_asymmetric(a[i].pattern(), b[j].pattern());
        }
    }
}

/// A template that a static segment makes more specific wins over one that
/// binds a parameter there, and either wins over one with a catch-all there.
pub proof fn specific_segments_win(
    routes: Seq<Route>,
    i: int,
    j: int,
    k: int,
    parts: Seq<Seq<char>>,
    method: Seq<char>,
)
    requires
        wins(routes, i, parts, method),
        answers(routes, j, parts, method),
        0 <= k < routes[i].pattern().len(),
        k < routes[j].pattern().len(),
        routes[i].pattern().take(k) == routes[j].pattern().take(k),
    ensures
        rank(routes[i].pattern()[k]) <= rank(routes[j].pattern()[k]),
{
    if rank(routes[i].pattern()[k]) > rank(routes[j].pattern()[k]) {
        assert(beats_at(routes[j].pattern(), routes[i].pattern(), k));
        preference_is_asymmetric(routes[i].pattern(), routes[j].pattern());
    }
}

/// A slash at the end of a path, or a second one anywhere, changes nothing.
pub proof fn extra_slashes_do_not_change_the_segments(a: Seq<char>, b: Seq<char>)
    ensures
        segments(a.push('/')) == segments(a),
        segments(a.push('/') + b) == segments(a.push('/').push('/') + b),
{
    let s = a.push('/');
    assert(s.drop_last() =~= a);
    let p = text::split(a, '/');
    assert(p.push(Seq::empty()).drop_last() =~= p);
    assert(s.push('/').drop_last() =~= s);
    let q = text::split(s, '/');
    assert(q.push(Seq::empty()).drop_last() =~= q);
    lemma_tail(s, s.push('/'), b);
}

/// Two texts that end in a slash and have the same segments still have the same
/// segments, and the same unfinished last piece, with the same text after them.
proof fn lemma_tail(x: Seq<char>, y: Seq<char>, b: Seq<char>)
    requires
        x.len() > 0,
        y.len() > 0,
        x.last() == '/',
        y.last() == '/',
    ensures
        segments(x) == segments(y) ==> {
            &&& text::split(x + b, '/').last() == text::split(y + b, '/').last()
            &&& text::non_empty(text::split(x + b, '/').drop_last()) == text::non_empty(
                text::split(y + b, '/').drop_last(),
            )
            &&& segments(x + b) == segments(y + b)
        },
    decreases b.len(),
{
    text::lemma_split_len(x.drop_last(), '/');
    text::lemma_split_len(y.drop_last(), '/');
    if b.len() == 0 {
        assert(x + b =~= x);
        assert(y + b =~= y);
        let p = text::split(x.drop_last(), '/');
        let q = text::split(y.drop_last(), '/');
        assert(p.push(Seq::empty()).drop_last() =~= p);
        assert(q.push(Seq::empty()).drop_last() =~= q);
    } else {
        let c = b.drop_last();
        lemma_tail(x, y, c);
        assert((x + b).drop_last() =~= x + c);
        assert((y + b).drop_last() =~= y + c);
        let p = text::split(x + c, '/');
        let q = text::split(y + c, '/');
        text::lemma_split_len(x + c, '/');
        text::lemma_split_len(y + c, '/');
        if b.last() == '/' {
            assert(p.push(Seq::empty()).drop_last() =~= p);
            assert(q.push(Seq::empty()).drop_last() =~= q);
        } else {
            let e = p.last().push(b.last());
            assert(p.drop_last().push(e).drop_last() =~= p.drop_last());
            assert(q.drop_last().push(e).drop_last() =~= q.drop_last());
        }
    }
}

/// A piece of a path without a slash is one segment, whatever it decodes to: an
/// encoded separator adds no segment.
pub proof fn an_encoded_separator_adds_no_segment(path: Seq<char>, piece: Seq<char>)
    requires
        piece.len() > 0,
        !piece.contains('/'),
    ensures
        segments(path.push('/') + piece) == segments(path).push(piece),
{
    lemma_one_piece(path, piece);
}

proof fn lemma_one_piece(path: Seq<char>, piece: Seq<char>)
    requires
        !piece.contains('/'),
    ensures
        text::split(path.push('/') + piece, '/') == text::split(path, '/').push(piece),
        piece.len() > 0 ==> segments(path.push('/') + piece) == segments(path).push(piece),
    decreases piece.len(),
{
    let s = path.push('/');
    let p = text::split(path, '/');
    assert(s.drop_last() =~= path);
    if piece.len() == 0 {
        assert(s + piece =~= s);
        assert(piece =~= Seq::empty());
    } else {
        let c = piece.drop_last();
        assert forall|x: char| c.contains(x) implies piece.contains(x) by {
            let i = choose|i: int| 0 <= i < c.len() && c[i] == x;
            assert(piece[i] == x);
        }
        lemma_one_piece(path, c);
        assert((s + piece).drop_last() =~= s + c);
        assert(piece[piece.len() - 1] == piece.last());
        assert(p.push(c).drop_last() =~= p);
        assert(c.push(piece.last()) =~= piece);
        assert(p.push(piece).drop_last() =~= p);
    }
}

} // verus!
