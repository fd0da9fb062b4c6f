//! What a routing attribute and its handler say of a route.

use crate::derive::attr;
use crate::derive::attr::Meta;
use crate::derive::route;
use crate::derive::route::{
    GenericArg, HandlerFn, PathScan, PathSegment, PlanModel, RouteArgsModel, RouteInput, TypeExpr,
};
use crate::json::ValueModel;
use crate::laws::naming::{all_clear, is_clear, names};
use crate::laws::routing::{spelled, spelled_all};
use crate::openapi::ordered;
use crate::openapi::spec::OperationModel;
use crate::router::Seg;
use crate::text;
use vstd::prelude::*;
use vstd::string::*;

verus! {

proof fn lemma_option_names()
    ensures
        "tags"@ != "summary"@ && "tags"@ != "description"@ && "tags"@ != "operation_id"@ && "tags"@
            != "id"@ && "tags"@ != "deprecated"@ && "tags"@ != "hidden"@,
        "summary"@ != "description"@ && "summary"@ != "operation_id"@ && "summary"@ != "id"@
            && "summary"@ != "deprecated"@ && "summary"@ != "hidden"@,
        "description"@ != "operation_id"@ && "description"@ != "id"@ && "description"@
            != "deprecated"@ && "description"@ != "hidden"@,
        "operation_id"@ != "deprecated"@ && "operation_id"@ != "hidden"@,
        "id"@ != "deprecated"@ && "id"@ != "hidden"@,
        "deprecated"@ != "hidden"@,
{
    reveal_strlit("tags");
    reveal_strlit("summary");
    reveal_strlit("description");
    reveal_strlit("operation_id");
    reveal_strlit("id");
    reveal_strlit("deprecated");
    reveal_strlit("hidden");
    assert("tags"@.len() == 4);
    assert("summary"@.len() == 7);
    assert("description"@.len() == 11);
    assert("operation_id"@.len() == 12);
    assert("id"@.len() == 2);
    assert("deprecated"@.len() == 10);
    assert("hidden"@.len() == 6);
}

/// Each option of a routing attribute sets what it is named after, and nothing
/// else. The id of an operation has a short name too.
pub proof fn a_route_option_sets_what_it_is_named_after(
    args: RouteArgsModel,
    m: Meta,
    said: Seq<char>,
)
    requires
        m.value matches Some(value) && attr::text_literal(value) == Ok::<Seq<char>, Seq<char>>(
            said,
        ),
    ensures
        m.path@ == "summary"@ ==> route::option_read(args, m) == Ok::<RouteArgsModel, Seq<char>>(
            RouteArgsModel { summary: Some(said), ..args },
        ),
        m.path@ == "description"@ ==> route::option_read(args, m) == Ok::<
            RouteArgsModel,
            Seq<char>,
        >(RouteArgsModel { description: Some(said), ..args }),
        m.path@ == "operation_id"@ || m.path@ == "id"@ ==> route::option_read(args, m) == Ok::<
            RouteArgsModel,
            Seq<char>,
        >(RouteArgsModel { operation_id: Some(said), ..args }),
{
    lemma_option_names();
}

/// The tags of a route are those its attribute lists, and a flag is set by its
/// name alone.
pub proof fn tags_and_flags_are_read(args: RouteArgsModel, m: Meta, tags: Seq<Seq<char>>)
    ensures
        m.path@ == "tags"@ && m.value is Some && attr::text_literals(m.value->0) == Ok::<
            Seq<Seq<char>>,
            Seq<char>,
        >(tags) ==> route::option_read(args, m) == Ok::<RouteArgsModel, Seq<char>>(
            RouteArgsModel { tags, ..args },
        ),
        m.path@ == "deprecated"@ && m.value is None && m.group is None ==> route::option_read(
            args,
            m,
        ) == Ok::<RouteArgsModel, Seq<char>>(RouteArgsModel { deprecated: true, ..args }),
        m.path@ == "hidden"@ && m.value is None && m.group is None ==> route::option_read(args, m)
            == Ok::<RouteArgsModel, Seq<char>>(RouteArgsModel { hidden: true, ..args }),
        (m.path@ == "deprecated"@ || m.path@ == "hidden"@) && m.value is Some
            ==> route::option_read(args, m) is Err,
        m.path@ != "tags"@ && m.path@ != "summary"@ && m.path@ != "description"@ && m.path@
            != "operation_id"@ && m.path@ != "id"@ && m.path@ != "deprecated"@ && m.path@
            != "hidden"@ ==> route::option_read(args, m) is Err,
{
    lemma_option_names();
}

/// An attribute without options names a path and says nothing else.
pub proof fn a_bare_attribute_names_its_path(input: RouteInput)
    ensures
        input.path is None ==> route::args_of(input) is Err,
        input.path matches Some(path) && input.options@.len() == 0 ==> route::args_of(input)
            == Ok::<RouteArgsModel, Seq<char>>(
            RouteArgsModel {
                path: input.path->0@,
                tags: Seq::empty(),
                summary: None,
                description: None,
                operation_id: None,
                deprecated: false,
                hidden: false,
            },
        ),
{
}

proof fn lemma_types(list: Seq<TypeExpr>)
    ensures
        route::types_have_impl(list) <==> exists|i: int|
            0 <= i < list.len() && route::has_impl(#[trigger] list[i]),
    decreases list.len(),
{
    if list.len() > 0 {
        let front = list.drop_last();
        lemma_types(front);
        if route::types_have_impl(front) {
            let i = choose|i: int| 0 <= i < front.len() && route::has_impl(#[trigger] front[i]);
            assert(list[i] == front[i]);
        }
        assert(list[list.len() - 1] == list.last());
        if exists|i: int| 0 <= i < list.len() && route::has_impl(#[trigger] list[i]) {
            let i = choose|i: int| 0 <= i < list.len() && route::has_impl(#[trigger] list[i]);
            if i < front.len() {
                assert(front[i] == list[i]);
            }
        }
    }
}

proof fn lemma_segments(list: Seq<PathSegment>)
    ensures
        route::segments_have_impl(list) <==> exists|i: int|
            0 <= i < list.len() && route::segment_has_impl(#[trigger] list[i]),
    decreases list.len(),
{
    if list.len() > 0 {
        let front = list.drop_last();
        lemma_segments(front);
        if route::segments_have_impl(front) {
            let i = choose|i: int|
                0 <= i < front.len() && route::segment_has_impl(#[trigger] front[i]);
            assert(list[i] == front[i]);
        }
        assert(list[list.len() - 1] == list.last());
        if exists|i: int| 0 <= i < list.len() && route::segment_has_impl(#[trigger] list[i]) {
            let i = choose|i: int|
                0 <= i < list.len() && route::segment_has_impl(#[trigger] list[i]);
            if i < front.len() {
                assert(front[i] == list[i]);
            }
        }
    }
}

proof fn lemma_arguments(list: Seq<GenericArg>)
    ensures
        route::arguments_have_impl(list) <==> exists|i: int|
            0 <= i < list.len() && route::argument_has_impl(#[trigger] list[i]),
    decreases list.len(),
{
    if list.len() > 0 {
        let front = list.drop_last();
        lemma_arguments(front);
        if route::arguments_have_impl(front) {
            let i = choose|i: int|
                0 <= i < front.len() && route::argument_has_impl(#[trigger] front[i]);
            assert(list[i] == front[i]);
        }
        assert(list[list.len() - 1] == list.last());
        if exists|i: int| 0 <= i < list.len() && route::argument_has_impl(#[trigger] list[i]) {
            let i = choose|i: int|
                0 <= i < list.len() && route::argument_has_impl(#[trigger] list[i]);
            if i < front.len() {
                assert(front[i] == list[i]);
            }
        }
    }
}

/// `impl Trait` is found wherever it stands: in a tuple, behind a reference, and
/// among the arguments of any segment of a path.
pub proof fn an_unnamed_type_is_found_wherever_it_stands(
    list: Vec<TypeExpr>,
    inner: TypeExpr,
    qualified: bool,
    segments: Vec<PathSegment>,
    arguments: Vec<GenericArg>,
    i: int,
    j: int,
)
    ensures
        route::has_impl(TypeExpr::ImplTrait),
        !route::has_impl(TypeExpr::Other),
        route::has_impl(TypeExpr::Reference(Box::new(inner))) == route::has_impl(inner),
        route::has_impl(TypeExpr::Paren(Box::new(inner))) == route::has_impl(inner),
        route::has_impl(TypeExpr::Group(Box::new(inner))) == route::has_impl(inner),
        0 <= i < list@.len() && route::has_impl(list@[i]) ==> route::has_impl(TypeExpr::Tuple(list)),
        (forall|k: int| 0 <= k < list@.len() ==> !route::has_impl(#[trigger] list@[k]))
            ==> !route::has_impl(TypeExpr::Tuple(list)),
        0 <= i < segments@.len() && segments@[i].arguments == Some(arguments) && 0 <= j
            < arguments@.len() && arguments@[j] == GenericArg::Type(inner) && route::has_impl(inner)
            ==> route::has_impl(TypeExpr::Path { qualified, segments }),
        (forall|k: int| 0 <= k < segments@.len() ==> (#[trigger] segments@[k]).arguments is None)
            ==> !route::has_impl(TypeExpr::Path { qualified, segments }),
{
    lemma_types(list@);
    lemma_segments(segments@);
    lemma_arguments(arguments@);
    reveal_with_fuel(route::has_impl, 2);
    reveal_with_fuel(route::segment_has_impl, 2);
    reveal_with_fuel(route::argument_has_impl, 2);
    if 0 <= i < segments@.len() && segments@[i].arguments == Some(arguments) && 0 <= j
        < arguments@.len() && arguments@[j] == GenericArg::Type(inner) && route::has_impl(inner) {
        assert(route::argument_has_impl(arguments@[j]));
        assert(route::segment_has_impl(segments@[i]));
    }
}

/// A handler is an `async fn` without type parameters that names what it
/// returns.
pub proof fn a_handler_is_concrete(f: HandlerFn)
    ensures
        route::signature_fault(f) is None <==> f.is_async && !f.is_generic && (f.output matches Some(
            ty,
        ) ==> !route::has_impl(ty)),
        !f.is_async ==> route::signature_fault(f) == Some("route handlers must be `async fn`"@),
{
}

// ---------------------------------------------------------------------------
// the path
// ---------------------------------------------------------------------------

proof fn lemma_scan_plain(base: Seq<char>, t: Seq<char>)
    requires
        route::path_scan(base) is Ok,
        !t.contains('{'),
        !t.contains('}'),
    ensures
        route::path_scan(base + t) is Ok,
        route::path_scan(base + t)->Ok_0.inside == route::path_scan(base)->Ok_0.inside,
        route::path_scan(base + t)->Ok_0.seen == route::path_scan(base)->Ok_0.seen,
        route::path_scan(base)->Ok_0.inside ==> route::path_scan(base + t)->Ok_0.current
            == route::path_scan(base)->Ok_0.current + t,
    decreases t.len(),
{
    if t.len() == 0 {
        assert(base + t =~= base);
        assert(route::path_scan(base)->Ok_0.current + t =~= route::path_scan(base)->Ok_0.current);
    } else {
        let front = t.drop_last();
        if front.contains('{') {
            let i = choose|i: int| 0 <= i < front.len() && front[i] == '{';
            assert(t[i] == '{');
        }
        if front.contains('}') {
            let i = choose|i: int| 0 <= i < front.len() && front[i] == '}';
            assert(t[i] == '}');
        }
        lemma_scan_plain(base, front);
        assert((base + t).drop_last() =~= base + front);
        assert((base + t).last() == t.last());
        assert(t.contains(t[t.len() - 1]));
        let current = route::path_scan(base)->Ok_0.current;
        assert((current + front).push(t.last()) =~= current + t);
    }
}

proof fn lemma_scan_step(base: Seq<char>, c: char)
    ensures
        route::path_scan(base) matches Ok(s) ==> route::path_scan(base.push(c)) == route::path_step(
            s,
            c,
        ),
        route::path_scan(base) is Err ==> route::path_scan(base.push(c)) == route::path_scan(base),
{
    assert(base.push(c).drop_last() =~= base);
}

/// Reads one parameter behind `base`.
proof fn lemma_scan_parameter(base: Seq<char>, star: Seq<char>, name: Seq<char>)
    requires
        route::path_scan(base) is Ok,
        !route::path_scan(base)->Ok_0.inside,
        star == Seq::<char>::empty() || star == seq!['*'],
        name.len() > 0,
        name[0] != '*',
        !name.contains('{'),
        !name.contains('}'),
    ensures
        route::path_scan((base.push('{') + (star + name)).push('}')) == if route::path_scan(
            base,
        )->Ok_0.seen.contains(name) {
            Err::<PathScan, Seq<char>>("path parameter `"@ + name + "` appears more than once"@)
        } else {
            Ok::<PathScan, Seq<char>>(
                PathScan {
                    inside: false,
                    current: star + name,
                    seen: route::path_scan(base)->Ok_0.seen.push(name),
                },
            )
        },
{
    lemma_scan_step(base, '{');
    let open = base.push('{');
    let inner = star + name;
    if inner.contains('{') {
        let i = choose|i: int| 0 <= i < inner.len() && inner[i] == '{';
        assert(i < star.len() || name[i - star.len()] == '{');
    }
    if inner.contains('}') {
        let i = choose|i: int| 0 <= i < inner.len() && inner[i] == '}';
        assert(i < star.len() || name[i - star.len()] == '}');
    }
    lemma_scan_plain(open, inner);
    assert(Seq::<char>::empty() + inner =~= inner);
    lemma_scan_step(open + inner, '}');
    reveal_with_fuel(route::without_stars, 3);
    if star.len() == 1 {
        assert(inner.skip(1) =~= name);
    } else {
        assert(inner =~= name);
    }
    assert(route::without_stars(inner) == name);
}

proof fn lemma_scan_segment(base: Seq<char>, seg: Seg)
    requires
        route::path_scan(base) is Ok,
        !route::path_scan(base)->Ok_0.inside,
        is_clear(seg),
        seg matches Seg::Param(name) ==> name.len() > 0,
        seg matches Seg::Wildcard(name) ==> name.len() > 0,
    ensures
        match seg {
            Seg::Static(_) => {
                &&& route::path_scan(base + "/"@ + spelled(seg)) is Ok
                &&& !route::path_scan(base + "/"@ + spelled(seg))->Ok_0.inside
                &&& route::path_scan(base + "/"@ + spelled(seg))->Ok_0.seen == route::path_scan(
                    base,
                )->Ok_0.seen
            },
            Seg::Param(name) | Seg::Wildcard(name) => {
                &&& route::path_scan(base)->Ok_0.seen.contains(name) ==> route::path_scan(
                    base + "/"@ + spelled(seg),
                ) == Err::<PathScan, Seq<char>>(
                    "path parameter `"@ + name + "` appears more than once"@,
                )
                &&& !route::path_scan(base)->Ok_0.seen.contains(name) ==> {
                    &&& route::path_scan(base + "/"@ + spelled(seg)) is Ok
                    &&& !route::path_scan(base + "/"@ + spelled(seg))->Ok_0.inside
                    &&& route::path_scan(base + "/"@ + spelled(seg))->Ok_0.seen
                        == route::path_scan(base)->Ok_0.seen.push(name)
                }
            },
        },
{
    reveal_strlit("/");
    reveal_strlit("{");
    reveal_strlit("{*");
    reveal_strlit("}");
    assert(!"/"@.contains('{') && !"/"@.contains('}'));
    lemma_scan_plain(base, "/"@);
    let at = base + "/"@;
    match seg {
        Seg::Static(s) => {
            lemma_scan_plain(at, s);
        },
        Seg::Param(name) => {
            let none = Seq::<char>::empty();
            lemma_scan_parameter(at, none, name);
            assert((at.push('{') + (none + name)).push('}') =~= at + spelled(seg));
        },
        Seg::Wildcard(name) => {
            lemma_scan_parameter(at, seq!['*'], name);
            assert((at.push('{') + (seq!['*'] + name)).push('}') =~= at + spelled(seg));
        },
    }
}

/// A segment with a name, where it binds one.
pub open spec fn is_named(seg: Seg) -> bool {
    match seg {
        Seg::Static(_) => true,
        Seg::Param(name) => name.len() > 0,
        Seg::Wildcard(name) => name.len() > 0,
    }
}

proof fn lemma_scan_all(pattern: Seq<Seg>)
    requires
        all_clear(pattern),
        forall|i: int| 0 <= i < pattern.len() ==> is_named(#[trigger] pattern[i]),
        names(pattern).no_duplicates(),
    ensures
        route::path_scan(spelled_all(pattern)) is Ok,
        !route::path_scan(spelled_all(pattern))->Ok_0.inside,
        route::path_scan(spelled_all(pattern))->Ok_0.seen == names(pattern),
    decreases pattern.len(),
{
    if pattern.len() > 0 {
        let front = pattern.drop_last();
        let seg = pattern.last();
        assert forall|i: int| 0 <= i < front.len() implies is_clear(#[trigger] front[i]) by {
            assert(front[i] == pattern[i]);
        }
        assert forall|i: int| 0 <= i < front.len() implies is_named(#[trigger] front[i]) by {
            assert(front[i] == pattern[i]);
        }
        assert(is_clear(pattern[pattern.len() - 1]) && is_named(pattern[pattern.len() - 1]));
        let before = names(front);
        match seg {
            Seg::Static(_) => {},
            Seg::Param(name) | Seg::Wildcard(name) => {
                let all = before.push(name);
                assert(names(pattern) == all);
                assert forall|i: int, j: int|
                    0 <= i < before.len() && 0 <= j < before.len() && i != j implies before[i]
                    != before[j] by {
                    assert(all[i] == before[i] && all[j] == before[j]);
                }
                if before.contains(name) {
                    let i = choose|i: int| 0 <= i < before.len() && before[i] == name;
                    assert(all[i] == all[before.len() as int]);
                }
            },
        }
        lemma_scan_all(front);
        lemma_scan_segment(spelled_all(front), seg);
    }
}

/// A template that names each of its parameters once is accepted; one that names
/// a parameter again, and one that does not start with a slash, is not.
pub proof fn a_written_template_is_accepted(pattern: Seq<Seg>, seg: Seg, path: Seq<char>)
    requires
        all_clear(pattern.push(seg)),
        forall|i: int| 0 <= i < pattern.len() ==> is_named(#[trigger] pattern[i]),
        is_named(seg),
        names(pattern).no_duplicates(),
    ensures
        pattern.len() > 0 ==> route::path_fault(spelled_all(pattern)) is None,
        seg matches Seg::Param(name) ==> names(pattern).contains(name) ==> route::path_fault(
            spelled_all(pattern.push(seg)),
        ) == Some("path parameter `"@ + name + "` appears more than once"@),
        path.len() == 0 || path[0] != '/' ==> route::path_fault(path) == Some(
            "route path must start with `/`, got `"@ + path + "`"@,
        ),
{
    reveal_strlit("/");
    let all = pattern.push(seg);
    assert forall|i: int| 0 <= i < pattern.len() implies is_clear(#[trigger] pattern[i]) by {
        assert(is_clear(all[i]));
    }
    assert(is_clear(all[pattern.len() as int]));
    lemma_scan_all(pattern);
    lemma_slash(pattern);
    lemma_slash(all);
    assert(all.drop_last() =~= pattern);
    lemma_scan_segment(spelled_all(pattern), seg);
}

proof fn lemma_slash(pattern: Seq<Seg>)
    ensures
        pattern.len() > 0 ==> spelled_all(pattern).len() > 0 && spelled_all(pattern)[0] == '/',
    decreases pattern.len(),
{
    reveal_strlit("/");
    if pattern.len() > 0 {
        lemma_slash(pattern.drop_last());
        if pattern.len() == 1 {
            assert(spelled_all(pattern.drop_last()) =~= Seq::empty());
        }
    }
}

/// What an attribute and a doc comment say is what the operation says; where
/// they are silent, it keeps what it has. Tags add up, and a hidden route is
/// marked.
pub proof fn an_operation_says_what_its_route_states(p: PlanModel, o: OperationModel)
    requires
        ordered::distinct(o.extensions),
    ensures
        p.stated(o).summary == if p.summary is Some {
            p.summary
        } else {
            o.summary
        },
        p.stated(o).description == if p.description is Some {
            p.description
        } else {
            o.description
        },
        p.stated(o).operation_id == if p.operation_id is Some {
            p.operation_id
        } else {
            o.operation_id
        },
        p.stated(o).tags == o.tags + p.tags,
        p.stated(o).deprecated <==> p.deprecated || o.deprecated,
        p.hidden ==> ordered::lookup(p.stated(o).extensions, "x-internal"@) == Some(
            ValueModel::Bool(true),
        ),
        !p.hidden ==> p.stated(o).extensions == o.extensions,
        p.stated(o).parameters == o.parameters,
        p.stated(o).request_body == o.request_body,
        p.stated(o).responses == o.responses,
        p.stated(o).security == o.security,
{
    ordered::insertion_is_remembered(
        o.extensions,
        "x-internal"@,
        ValueModel::Bool(true),
        "x-internal"@,
    );
}

/// A route takes its method, its path and its prose from where they are written:
/// the attribute first, then the doc comment.
pub proof fn a_route_is_what_is_written(method: Seq<char>, input: RouteInput, f: HandlerFn)
    ensures
        route::plan_of(method, input, f) matches Ok(plan) ==> {
            let args = route::args_of(input)->Ok_0;
            let docs = attr::docs_of(attr::doc_lines(f.attrs@));
            &&& route::args_of(input) is Ok
            &&& plan.method == method
            &&& plan.path == args.path
            &&& plan.operation_id == args.operation_id
            &&& plan.tags == args.tags
            &&& plan.deprecated == args.deprecated
            &&& plan.hidden == args.hidden
            &&& plan.summary == if args.summary is Some {
                args.summary
            } else {
                docs.summary
            }
            &&& plan.description == if args.description is Some {
                args.description
            } else {
                docs.description
            }
            &&& plan.bindings.len() == f.arguments@.len()
            &&& forall|i: int, j: int|
                0 <= i < j < plan.bindings.len() ==> plan.bindings[i] != plan.bindings[j]
            &&& route::signature_fault(f) is None
            &&& route::path_fault(args.path) is None
        },
{
    if let Ok(plan) = route::plan_of(method, input, f) {
        assert forall|i: int, j: int| 0 <= i < j < plan.bindings.len() implies plan.bindings[i]
            != plan.bindings[j] by {
            if plan.bindings[i] == plan.bindings[j] {
                let a = text::decimal(i as nat);
                let b = text::decimal(j as nat);
                let n = "__arg"@.len() as int;
                assert(("__arg"@ + a).skip(n) =~= a);
                assert(("__arg"@ + b).skip(n) =~= b);
                text::lemma_decimal_injective(i as nat, j as nat);
            }
        }
    }
}

} // verus!
