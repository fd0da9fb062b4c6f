//! How a template is named and documented.

use crate::app::naming;
use crate::derive::route;
use crate::laws::routing::{
    a_template_reads_as_written, can_be_spelled, spelled, spelled_all,
};
use crate::operation;
use crate::router;
use crate::router::Seg;
use crate::text;
use vstd::prelude::*;
use vstd::string::*;

verus! {

/// Text without braces.
pub open spec fn braceless(s: Seq<char>) -> bool {
    !s.contains('{') && !s.contains('}')
}

/// A segment that reads in one way only: no braces and no stars inside it.
pub open spec fn is_clear(seg: Seg) -> bool {
    can_be_spelled(seg) && match seg {
        Seg::Static(s) => braceless(s),
        Seg::Param(name) => braceless(name),
        Seg::Wildcard(name) => braceless(name) && !(name.len() > 0 && name[0] == '*'),
    }
}

/// Every segment reads in one way only.
pub open spec fn all_clear(pattern: Seq<Seg>) -> bool {
    forall|i: int| 0 <= i < pattern.len() ==> is_clear(#[trigger] pattern[i])
}

/// A template with each catch-all as a plain parameter.
pub open spec fn plainly(pattern: Seq<Seg>) -> Seq<Seg> {
    pattern.map_values(
        |seg: Seg|
            match seg {
                Seg::Wildcard(name) => Seg::Param(name),
                other => other,
            },
    )
}

/// Text without an opening brace is documented as it is.
proof fn lemma_plain_text(s: Seq<char>, rest: Seq<char>)
    requires
        !s.contains('{'),
    ensures
        naming::without_catch_alls(s + rest) == s + naming::without_catch_alls(rest),
    decreases s.len(),
{
    if s.len() == 0 {
        assert(s + rest =~= rest);
        assert(s + naming::without_catch_alls(rest) =~= naming::without_catch_alls(rest));
    } else {
        let whole = s + rest;
        assert(whole[0] == s[0]);
        assert(s[0] != '{');
        assert(!s.skip(1).contains('{')) by {
            if s.skip(1).contains('{') {
                let i = choose|i: int| 0 <= i < s.skip(1).len() && s.skip(1)[i] == '{';
                assert(s[i + 1] == '{');
            }
        }
        lemma_plain_text(s.skip(1), rest);
        assert(whole.skip(1) =~= s.skip(1) + rest);
        assert(seq![s[0]] + (s.skip(1) + naming::without_catch_alls(rest)) =~= s
            + naming::without_catch_alls(rest));
    }
}

proof fn lemma_documented_segment(seg: Seg, rest: Seq<char>)
    requires
        is_clear(seg),
    ensures
        naming::without_catch_alls(spelled(seg) + rest) == spelled(
            match seg {
                Seg::Wildcard(name) => Seg::Param(name),
                other => other,
            },
        ) + naming::without_catch_alls(rest),
{
    reveal_strlit("{");
    reveal_strlit("{*");
    reveal_strlit("}");
    match seg {
        Seg::Static(s) => {
            lemma_plain_text(s, rest);
        },
        Seg::Param(name) => {
            let tail = name + "}"@;
            assert(!tail.contains('{')) by {
                if tail.contains('{') {
                    let i = choose|i: int| 0 <= i < tail.len() && tail[i] == '{';
                    if i < name.len() {
                        assert(name[i] == '{');
                    }
                }
            }
            lemma_plain_text(tail, rest);
            let whole = spelled(seg) + rest;
            assert(whole[0] == '{');
            assert(whole.skip(1) =~= tail + rest);
            assert(whole[1] == tail[0]);
            assert(naming::without_catch_alls(whole) == seq!['{'] + naming::without_catch_alls(
                whole.skip(1),
            ));
            assert(seq!['{'] + (tail + naming::without_catch_alls(rest)) =~= spelled(seg)
                + naming::without_catch_alls(rest));
        },
        Seg::Wildcard(name) => {
            let tail = name + "}"@;
            assert(!tail.contains('{')) by {
                if tail.contains('{') {
                    let i = choose|i: int| 0 <= i < tail.len() && tail[i] == '{';
                    if i < name.len() {
                        assert(name[i] == '{');
                    }
                }
            }
            lemma_plain_text(tail, rest);
            let whole = spelled(seg) + rest;
            assert(whole[0] == '{' && whole[1] == '*');
            assert(whole.skip(2) =~= tail + rest);
            assert(seq!['{'] + (tail + naming::without_catch_alls(rest)) =~= spelled(
                Seg::Param(name),
            ) + naming::without_catch_alls(rest));
        },
    }
}

proof fn lemma_documented(pattern: Seq<Seg>, rest: Seq<char>)
    requires
        all_clear(pattern),
    ensures
        naming::without_catch_alls(spelled_all(pattern) + rest) == spelled_all(plainly(pattern))
            + naming::without_catch_alls(rest),
    decreases pattern.len(),
{
    if pattern.len() == 0 {
        assert(spelled_all(pattern) + rest =~= rest);
        assert(spelled_all(plainly(pattern)) + naming::without_catch_alls(rest)
            =~= naming::without_catch_alls(rest));
    } else {
        let front = pattern.drop_last();
        let seg = pattern.last();
        assert forall|i: int| 0 <= i < front.len() implies is_clear(#[trigger] front[i]) by {
            assert(front[i] == pattern[i]);
        }
        assert(is_clear(pattern[pattern.len() - 1]));
        reveal_strlit("/");
        let tail = "/"@ + (spelled(seg) + rest);
        lemma_documented(front, tail);
        lemma_plain_text("/"@, spelled(seg) + rest);
        lemma_documented_segment(seg, rest);
        assert(spelled_all(pattern) + rest =~= spelled_all(front) + tail);
        assert(plainly(pattern).drop_last() =~= plainly(front));
        let shown = match seg {
            Seg::Wildcard(name) => Seg::Param(name),
            other => other,
        };
        assert(plainly(pattern).last() == shown);
        assert(spelled_all(plainly(front)) + ("/"@ + (spelled(shown) + naming::without_catch_alls(
            rest,
        ))) =~= spelled_all(plainly(pattern)) + naming::without_catch_alls(rest));
    }
}

/// A template is documented segment for segment as it is, but for a catch-all,
/// which is documented as a plain parameter of the same name.
pub proof fn a_template_is_documented_plainly(pattern: Seq<Seg>)
    requires
        all_clear(pattern),
    ensures
        naming::without_catch_alls(spelled_all(pattern)) == spelled_all(plainly(pattern)),
{
    lemma_documented(pattern, Seq::empty());
    assert(spelled_all(pattern) + Seq::<char>::empty() =~= spelled_all(pattern));
    assert(naming::without_catch_alls(Seq::empty()) =~= Seq::<char>::empty());
    assert(spelled_all(plainly(pattern)) + Seq::<char>::empty() =~= spelled_all(plainly(pattern)));
}

/// The names that a template binds, in order.
pub open spec fn names(pattern: Seq<Seg>) -> Seq<Seq<char>>
    decreases pattern.len(),
{
    if pattern.len() == 0 {
        Seq::empty()
    } else {
        match pattern.last() {
            Seg::Static(_) => names(pattern.drop_last()),
            Seg::Param(name) => names(pattern.drop_last()).push(name),
            Seg::Wildcard(name) => names(pattern.drop_last()).push(name),
        }
    }
}

/// A handler is handed a value for each name that its template binds, in the
/// same order.
pub proof fn captures_are_named_by_the_template(pattern: Seq<Seg>, parts: Seq<Seq<char>>)
    ensures
        router::captures(pattern, parts).map_values(|c: (Seq<char>, Seq<char>)| c.0) == names(
            pattern,
        ),
    decreases pattern.len(),
{
    let f = |c: (Seq<char>, Seq<char>)| c.0;
    if pattern.len() == 0 {
        assert(router::captures(pattern, parts).map_values(f) =~= names(pattern));
    } else {
        captures_are_named_by_the_template(pattern.drop_last(), parts);
        let before = router::captures(pattern.drop_last(), parts);
        let all = router::captures(pattern, parts);
        match pattern.last() {
            Seg::Static(_) => {},
            Seg::Param(name) => {
                assert(all.map_values(f) =~= before.map_values(f).push(name));
            },
            Seg::Wildcard(name) => {
                assert(all.map_values(f) =~= before.map_values(f).push(name));
            },
        }
    }
}

/// Names behind text without an opening brace are found where they are.
proof fn lemma_names_skip(path: Seq<char>, from: int, to: int)
    requires
        0 <= from <= to <= path.len(),
        forall|i: int| from <= i < to ==> path[i] != '{',
    ensures
        operation::names_from(path, from) == operation::names_from(path, to),
{
    lemma_index_skip(path, '{', from, to);
}

proof fn lemma_index_skip(path: Seq<char>, c: char, from: int, to: int)
    requires
        0 <= from <= to <= path.len(),
        forall|i: int| from <= i < to ==> path[i] != c,
    ensures
        text::index_of(path, c, from) == text::index_of(path, c, to),
    decreases to - from,
{
    if from < to {
        lemma_index_skip(path, c, from + 1, to);
    }
}

/// The names of the last segments of a template, read from where they begin.
proof fn lemma_names(front: Seq<char>, rest: Seq<Seg>, k: int)
    requires
        all_clear(rest),
        0 <= k <= rest.len(),
    ensures
        operation::names_from(
            front + spelled_all(rest),
            (front + spelled_all(rest.take(k))).len() as int,
        ) == names_between(rest, k),
    decreases rest.len() - k,
{
    reveal_strlit("/");
    reveal_strlit("{");
    reveal_strlit("{*");
    reveal_strlit("}");
    let path = front + spelled_all(rest);
    let at = (front + spelled_all(rest.take(k))).len() as int;
    lemma_prefix(rest, k);
    if k == rest.len() {
        assert(rest.take(k) =~= rest);
        assert(at == path.len());
    } else {
        let seg = rest[k];
        assert(is_clear(rest[k]));
        lemma_prefix(rest, k + 1);
        let s = spelled(seg);
        let next = (front + spelled_all(rest.take(k + 1))).len() as int;
        assert(rest.take(k + 1).drop_last() =~= rest.take(k));
        assert(rest.take(k + 1).last() == seg);
        assert(spelled_all(rest.take(k + 1)) =~= spelled_all(rest.take(k)) + "/"@ + s);
        assert(next == at + 1 + s.len());
        assert(path.subrange(at, next) =~= "/"@ + s) by {
            let a = spelled_all(rest);
            let b = spelled_all(rest.take(k + 1));
            assert(a.take(b.len() as int) == b);
            assert(path.subrange(at, next) =~= a.take(b.len() as int).skip(
                spelled_all(rest.take(k)).len() as int,
            ));
        }
        let piece = path.subrange(at, next);
        assert forall|j: int| 0 <= j < 1 + s.len() implies path[at + j] == #[trigger] ("/"@ + s)[j] by {
            assert(piece[j] == path[at + j]);
        }
        lemma_names(front, rest, k + 1);
        match seg {
            Seg::Static(t) => {
                assert forall|i: int| at <= i < next implies path[i] != '{' by {
                    assert(path[at + (i - at)] == ("/"@ + s)[i - at]);
                    if i > at {
                        assert(t.contains(t[i - at - 1]));
                    }
                }
                lemma_names_skip(path, at, next);
            },
            Seg::Param(name) => {
                lemma_bound(path, at, next, name, 0);
            },
            Seg::Wildcard(name) => {
                lemma_bound(path, at, next, name, 1);
            },
        }
    }
}

/// One parameter, with or without a star.
proof fn lemma_bound(path: Seq<char>, at: int, next: int, name: Seq<char>, stars: int)
    requires
        0 <= at < next <= path.len(),
        stars == 0 || stars == 1,
        braceless(name),
        !(name.len() > 0 && name[0] == '*'),
        next == at + 3 + stars + name.len(),
        path.subrange(at, next) == "/"@ + ((if stars == 0 {
            "{"@
        } else {
            "{*"@
        }) + name + "}"@),
    ensures
        operation::names_from(path, at) == seq![name] + operation::names_from(path, next),
{
    reveal_strlit("/");
    reveal_strlit("{");
    reveal_strlit("{*");
    reveal_strlit("}");
    let whole = "/"@ + ((if stars == 0 {
        "{"@
    } else {
        "{*"@
    }) + name + "}"@);
    assert forall|j: int| 0 <= j < next - at implies path[at + j] == #[trigger] whole[j] by {
        assert(path.subrange(at, next)[j] == path[at + j]);
    }
    assert(path[at + 0] == whole[0]);
    assert(path[at + 1] == whole[1]);
    assert(whole[1] == '{' && whole[0] == '/');
    let n = name.len() as int;
    assert forall|i: int| 0 <= i < n implies path[at + 2 + stars + i] == name[i] by {
        assert(path[at + (2 + stars + i)] == whole[2 + stars + i]);
        assert(whole[2 + stars + i] == name[i]);
    }
    assert(path[at + (2 + stars + n)] == whole[2 + stars + n]);
    assert(whole[2 + stars + n] == '}');
    if stars == 1 {
        assert(path[at + 2] == whole[2]);
        assert(whole[2] == '*');
    }
    let open = at + 1;
    let close = at + 2 + stars + n;
    lemma_index_skip(path, '{', at, open);
    assert(text::index_of(path, '{', open) == Some(open));
    assert forall|i: int| open + 1 <= i < close implies path[i] != '}' by {
        if i >= at + 2 + stars {
            assert(path[at + 2 + stars + (i - at - 2 - stars)] == name[i - at - 2 - stars]);
            assert(name.contains(name[i - at - 2 - stars]));
        }
    }
    lemma_index_skip(path, '}', open + 1, close);
    assert(text::index_of(path, '}', close) == Some(close));
    let raw = path.subrange(open + 1, close);
    if stars == 0 {
        assert(raw =~= name);
    } else {
        assert(raw[0] == '*');
        assert(raw.skip(1) =~= name);
    }
    assert(operation::unstarred(raw) == name);
    assert(next == close + 1);
}

/// The names that the segments from `k` on bind, in order.
spec fn names_between(pattern: Seq<Seg>, k: int) -> Seq<Seq<char>>
    decreases pattern.len() - k,
{
    if k < 0 || k >= pattern.len() {
        Seq::empty()
    } else {
        match pattern[k] {
            Seg::Static(_) => names_between(pattern, k + 1),
            Seg::Param(name) => seq![name] + names_between(pattern, k + 1),
            Seg::Wildcard(name) => seq![name] + names_between(pattern, k + 1),
        }
    }
}

proof fn lemma_names_between(pattern: Seq<Seg>, k: int)
    requires
        0 <= k <= pattern.len(),
    ensures
        names(pattern.take(k)) + names_between(pattern, k) == names(pattern),
    decreases pattern.len() - k,
{
    if k == pattern.len() {
        assert(pattern.take(k) =~= pattern);
        assert(names(pattern) + Seq::<Seq<char>>::empty() =~= names(pattern));
    } else {
        lemma_names_between(pattern, k + 1);
        assert(pattern.take(k + 1).drop_last() =~= pattern.take(k));
        assert(pattern.take(k + 1).last() == pattern[k]);
        let a = names(pattern.take(k));
        let b = names_between(pattern, k + 1);
        match pattern[k] {
            Seg::Static(_) => {},
            Seg::Param(name) => {
                assert(a + (seq![name] + b) =~= a.push(name) + b);
            },
            Seg::Wildcard(name) => {
                assert(a + (seq![name] + b) =~= a.push(name) + b);
            },
        }
    }
}

proof fn lemma_prefix(pattern: Seq<Seg>, k: int)
    requires
        0 <= k <= pattern.len(),
    ensures
        spelled_all(pattern.take(k)).len() <= spelled_all(pattern).len(),
        spelled_all(pattern).take(spelled_all(pattern.take(k)).len() as int) == spelled_all(
            pattern.take(k),
        ),
    decreases pattern.len(),
{
    if k == pattern.len() {
        assert(pattern.take(k) =~= pattern);
        let s = spelled_all(pattern);
        assert(s.take(s.len() as int) =~= s);
    } else {
        let front = pattern.drop_last();
        lemma_prefix(front, k);
        assert(front.take(k) =~= pattern.take(k));
        let a = spelled_all(front);
        let b = spelled_all(pattern.take(k));
        assert(spelled_all(pattern).take(b.len() as int) =~= a.take(b.len() as int));
    }
}

/// The parameters that are documented of a template are those that a request is
/// read into: the names it binds, in order.
pub proof fn documented_parameters_are_those_that_are_captured(
    pattern: Seq<Seg>,
    parts: Seq<Seq<char>>,
)
    requires
        all_clear(pattern),
    ensures
        operation::names_from(spelled_all(pattern), 0) == router::captures(
            router::template(spelled_all(pattern)),
            parts,
        ).map_values(|c: (Seq<char>, Seq<char>)| c.0),
{
    assert forall|i: int| 0 <= i < pattern.len() implies can_be_spelled(#[trigger] pattern[i]) by {
        assert(is_clear(pattern[i]));
    }
    a_template_reads_as_written(pattern);
    captures_are_named_by_the_template(pattern, parts);
    let none = Seq::<char>::empty();
    lemma_names(none, pattern, 0);
    lemma_names_between(pattern, 0);
    assert(pattern.take(0) =~= Seq::<Seg>::empty());
    assert(none + spelled_all(pattern) =~= spelled_all(pattern));
    assert((none + spelled_all(pattern.take(0))).len() == 0);
    assert(names(pattern.take(0)) + names_between(pattern, 0) =~= names_between(pattern, 0));
}

/// What a segment adds to the id of an operation.
pub open spec fn id_suffix(seg: Seg) -> Seq<char> {
    match seg {
        Seg::Static(s) => "_"@ + s.map_values(
            |c: char|
                if c == '-' {
                    '_'
                } else {
                    c
                },
        ),
        Seg::Param(name) => "_by_"@ + name,
        Seg::Wildcard(name) => "_by_"@ + name,
    }
}

proof fn lemma_dashes(s: Seq<char>)
    ensures
        text::replaced(s, '-', "_"@) == s.map_values(
            |c: char|
                if c == '-' {
                    '_'
                } else {
                    c
                },
        ),
    decreases s.len(),
{
    let f = |c: char|
        if c == '-' {
            '_'
        } else {
            c
        };
    reveal_strlit("_");
    if s.len() > 0 {
        lemma_dashes(s.drop_last());
        let before = s.drop_last().map_values(f);
        assert(s.map_values(f) =~= before.push(f(s.last())));
        assert(before + "_"@ =~= before.push('_'));
    } else {
        assert(text::replaced(s, '-', "_"@) =~= s.map_values(f));
    }
}

/// An operation is named after its method and its template: the method in small
/// letters, then each segment, a parameter by its name.
pub proof fn an_operation_is_named_after_its_route(
    method: Seq<char>,
    pattern: Seq<Seg>,
    seg: Seg,
)
    requires
        all_clear(pattern.push(seg)),
    ensures
        naming::operation_id(method, spelled_all(pattern.push(seg))) == naming::operation_id(
            method,
            spelled_all(pattern),
        ) + id_suffix(seg),
        naming::operation_id(method, spelled_all(Seq::empty())) == text::ascii_lower(method),
{
    let all = pattern.push(seg);
    assert forall|i: int| 0 <= i < pattern.len() implies can_be_spelled(#[trigger] pattern[i]) by {
        assert(is_clear(all[i]));
    }
    assert forall|i: int| 0 <= i < all.len() implies can_be_spelled(#[trigger] all[i]) by {
        assert(is_clear(all[i]));
    }
    assert(is_clear(all[pattern.len() as int]));
    reveal_strlit("/");
    reveal_strlit("{");
    reveal_strlit("{*");
    reveal_strlit("}");
    assert(all.drop_last() =~= pattern);
    let path = spelled_all(pattern);
    let piece = spelled(seg);
    lemma_piece(seg);
    router::an_encoded_separator_adds_no_segment(path, piece);
    assert(spelled_all(all) =~= path.push('/') + piece);
    let before = router::segments(path);
    assert(before.push(piece).drop_last() =~= before);
    assert(naming::id_part(piece) == id_suffix(seg));
    let lower = text::ascii_lower(method);
    assert(lower + (naming::id_parts(before) + id_suffix(seg)) =~= lower + naming::id_parts(before)
        + id_suffix(seg));
    reveal_with_fuel(text::split, 2);
    reveal_with_fuel(text::non_empty, 2);
    assert(text::split(Seq::empty(), '/') =~= seq![Seq::<char>::empty()]);
    assert(seq![Seq::<char>::empty()].drop_last() =~= Seq::empty());
    assert(router::segments(Seq::empty()) =~= Seq::empty());
    assert(lower + naming::id_parts(Seq::empty()) =~= lower);
}

proof fn lemma_piece(seg: Seg)
    requires
        is_clear(seg),
    ensures
        spelled(seg).len() > 0,
        !spelled(seg).contains('/'),
        naming::id_part(spelled(seg)) == id_suffix(seg),
{
    reveal_strlit("{");
    reveal_strlit("{*");
    reveal_strlit("}");
    let s = spelled(seg);
    match seg {
        Seg::Static(t) => {
            lemma_dashes(t);
            if t[0] == '{' {
                assert(t.contains(t[0]));
            }
        },
        Seg::Param(name) => {
            assert(s.subrange(1, s.len() - 1) =~= name);
            if s.contains('/') {
                let i = choose|i: int| 0 <= i < s.len() && s[i] == '/';
                assert(name[i - 1] == '/');
            }
        },
        Seg::Wildcard(name) => {
            let inner = s.subrange(1, s.len() - 1);
            assert(inner[0] == '*');
            assert(inner.skip(1) =~= name);
            reveal_with_fuel(route::without_stars, 3);
            if s.contains('/') {
                let i = choose|i: int| 0 <= i < s.len() && s[i] == '/';
                assert(name[i - 2] == '/');
            }
        },
    }
}

} // verus!
