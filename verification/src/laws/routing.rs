//! What a request line is matched to, and what its handler is handed.

use crate::percent;
use crate::router;
use crate::router::{Route, Seg};
use crate::text;
use vstd::prelude::*;
use vstd::string::*;
use vstd::utf8::*;

verus! {

// ---------------------------------------------------------------------------
// captures
// ---------------------------------------------------------------------------

/// The path of several texts as a client writes it: each behind a slash and
/// percent-encoded.
pub open spec fn written_path(
    texts: Seq<Seq<char>>,
    keep: spec_fn(char) -> bool,
    capital: bool,
) -> Seq<char>
    decreases texts.len(),
{
    if texts.len() == 0 {
        Seq::empty()
    } else {
        written_path(texts.drop_last(), keep, capital) + "/"@ + percent::escaped(
            texts.last(),
            keep,
            capital,
        )
    }
}

/// Texts as a client writes them.
pub open spec fn written_texts(
    texts: Seq<Seq<char>>,
    keep: spec_fn(char) -> bool,
    capital: bool,
) -> Seq<Seq<char>> {
    texts.map_values(|t: Seq<char>| percent::escaped(t, keep, capital))
}

/// Each text of a written path is one segment, whatever it holds.
pub proof fn each_text_is_one_segment(
    texts: Seq<Seq<char>>,
    keep: spec_fn(char) -> bool,
    capital: bool,
)
    requires
        !keep('/'),
        forall|i: int| 0 <= i < texts.len() ==> (#[trigger] texts[i]).len() > 0,
    ensures
        router::segments(written_path(texts, keep, capital)) == written_texts(
            texts,
            keep,
            capital,
        ),
    decreases texts.len(),
{
    if texts.len() == 0 {
        reveal_with_fuel(text::split, 2);
        reveal_with_fuel(text::non_empty, 2);
        assert(text::split(Seq::empty(), '/') =~= seq![Seq::<char>::empty()]);
        assert(seq![Seq::<char>::empty()].drop_last() =~= Seq::empty());
        assert(router::segments(written_path(texts, keep, capital)) =~= Seq::empty());
        assert(written_texts(texts, keep, capital) =~= Seq::empty());
    } else {
        let front = texts.drop_last();
        let piece = percent::escaped(texts.last(), keep, capital);
        assert forall|i: int| 0 <= i < front.len() implies (#[trigger] front[i]).len() > 0 by {
            assert(front[i] == texts[i]);
        }
        each_text_is_one_segment(front, keep, capital);
        reveal_strlit("0123456789ABCDEF");
        reveal_strlit("0123456789abcdef");
        reveal_strlit("/");
        percent::lemma_escaped_within(texts.last(), keep, capital, '/');
        percent::lemma_escaped_len(texts.last(), keep, capital);
        assert(texts[texts.len() - 1].len() > 0);
        let path = written_path(front, keep, capital);
        router::an_encoded_separator_adds_no_segment(path, piece);
        assert(path + "/"@ + piece =~= path.push('/') + piece);
        assert(written_texts(texts, keep, capital) =~= written_texts(front, keep, capital).push(
            piece,
        ));
    }
}

/// Written texts with slashes between them decode to the texts with slashes
/// between them.
proof fn lemma_joined(
    texts: Seq<Seq<char>>,
    keep: spec_fn(char) -> bool,
    capital: bool,
    rest: Seq<u8>,
)
    requires
        !keep('%'),
    ensures
        percent::percent_decoded(
            encode_utf8(text::join(written_texts(texts, keep, capital), seq!['/'])) + rest,
        ) == encode_utf8(text::join(texts, seq!['/'])) + percent::percent_decoded(rest),
    decreases texts.len(),
{
    let sep = seq!['/'];
    let list = written_texts(texts, keep, capital);
    if texts.len() == 0 {
        assert(encode_utf8(text::join(list, sep)) + rest =~= rest);
        assert(encode_utf8(text::join(texts, sep)) + percent::percent_decoded(rest)
            =~= percent::percent_decoded(rest));
    } else if texts.len() == 1 {
        percent::lemma_decoded_escaped(texts[0], keep, capital, rest);
    } else {
        let front = texts.drop_last();
        let piece = percent::escaped(texts.last(), keep, capital);
        assert(list.drop_last() =~= written_texts(front, keep, capital));
        assert(list.last() == piece);
        let a = text::join(list.drop_last(), sep);
        let b = text::join(front, sep);
        let tail = encode_utf8(piece) + rest;
        percent::lemma_encode_concat(a + sep, piece);
        percent::lemma_encode_concat(a, sep);
        percent::lemma_encode_concat(b + sep, texts.last());
        percent::lemma_encode_concat(b, sep);
        assert(is_ascii_chars(sep));
        is_ascii_chars_encode_utf8(sep);
        assert(encode_utf8(sep) =~= seq![0x2fu8]);
        lemma_joined(front, keep, capital, encode_utf8(sep) + tail);
        percent::lemma_decoded_front(encode_utf8(sep), tail);
        percent::lemma_decoded_escaped(texts.last(), keep, capital, rest);
        assert(encode_utf8(text::join(list, sep)) + rest =~= encode_utf8(a) + (encode_utf8(sep)
            + tail));
        assert(encode_utf8(b) + (encode_utf8(sep) + (encode_utf8(texts.last())
            + percent::percent_decoded(rest))) =~= encode_utf8(text::join(texts, sep))
            + percent::percent_decoded(rest));
    }
}

/// How many of the first `k` segments of a template bind a name.
pub open spec fn bound_before(pattern: Seq<Seg>, k: int) -> nat
    decreases k,
{
    if k <= 0 {
        0
    } else {
        bound_before(pattern, k - 1) + if pattern[k - 1] is Static {
            0nat
        } else {
            1nat
        }
    }
}

proof fn lemma_captures(pattern: Seq<Seg>, parts: Seq<Seq<char>>, k: int)
    requires
        0 <= k <= pattern.len(),
    ensures
        router::captures(pattern.take(k), parts).len() == bound_before(pattern, k),
        router::captures(pattern.take(k), parts) == router::captures(pattern, parts).take(
            bound_before(pattern, k) as int,
        ),
        bound_before(pattern, k) <= router::captures(pattern, parts).len(),
    decreases pattern.len() - k, k,
{
    let here = router::captures(pattern.take(k), parts);
    if k == pattern.len() {
        assert(pattern.take(k) =~= pattern);
        lemma_captures_len(pattern, parts, k);
        assert(here =~= here.take(here.len() as int));
    } else {
        lemma_captures_len(pattern, parts, k);
        lemma_captures_len(pattern, parts, k + 1);
        lemma_captures(pattern, parts, k + 1);
        let next = router::captures(pattern.take(k + 1), parts);
        assert(pattern.take(k + 1).drop_last() =~= pattern.take(k));
        assert(here =~= next.take(here.len() as int));
        let all = router::captures(pattern, parts);
        assert(next.take(here.len() as int) =~= all.take(here.len() as int));
    }
}

proof fn lemma_captures_len(pattern: Seq<Seg>, parts: Seq<Seq<char>>, k: int)
    requires
        0 <= k <= pattern.len(),
    ensures
        router::captures(pattern.take(k), parts).len() == bound_before(pattern, k),
    decreases k,
{
    if k > 0 {
        assert(pattern.take(k).drop_last() =~= pattern.take(k - 1));
        lemma_captures_len(pattern, parts, k - 1);
    }
}

/// A handler is handed what the client meant: for every parameter of its
/// template, in template order and under its name, the text that the client
/// percent-encoded into that segment, and for a catch-all the texts of all the
/// segments that are left, with slashes between them.
pub proof fn a_handler_is_handed_what_was_sent(
    pattern: Seq<Seg>,
    texts: Seq<Seq<char>>,
    keep: spec_fn(char) -> bool,
    capital: bool,
    k: int,
)
    requires
        !keep('%'),
        !keep('/'),
        forall|i: int| 0 <= i < texts.len() ==> (#[trigger] texts[i]).len() > 0,
        0 <= k < pattern.len(),
        k < texts.len() || (pattern[k] is Wildcard && k == texts.len()),
    ensures
        ({
            let parts = router::segments(written_path(texts, keep, capital));
            let captured = router::captures(pattern, parts);
            let n = bound_before(pattern, k) as int;
            &&& captured.len() == bound_before(pattern, pattern.len() as int)
            &&& match pattern[k] {
                Seg::Static(_) => true,
                Seg::Param(name) => n < captured.len() && captured[n] == (name, texts[k]),
                Seg::Wildcard(name) => n < captured.len() && captured[n] == (
                    name,
                    text::join(texts.skip(k), "/"@),
                ),
            }
        }),
{
    each_text_is_one_segment(texts, keep, capital);
    let parts = router::segments(written_path(texts, keep, capital));
    let captured = router::captures(pattern, parts);
    let n = bound_before(pattern, k) as int;
    lemma_captures(pattern, parts, k);
    lemma_captures(pattern, parts, k + 1);
    lemma_captures(pattern, parts, pattern.len() as int);
    assert(pattern.take(pattern.len() as int) =~= pattern);
    assert(pattern.take(k + 1).drop_last() =~= pattern.take(k));
    let next = router::captures(pattern.take(k + 1), parts);
    assert(next == captured.take(bound_before(pattern, k + 1) as int));
    match pattern[k] {
        Seg::Static(_) => {},
        Seg::Param(name) => {
            percent::what_was_escaped_reads_back(texts[k], keep, capital);
            assert(next[n] == captured[n]);
        },
        Seg::Wildcard(name) => {
            assert(next[n] == captured[n]);
            reveal_strlit("/");
            assert("/"@ =~= seq!['/']);
            lemma_joined(texts.skip(k), keep, capital, Seq::empty());
            let all = written_texts(texts.skip(k), keep, capital);
            assert(parts.skip(k) =~= all);
            let raw = text::join(all, seq!['/']);
            let meant = text::join(texts.skip(k), seq!['/']);
            assert(encode_utf8(raw) + Seq::<u8>::empty() =~= encode_utf8(raw));
            assert(encode_utf8(meant) + percent::percent_decoded(Seq::empty()) =~= encode_utf8(
                meant,
            ));
            encode_utf8_valid_utf8(meant);
            encode_utf8_decode_utf8(meant);
        },
    }
}

// ---------------------------------------------------------------------------
// templates
// ---------------------------------------------------------------------------

/// A template segment as it is written.
pub open spec fn spelled(seg: Seg) -> Seq<char> {
    match seg {
        Seg::Static(s) => s,
        Seg::Param(name) => "{"@ + name + "}"@,
        Seg::Wildcard(name) => "{*"@ + name + "}"@,
    }
}

/// A segment that can be written: it holds no slash, and what it stands for
/// does not look like something else.
pub open spec fn can_be_spelled(seg: Seg) -> bool {
    match seg {
        Seg::Static(s) => s.len() > 0 && !s.contains('/') && !(s.first() == '{' && s.last() == '}'),
        Seg::Param(name) => !name.contains('/') && !(name.len() > 0 && name[0] == '*'),
        Seg::Wildcard(name) => !name.contains('/'),
    }
}

/// A template as it is written, each segment behind a slash.
pub open spec fn spelled_all(pattern: Seq<Seg>) -> Seq<char>
    decreases pattern.len(),
{
    if pattern.len() == 0 {
        Seq::empty()
    } else {
        spelled_all(pattern.drop_last()) + "/"@ + spelled(pattern.last())
    }
}

proof fn lemma_spelled(seg: Seg)
    requires
        can_be_spelled(seg),
    ensures
        spelled(seg).len() > 0,
        !spelled(seg).contains('/'),
        router::segment(spelled(seg)) == seg,
{
    reveal_strlit("{");
    reveal_strlit("{*");
    reveal_strlit("}");
    let s = spelled(seg);
    match seg {
        Seg::Static(_) => {},
        Seg::Param(name) => {
            assert(s.subrange(1, s.len() - 1) =~= name);
            if s.contains('/') {
                let i = choose|i: int| 0 <= i < s.len() && s[i] == '/';
                assert(name[i - 1] == '/');
            }
        },
        Seg::Wildcard(name) => {
            let inner = s.subrange(1, s.len() - 1);
            assert(inner[0] == '*');
            assert(inner.skip(1) =~= name);
            if s.contains('/') {
                let i = choose|i: int| 0 <= i < s.len() && s[i] == '/';
                assert(name[i - 2] == '/');
            }
        },
    }
}

/// A template reads as it is written: `{name}` binds one segment, `{*name}` the
/// rest, and anything else stands for itself.
pub proof fn a_template_reads_as_written(pattern: Seq<Seg>)
    requires
        forall|i: int| 0 <= i < pattern.len() ==> can_be_spelled(#[trigger] pattern[i]),
    ensures
        router::template(spelled_all(pattern)) == pattern,
    decreases pattern.len(),
{
    if pattern.len() == 0 {
        reveal_with_fuel(text::split, 2);
        reveal_with_fuel(text::non_empty, 2);
        assert(text::split(Seq::empty(), '/') =~= seq![Seq::<char>::empty()]);
        assert(seq![Seq::<char>::empty()].drop_last() =~= Seq::empty());
        assert(router::template(spelled_all(pattern)) =~= pattern);
    } else {
        let front = pattern.drop_last();
        assert forall|i: int| 0 <= i < front.len() implies can_be_spelled(#[trigger] front[i]) by {
            assert(front[i] == pattern[i]);
        }
        a_template_reads_as_written(front);
        assert(can_be_spelled(pattern[pattern.len() - 1]));
        lemma_spelled(pattern.last());
        reveal_strlit("/");
        let path = spelled_all(front);
        let piece = spelled(pattern.last());
        router::an_encoded_separator_adds_no_segment(path, piece);
        assert(path + "/"@ + piece =~= path.push('/') + piece);
        assert(router::template(spelled_all(pattern)) =~= router::template(path).push(
            pattern.last(),
        ));
        assert(front.push(pattern.last()) =~= pattern);
    }
}

/// A template without a catch-all, filled in: the static segments as they are,
/// and a value for each parameter.
pub open spec fn filled(pattern: Seq<Seg>, values: Seq<Seq<char>>) -> Seq<Seq<char>> {
    Seq::new(
        pattern.len(),
        |i: int|
            match pattern[i] {
                Seg::Static(s) => s,
                _ => values[i],
            },
    )
}

/// No segment is a catch-all.
pub open spec fn plain(pattern: Seq<Seg>) -> bool {
    forall|i: int| 0 <= i < pattern.len() ==> !(#[trigger] pattern[i] is Wildcard)
}

/// A template matches the paths that come of filling it in, whatever the
/// values, and no other path.
pub proof fn a_template_matches_what_fills_it(
    pattern: Seq<Seg>,
    values: Seq<Seq<char>>,
    parts: Seq<Seq<char>>,
)
    requires
        plain(pattern),
    ensures
        router::matches_path(pattern, filled(pattern, values)),
        router::matches_path(pattern, parts) ==> parts == filled(pattern, parts),
{
    if pattern.len() > 0 {
        assert(!(pattern[pattern.len() - 1] is Wildcard));
    }
    let made = filled(pattern, values);
    assert forall|k: int| 0 <= k < pattern.len() implies router::accepts(
        #[trigger] pattern[k],
        made[k],
    ) by {
        assert(!(pattern[k] is Wildcard));
    }
    if router::matches_path(pattern, parts) {
        assert forall|k: int| 0 <= k < pattern.len() implies parts[k] == #[trigger] filled(
            pattern,
            parts,
        )[k] by {
            assert(router::accepts(pattern[k], parts[k]));
        }
        assert(parts =~= filled(pattern, parts));
    }
}

/// A template that ends in a catch-all matches the paths that begin with what
/// fills in the rest of it, whatever follows, even nothing, and no other path.
pub proof fn a_catch_all_matches_whatever_follows(
    pattern: Seq<Seg>,
    name: Seq<char>,
    values: Seq<Seq<char>>,
    rest: Seq<Seq<char>>,
    parts: Seq<Seq<char>>,
)
    requires
        plain(pattern),
    ensures
        router::matches_path(pattern.push(Seg::Wildcard(name)), filled(pattern, values) + rest),
        router::matches_path(pattern.push(Seg::Wildcard(name)), parts) ==> parts.len()
            >= pattern.len() && parts.take(pattern.len() as int) == filled(pattern, parts),
{
    let whole = pattern.push(Seg::Wildcard(name));
    assert(whole.drop_last() =~= pattern);
    let made = filled(pattern, values) + rest;
    assert forall|k: int| 0 <= k < pattern.len() implies router::accepts(
        #[trigger] pattern[k],
        made[k],
    ) by {
        assert(!(pattern[k] is Wildcard));
        assert(made[k] == filled(pattern, values)[k]);
    }
    if router::matches_path(whole, parts) {
        assert forall|k: int| 0 <= k < pattern.len() implies parts.take(pattern.len() as int)[k]
            == #[trigger] filled(pattern, parts)[k] by {
            assert(router::accepts(pattern[k], parts[k]));
        }
        assert(parts.take(pattern.len() as int) =~= filled(pattern, parts));
    }
}

/// A request reaches a route of its own method and of no other.
pub proof fn a_route_answers_its_method_alone(route: Route, path: Seq<char>, method: Seq<char>)
    ensures
        router::answers(seq![route], 0, router::segments(path), method) <==> route.method == method
            && router::matches_path(route.pattern(), router::segments(path)),
        router::mounted(seq![route], router::segments(path), method) ==> route.method == method,
{
    let routes = seq![route];
    if router::mounted(routes, router::segments(path), method) {
        let i = choose|i: int| #[trigger]
            router::answers(routes, i, router::segments(path), method);
        assert(routes[i] == route);
    }
}

/// Of the routes that match a path, one that names a segment outright is
/// preferred to one that binds a parameter there, and a parameter to a
/// catch-all; and a template that ends where the path does is preferred to one
/// that goes on with a catch-all.
pub proof fn the_named_segment_comes_first(
    routes: Seq<Route>,
    i: int,
    j: int,
    k: int,
    parts: Seq<Seq<char>>,
    method: Seq<char>,
)
    requires
        router::wins(routes, i, parts, method),
        router::answers(routes, j, parts, method),
        0 <= k < routes[i].pattern().len(),
        k <= routes[j].pattern().len(),
        routes[i].pattern().take(k) == routes[j].pattern().take(k),
    ensures
        k < routes[j].pattern().len() && routes[j].pattern()[k] is Static
            ==> routes[i].pattern()[k] is Static,
        k < routes[j].pattern().len() && routes[j].pattern()[k] is Param
            ==> !(routes[i].pattern()[k] is Wildcard),
        k < routes[j].pattern().len(),
{
    let a = routes[i].pattern();
    let b = routes[j].pattern();
    if k < b.len() {
        router::specific_segments_win(routes, i, j, k, parts, method);
    } else {
        assert(a.take(k) == b.take(k));
        assert(router::beats_at(b, a, k));
        router::preference_is_asymmetric(a, b);
        assert(i != j);
    }
}

/// What could not be told apart is not mounted: the same method at the same
/// template, and two names for one place. Nor is anything mounted behind a
/// catch-all. A first route is mounted wherever its catch-all, if it has one,
/// comes last.
pub proof fn what_cannot_be_told_apart_is_refused(
    routes: Seq<Route>,
    method: Seq<char>,
    front: Seq<Seg>,
    a: Seq<char>,
    b: Seq<char>,
    rest: Seq<Seg>,
    other: Seq<Seg>,
    i: int,
)
    requires
        0 <= i < routes.len(),
        a != b,
        forall|k: int| 0 <= k < front.len() ==> can_be_spelled(#[trigger] front[k]),
        forall|k: int| 0 <= k < rest.len() ==> can_be_spelled(#[trigger] rest[k]),
        forall|k: int| 0 <= k < other.len() ==> can_be_spelled(#[trigger] other[k]),
        can_be_spelled(Seg::Param(a)),
        can_be_spelled(Seg::Param(b)),
    ensures
        routes[i].method == method ==> !router::admissible(routes, method, routes[i].path),
        routes[i].path == spelled_all(front.push(Seg::Param(a)) + other) ==> !router::admissible(
            routes,
            method,
            spelled_all(front.push(Seg::Param(b)) + rest),
        ),
        rest.len() > 0 ==> !router::admissible(
            routes,
            method,
            spelled_all(front.push(Seg::Wildcard(b)) + rest),
        ),
        (forall|k: int| 0 <= k < front.len() - 1 ==> !((#[trigger] front[k]) is Wildcard))
            ==> router::admissible(Seq::empty(), method, spelled_all(front)),
{
    let n = front.len() as int;
    if routes[i].method == method {
        assert(router::registered_twice(routes, router::template(routes[i].path), method));
    }
    let wanted = front.push(Seg::Param(b)) + rest;
    let there = front.push(Seg::Param(a)) + other;
    let caught = front.push(Seg::Wildcard(b)) + rest;
    assert forall|k: int| 0 <= k < wanted.len() implies can_be_spelled(#[trigger] wanted[k]) by {
        if k < n {
            assert(wanted[k] == front[k]);
        } else if k > n {
            assert(wanted[k] == rest[k - n - 1]);
        }
    }
    assert forall|k: int| 0 <= k < there.len() implies can_be_spelled(#[trigger] there[k]) by {
        if k < n {
            assert(there[k] == front[k]);
        } else if k > n {
            assert(there[k] == other[k - n - 1]);
        }
    }
    assert forall|k: int| 0 <= k < caught.len() implies can_be_spelled(#[trigger] caught[k]) by {
        if k < n {
            assert(caught[k] == front[k]);
        } else if k > n {
            assert(caught[k] == rest[k - n - 1]);
        }
    }
    a_template_reads_as_written(wanted);
    a_template_reads_as_written(there);
    a_template_reads_as_written(caught);
    a_template_reads_as_written(front);
    if routes[i].path == spelled_all(there) {
        assert(there.take(n) =~= wanted.take(n));
        assert(there[n] == Seg::Param(a) && wanted[n] == Seg::Param(b));
        assert(router::renames(routes[i], wanted, n));
        assert(router::refused_at(routes, wanted, n));
    }
    if rest.len() > 0 {
        assert(caught[n] == Seg::Wildcard(b));
        assert(router::misplaced(caught, n));
        assert(router::refused_at(routes, caught, n));
    }
    if forall|k: int| 0 <= k < front.len() - 1 ==> !((#[trigger] front[k]) is Wildcard) {
        let none = Seq::<Route>::empty();
        assert forall|k: int| 0 <= k < n implies !#[trigger] router::refused_at(none, front, k) by {
            assert(!router::renamed(none, front, k));
        }
    }
}

} // verus!
