//! Names and paths made from route templates.

use crate::derive::route;
use crate::docs;
use crate::router;
use crate::text;
use vstd::prelude::*;
use vstd::string::*;

verus! {

/// A path with a slash in front.
pub open spec fn rooted(path: Seq<char>) -> Seq<char> {
    if path.len() > 0 && path[0] == '/' {
        path
    } else {
        seq!['/'] + path
    }
}

/// A prefix and a path as one template.
pub open spec fn joined(prefix: Seq<char>, path: Seq<char>) -> Seq<char> {
    docs::without_slashes(prefix) + rooted(path)
}

/// Joins a prefix and a path into a template.
pub fn join_path(prefix: &str, path: &str) -> (out: String)
    ensures
        out@ == joined(prefix@, path@),
{
    let mut out = docs::trim_slashes(prefix);
    let ghost front = out@;
    let v = text::chars(path);
    if v.len() == 0 || v[0] != '/' {
        out.push('/');
        out.append(path);
        assert(out@ =~= front + (seq!['/'] + path@));
    } else {
        out.append(path);
    }
    out
}

/// A template with catch-alls written as plain parameters.
pub open spec fn without_catch_alls(path: Seq<char>) -> Seq<char>
    decreases path.len(),
{
    if path.len() == 0 {
        Seq::empty()
    } else if path[0] == '{' && path.len() > 1 && path[1] == '*' {
        seq!['{'] + without_catch_alls(path.skip(2))
    } else {
        seq![path[0]] + without_catch_alls(path.skip(1))
    }
}

/// OpenAPI has no catch-all syntax, so `{*rest}` is documented as `{rest}`.
pub fn document_path(path: &str) -> (out: String)
    ensures
        out@ == without_catch_alls(path@),
{
    let v = text::chars(path);
    let n: usize = v.len();
    let mut out = String::new();
    let mut i: usize = 0;
    assert(path@.skip(0) =~= path@);
    assert(out@ + without_catch_alls(path@) =~= without_catch_alls(path@));
    while i < n
        invariant
            v@ == path@,
            n == v@.len(),
            i <= n,
            out@ + without_catch_alls(path@.skip(i as int)) == without_catch_alls(path@),
        decreases n - i,
    {
        let ghost rest = path@.skip(i as int);
        let ghost before = out@;
        if v[i] == '{' && n - i > 1 && v[i + 1] == '*' {
            assert(rest.skip(2) =~= path@.skip(i + 2));
            out.push('{');
            assert(before + (seq!['{'] + without_catch_alls(rest.skip(2))) =~= out@
                + without_catch_alls(rest.skip(2)));
            i += 2;
        } else {
            assert(rest.skip(1) =~= path@.skip(i + 1));
            out.push(v[i]);
            assert(before + (seq![rest[0]] + without_catch_alls(rest.skip(1))) =~= out@
                + without_catch_alls(rest.skip(1)));
            i += 1;
        }
    }
    assert(path@.skip(n as int) =~= Seq::<char>::empty());
    assert(out@ + Seq::<char>::empty() =~= out@);
    out
}

/// What one segment of a template adds to an operation id.
pub open spec fn id_part(segment: Seq<char>) -> Seq<char> {
    if segment.len() >= 2 && segment[0] == '{' && segment.last() == '}' {
        "_by_"@ + route::without_stars(segment.subrange(1, segment.len() - 1))
    } else {
        "_"@ + text::replaced(segment, '-', "_"@)
    }
}

pub open spec fn id_parts(segments: Seq<Seq<char>>) -> Seq<char>
    decreases segments.len(),
{
    if segments.len() == 0 {
        Seq::empty()
    } else {
        id_parts(segments.drop_last()) + id_part(segments.last())
    }
}

/// The operation id a route has by default.
pub open spec fn operation_id(method: Seq<char>, path: Seq<char>) -> Seq<char> {
    text::ascii_lower(method) + id_parts(router::segments(path))
}

fn segment_id(segment: &str) -> (out: String)
    ensures
        out@ == id_part(segment@),
{
    let v = text::chars(segment);
    let n: usize = v.len();
    if n >= 2 && v[0] == '{' && v[n - 1] == '}' {
        let mut from: usize = 1;
        let ghost inner = segment@.subrange(1, n - 1);
        assert(inner.skip(0) =~= inner);
        while from < n - 1 && v[from] == '*'
            invariant
                1 <= from <= n - 1,
                n == v@.len(),
                v@ == segment@,
                inner == segment@.subrange(1, n - 1),
                route::without_stars(inner) == route::without_stars(inner.skip(from - 1)),
            decreases n - from,
        {
            assert(inner.skip(from - 1).skip(1) =~= inner.skip(from as int));
            from += 1;
        }
        assert(v@.subrange(from as int, n - 1) =~= inner.skip(from - 1));
        let mut out = "_by_".to_owned();
        out.append(text::text_of(&v, from, n - 1).as_str());
        out
    } else {
        let mut out = "_".to_owned();
        out.append(text::replace_char(segment, '-', "_").as_str());
        out
    }
}

/// `GET /users/{id}` becomes `get_users_by_id`.
pub fn default_operation_id(method: &str, path: &str) -> (out: String)
    ensures
        out@ == operation_id(method@, path@),
{
    let mut out = text::lower_text(method);
    let ghost front = out@;
    let parts = text::split_text(path, '/');
    let ghost all = text::split(path@, '/');
    assert(all.take(0) =~= Seq::<Seq<char>>::empty());
    assert(front + id_parts(text::non_empty(all.take(0))) =~= front);
    for i in 0..parts.len()
        invariant
            all == text::views(parts@),
            out@ == front + id_parts(text::non_empty(all.take(i as int))),
    {
        assert(all.take(i + 1).drop_last() =~= all.take(i as int));
        assert(all[i as int] == parts@[i as int]@);
        let ghost before = text::non_empty(all.take(i as int));
        if !parts[i].as_str().is_empty() {
            let part = segment_id(parts[i].as_str());
            assert(before.push(parts@[i as int]@).drop_last() =~= before);
            assert(front + (id_parts(before) + part@) =~= front + id_parts(before) + part@);
            out.append(part.as_str());
        }
    }
    assert(all.take(all.len() as int) =~= all);
    out
}

// ---------------------------------------------------------------------------
// what joining means
// ---------------------------------------------------------------------------

proof fn lemma_non_empty_concat(a: Seq<Seq<char>>, b: Seq<Seq<char>>)
    ensures
        text::non_empty(a + b) == text::non_empty(a) + text::non_empty(b),
    decreases b.len(),
{
    if b.len() == 0 {
        assert(a + b =~= a);
        assert(text::non_empty(a) + text::non_empty(b) =~= text::non_empty(a));
    } else {
        lemma_non_empty_concat(a, b.drop_last());
        assert((a + b).drop_last() =~= a + b.drop_last());
        assert(text::non_empty(a + b) =~= text::non_empty(a) + text::non_empty(b));
    }
}

/// A separator between two texts separates their pieces.
proof fn lemma_split_between(a: Seq<char>, b: Seq<char>, sep: char)
    ensures
        text::split(a.push(sep) + b, sep) == text::split(a, sep) + text::split(b, sep),
    decreases b.len(),
{
    text::lemma_split_len(b, sep);
    if b.len() == 0 {
        assert(a.push(sep) + b =~= a.push(sep));
        assert(a.push(sep).drop_last() =~= a);
        assert(text::split(a, sep).push(Seq::<char>::empty()) =~= text::split(a, sep)
            + text::split(b, sep));
    } else {
        lemma_split_between(a, b.drop_last(), sep);
        text::lemma_split_len(b.drop_last(), sep);
        assert((a.push(sep) + b).drop_last() =~= a.push(sep) + b.drop_last());
        let before = text::split(b.drop_last(), sep);
        let whole = text::split(a, sep) + before;
        if b.last() == sep {
            assert(whole.push(Seq::<char>::empty()) =~= text::split(a, sep) + before.push(
                Seq::<char>::empty(),
            ));
        } else {
            assert(whole.drop_last() =~= text::split(a, sep) + before.drop_last());
            assert(whole.drop_last().push(whole.last().push(b.last())) =~= text::split(a, sep)
                + before.drop_last().push(before.last().push(b.last())));
        }
    }
}

proof fn lemma_without_slashes(s: Seq<char>)
    ensures
        router::segments(docs::without_slashes(s)) == router::segments(s),
    decreases s.len(),
{
    if s.len() > 0 && s.last() == '/' {
        lemma_without_slashes(s.drop_last());
        let before = text::split(s.drop_last(), '/');
        assert(before.push(Seq::<char>::empty()).drop_last() =~= before);
    }
}

/// Joining a prefix and a path puts their segments one after the other, whatever
/// slashes stand at the seam.
pub proof fn joining_composes_segments(prefix: Seq<char>, path: Seq<char>)
    ensures
        router::segments(joined(prefix, path)) == router::segments(prefix) + router::segments(
            path,
        ),
{
    let front = docs::without_slashes(prefix);
    lemma_without_slashes(prefix);
    let rest = rooted(path).skip(1);
    assert(rooted(path) =~= seq!['/'] + rest);
    assert(joined(prefix, path) =~= front.push('/') + rest);
    lemma_split_between(front, rest, '/');
    lemma_non_empty_concat(text::split(front, '/'), text::split(rest, '/'));
    // The slash in front of the path adds no segment.
    if path.len() > 0 && path[0] == '/' {
        let none = Seq::<char>::empty();
        lemma_split_between(none, rest, '/');
        lemma_non_empty_concat(text::split(none, '/'), text::split(rest, '/'));
        assert(none.push('/') + rest =~= path);
        reveal_with_fuel(text::non_empty, 2);
        assert(text::split(none, '/') =~= seq![none]);
        assert(text::non_empty(text::split(none, '/')) =~= Seq::<Seq<char>>::empty());
        assert(text::non_empty(text::split(none, '/')) + text::non_empty(text::split(rest, '/'))
            =~= text::non_empty(text::split(rest, '/')));
    } else {
        assert(rest =~= path);
    }
}

/// Nesting twice composes prefixes in order.
pub proof fn nesting_composes_prefixes(outer: Seq<char>, inner: Seq<char>, path: Seq<char>)
    ensures
        router::segments(joined(outer, joined(inner, path))) == router::segments(outer)
            + router::segments(inner) + router::segments(path),
{
    joining_composes_segments(inner, path);
    joining_composes_segments(outer, joined(inner, path));
    assert(router::segments(outer) + (router::segments(inner) + router::segments(path))
        =~= router::segments(outer) + router::segments(inner) + router::segments(path));
}

} // verus!
