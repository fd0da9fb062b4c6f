//! Text as sequences of characters.
//!
//! The rest of the library states what it does to text over `Seq<char>`. This
//! module holds the vocabulary those statements share, and the functions that
//! compute it.

use vstd::prelude::*;
use vstd::string::*;

verus! {

/// `String::push` appends one character.
pub assume_specification[ std::string::String::push ](s: &mut std::string::String, c: char)
    ensures
        final(s)@ == old(s)@.push(c),
;

/// The characters of each string of a list.
pub open spec fn views(list: Seq<String>) -> Seq<Seq<char>> {
    list.map_values(|s: String| s@)
}

/// The characters of `s`, in order.
pub fn chars(s: &str) -> (out: Vec<char>)
    ensures
        out@ == s@,
{
    let mut out: Vec<char> = Vec::new();
    for c in it: s.chars()
        invariant
            out@ == it.seq().take(it.index() as int),
            it.seq() == s@,
    {
        out.push(c);
    }
    out
}

/// The text made of `chars[from..to]`.
pub fn text_of(chars: &Vec<char>, from: usize, to: usize) -> (out: String)
    requires
        from <= to <= chars@.len(),
    ensures
        out@ == chars@.subrange(from as int, to as int),
{
    let mut out = String::new();
    let mut i: usize = from;
    while i < to
        invariant
            from <= i <= to <= chars@.len(),
            out@ == chars@.subrange(from as int, i as int),
        decreases to - i,
    {
        out.push(chars[i]);
        i += 1;
    }
    out
}

/// Whether two texts hold the same characters.
pub fn same(a: &str, b: &str) -> (r: bool)
    ensures
        r == (a@ == b@),
{
    let x = chars(a);
    let y = chars(b);
    same_chars(&x, &y)
}

/// Whether two lists of characters are the same.
pub fn same_chars(a: &Vec<char>, b: &Vec<char>) -> (r: bool)
    ensures
        r == (a@ == b@),
{
    if a.len() != b.len() {
        return false;
    }
    let mut i: usize = 0;
    while i < a.len()
        invariant
            i <= a@.len() == b@.len(),
            a@.take(i as int) == b@.take(i as int),
        decreases a@.len() - i,
    {
        if a[i] != b[i] {
            assert(a@[i as int] != b@[i as int]);
            return false;
        }
        assert(a@.take(i + 1) == a@.take(i as int).push(a@[i as int]));
        assert(b@.take(i + 1) == b@.take(i as int).push(b@[i as int]));
        i += 1;
    }
    assert(a@.take(i as int) == a@);
    assert(b@.take(i as int) == b@);
    true
}

/// The pieces of `s` between occurrences of `sep`: always at least one.
pub open spec fn split(s: Seq<char>, sep: char) -> Seq<Seq<char>>
    decreases s.len(),
{
    if s.len() == 0 {
        seq![Seq::empty()]
    } else {
        let before = split(s.drop_last(), sep);
        if s.last() == sep {
            before.push(Seq::empty())
        } else {
            before.drop_last().push(before.last().push(s.last()))
        }
    }
}

/// The pieces of a list joined with `sep` between neighbours.
pub open spec fn join(list: Seq<Seq<char>>, sep: Seq<char>) -> Seq<char>
    decreases list.len(),
{
    if list.len() == 0 {
        Seq::empty()
    } else if list.len() == 1 {
        list[0]
    } else {
        join(list.drop_last(), sep) + sep + list.last()
    }
}

/// The members of a list that hold at least one character.
pub open spec fn non_empty(list: Seq<Seq<char>>) -> Seq<Seq<char>>
    decreases list.len(),
{
    if list.len() == 0 {
        Seq::empty()
    } else if list.last().len() == 0 {
        non_empty(list.drop_last())
    } else {
        non_empty(list.drop_last()).push(list.last())
    }
}

/// Whether `a` comes before `b` in dictionary order of code points.
pub open spec fn precedes(a: Seq<char>, b: Seq<char>) -> bool {
    exists|k: int| #[trigger] diverges(a, b, k)
}

/// `a` and `b` agree on their first `k` characters, after which `a` ends or
/// holds the smaller character.
pub open spec fn diverges(a: Seq<char>, b: Seq<char>, k: int) -> bool {
    &&& 0 <= k <= a.len()
    &&& k < b.len()
    &&& a.take(k) == b.take(k)
    &&& k < a.len() ==> (a[k] as int) < (b[k] as int)
}

/// Splitting never yields an empty list.
pub proof fn lemma_split_len(s: Seq<char>, sep: char)
    ensures
        split(s, sep).len() >= 1,
    decreases s.len(),
{
    if s.len() > 0 {
        lemma_split_len(s.drop_last(), sep);
    }
}

/// Text without a separator goes on the last piece.
pub proof fn lemma_split_append(a: Seq<char>, b: Seq<char>, sep: char)
    requires
        !b.contains(sep),
    ensures
        split(a + b, sep) == split(a, sep).drop_last().push(split(a, sep).last() + b),
    decreases b.len(),
{
    lemma_split_len(a, sep);
    if b.len() == 0 {
        assert(a + b =~= a);
        assert(split(a, sep).last() + b =~= split(a, sep).last());
        assert(split(a, sep) =~= split(a, sep).drop_last().push(split(a, sep).last()));
    } else {
        let front = b.drop_last();
        assert(!front.contains(sep)) by {
            if front.contains(sep) {
                let i = choose|i: int| 0 <= i < front.len() && front[i] == sep;
                assert(b[i] == sep);
            }
        }
        lemma_split_append(a, front, sep);
        assert((a + b).drop_last() =~= a + front);
        assert(b[b.len() - 1] != sep);
        let before = split(a + front, sep);
        assert(before.drop_last() =~= split(a, sep).drop_last());
        assert(before.last().push(b.last()) =~= split(a, sep).last() + b);
    }
}

/// Each piece followed by the separator.
pub open spec fn ended(list: Seq<Seq<char>>, sep: char) -> Seq<char>
    decreases list.len(),
{
    if list.len() == 0 {
        Seq::empty()
    } else {
        (ended(list.drop_last(), sep) + list.last()).push(sep)
    }
}

/// Splitting pieces that each end in the separator gives the pieces back, and
/// an empty one behind the last separator.
pub proof fn lemma_split_ended(list: Seq<Seq<char>>, sep: char)
    requires
        forall|i: int| 0 <= i < list.len() ==> !(#[trigger] list[i]).contains(sep),
    ensures
        split(ended(list, sep), sep) == list.push(Seq::empty()),
    decreases list.len(),
{
    if list.len() == 0 {
        assert(list.push(Seq::<char>::empty()) =~= seq![Seq::<char>::empty()]);
    } else {
        lemma_split_ended(list.drop_last(), sep);
        let before = ended(list.drop_last(), sep);
        assert(!list[list.len() - 1].contains(sep));
        lemma_split_append(before, list.last(), sep);
        let line = before + list.last();
        assert(Seq::<char>::empty() + list.last() =~= list.last());
        assert(split(line, sep) =~= list.drop_last().push(list.last()));
        assert(list.drop_last().push(list.last()) =~= list);
        assert(line.push(sep).drop_last() =~= line);
    }
}

/// No piece holds the separator.
pub proof fn lemma_split_pieces(s: Seq<char>, sep: char, i: int)
    requires
        0 <= i < split(s, sep).len(),
    ensures
        !split(s, sep)[i].contains(sep),
    decreases s.len(),
{
    if s.len() > 0 {
        let before = split(s.drop_last(), sep);
        lemma_split_len(s.drop_last(), sep);
        if i < before.len() {
            lemma_split_pieces(s.drop_last(), sep, i);
        }
        if s.last() != sep && i == before.len() - 1 {
            let piece = before.last().push(s.last());
            if piece.contains(sep) {
                let j = choose|j: int| 0 <= j < piece.len() && piece[j] == sep;
                assert(before.last()[j] == sep);
            }
        }
    }
}

/// The pieces hold no character that the text does not hold.
pub proof fn lemma_split_within(s: Seq<char>, sep: char, i: int, c: char)
    requires
        0 <= i < split(s, sep).len(),
        !s.contains(c),
    ensures
        !split(s, sep)[i].contains(c),
    decreases s.len(),
{
    if s.len() > 0 {
        let before = split(s.drop_last(), sep);
        lemma_split_len(s.drop_last(), sep);
        assert(!s.drop_last().contains(c)) by {
            if s.drop_last().contains(c) {
                let j = choose|j: int| 0 <= j < s.drop_last().len() && s.drop_last()[j] == c;
                assert(s[j] == c);
            }
        }
        assert(s[s.len() - 1] != c);
        if i < before.len() {
            lemma_split_within(s.drop_last(), sep, i, c);
        }
        if s.last() != sep && i == before.len() - 1 {
            let piece = before.last().push(s.last());
            if piece.contains(c) {
                let j = choose|j: int| 0 <= j < piece.len() && piece[j] == c;
                assert(before.last()[j] == c);
            }
        }
    }
}

/// Joining the pieces with the separator gives the text back.
pub proof fn lemma_join_split(s: Seq<char>, sep: char)
    ensures
        join(split(s, sep), seq![sep]) == s,
    decreases s.len(),
{
    if s.len() == 0 {
        assert(join(split(s, sep), seq![sep]) =~= s);
    } else {
        let before = split(s.drop_last(), sep);
        lemma_split_len(s.drop_last(), sep);
        lemma_join_split(s.drop_last(), sep);
        assert(s =~= s.drop_last().push(s.last()));
        if s.last() == sep {
            let all = before.push(Seq::empty());
            assert(all.drop_last() =~= before);
            assert(join(all, seq![sep]) =~= s);
        } else {
            let all = before.drop_last().push(before.last().push(s.last()));
            assert(all.drop_last() =~= before.drop_last());
            assert(join(all, seq![sep]) =~= join(before, seq![sep]).push(s.last()));
        }
    }
}

pub proof fn lemma_views_push(list: Seq<String>, s: String)
    ensures
        views(list.push(s)) == views(list).push(s@),
{
    assert(views(list.push(s)) =~= views(list).push(s@));
}

/// Splits `s` at every `sep`.
pub fn split_text(s: &str, sep: char) -> (out: Vec<String>)
    ensures
        views(out@) == split(s@, sep),
{
    let v = chars(s);
    let mut done: Vec<String> = Vec::new();
    let mut current = String::new();
    let mut i: usize = 0;
    assert(v@.take(0) == Seq::<char>::empty());
    assert(views(done@).push(current@) == split(v@.take(0), sep));
    while i < v.len()
        invariant
            i <= v@.len(),
            views(done@).push(current@) == split(v@.take(i as int), sep),
        decreases v@.len() - i,
    {
        let ghost before = split(v@.take(i as int), sep);
        assert(v@.take(i + 1).drop_last() == v@.take(i as int));
        assert(before.drop_last() == views(done@));
        if v[i] == sep {
            proof {
                lemma_views_push(done@, current);
            }
            done.push(current);
            current = String::new();
        } else {
            current.push(v[i]);
        }
        i += 1;
    }
    assert(v@.take(i as int) == s@);
    proof {
        lemma_views_push(done@, current);
    }
    done.push(current);
    done
}

/// Whether `c` occurs in `s`.
pub fn has_char(s: &str, c: char) -> (r: bool)
    ensures
        r == s@.contains(c),
{
    let v = chars(s);
    let mut i: usize = 0;
    while i < v.len()
        invariant
            i <= v@.len(),
            v@ == s@,
            forall|j: int| 0 <= j < i ==> v@[j] != c,
        decreases v@.len() - i,
    {
        if v[i] == c {
            assert(s@[i as int] == c);
            return true;
        }
        i += 1;
    }
    false
}

/// Joins the members of `list` from `from` on with `sep`.
pub fn join_text(list: &Vec<String>, from: usize, sep: &str) -> (out: String)
    requires
        from <= list@.len(),
    ensures
        out@ == join(views(list@).skip(from as int), sep@),
{
    let ghost all = views(list@).skip(from as int);
    let mut out = String::new();
    let mut i: usize = from;
    assert(all.take(0) == Seq::<Seq<char>>::empty());
    while i < list.len()
        invariant
            from <= i <= list@.len(),
            all == views(list@).skip(from as int),
            out@ == join(all.take(i - from), sep@),
        decreases list@.len() - i,
    {
        let ghost n = i - from;
        assert(all.take(n + 1).drop_last() == all.take(n));
        assert(all.take(n + 1).last() == list@[i as int]@);
        if i > from {
            out.append(sep);
        }
        out.append(list[i].as_str());
        i += 1;
    }
    assert(all.take(i - from) == all);
    out
}

/// Whether `a` comes before `b` in dictionary order of code points.
pub fn less(a: &str, b: &str) -> (r: bool)
    ensures
        r == precedes(a@, b@),
{
    let x = chars(a);
    let y = chars(b);
    let mut k: usize = 0;
    while k < x.len() && k < y.len() && x[k] == y[k]
        invariant
            k <= x@.len(),
            k <= y@.len(),
            x@.take(k as int) == y@.take(k as int),
        decreases x@.len() - k,
    {
        assert(x@.take(k + 1) == x@.take(k as int).push(x@[k as int]));
        assert(y@.take(k + 1) == y@.take(k as int).push(y@[k as int]));
        k += 1;
    }
    let r: bool = k < y.len() && (k == x.len() || x[k] < y[k]);
    proof {
        if r {
            assert(diverges(x@, y@, k as int));
        } else if precedes(x@, y@) {
            let j = choose|j: int| #[trigger] diverges(x@, y@, j);
            if j < k {
                assert(x@.take(k as int)[j] == y@.take(k as int)[j]);
            } else if j > k {
                assert(x@.take(j)[k as int] == y@.take(j)[k as int]);
            }
        }
    }
    r
}

/// The order on text is a strict total order.
pub proof fn precedes_is_a_strict_total_order(a: Seq<char>, b: Seq<char>, c: Seq<char>)
    ensures
        !precedes(a, a),
        precedes(a, b) && precedes(b, c) ==> precedes(a, c),
        a == b || precedes(a, b) || precedes(b, a),
        !(precedes(a, b) && precedes(b, a)),
{
    lemma_precedes_irreflexive(a);
    if precedes(a, b) && precedes(b, c) {
        lemma_precedes_transitive(a, b, c);
    }
    if precedes(a, b) && precedes(b, a) {
        lemma_precedes_transitive(a, b, a);
    }
    assert(a.take(0) == b.take(0));
    lemma_precedes_total(a, b, 0);
}

proof fn lemma_precedes_irreflexive(a: Seq<char>)
    ensures
        !precedes(a, a),
{
    if precedes(a, a) {
        let k = choose|k: int| #[trigger] diverges(a, a, k);
        assert(false);
    }
}

proof fn lemma_precedes_transitive(a: Seq<char>, b: Seq<char>, c: Seq<char>)
    requires
        precedes(a, b),
        precedes(b, c),
    ensures
        precedes(a, c),
{
    let j = choose|k: int| #[trigger] diverges(a, b, k);
    let k = choose|k: int| #[trigger] diverges(b, c, k);
    if j < k {
        assert(b.take(k)[j] == c.take(k)[j]);
        assert(b.take(k).take(j) == b.take(j));
        assert(c.take(k).take(j) == c.take(j));
        assert(diverges(a, c, j));
    } else {
        assert(a.take(j).take(k) == a.take(k));
        assert(b.take(j).take(k) == b.take(k));
        if k < j {
            assert(a.take(j)[k] == b.take(j)[k]);
        }
        assert(diverges(a, c, k));
    }
}

proof fn lemma_precedes_total(a: Seq<char>, b: Seq<char>, k: int)
    requires
        0 <= k <= a.len(),
        k <= b.len(),
        a.take(k) == b.take(k),
    ensures
        a == b || precedes(a, b) || precedes(b, a),
    decreases a.len() - k,
{
    if k == a.len() && k == b.len() {
        assert(a == a.take(k));
        assert(b == b.take(k));
    } else if k == a.len() {
        assert(diverges(a, b, k));
    } else if k == b.len() {
        assert(diverges(b, a, k));
    } else if (a[k] as int) < (b[k] as int) {
        assert(diverges(a, b, k));
    } else if (b[k] as int) < (a[k] as int) {
        assert(diverges(b, a, k));
    } else {
        assert(a[k] == b[k]);
        assert(a.take(k + 1) == a.take(k).push(a[k]));
        assert(b.take(k + 1) == b.take(k).push(b[k]));
        lemma_precedes_total(a, b, k + 1);
    }
}

/// A decimal digit.
pub open spec fn digit(d: nat) -> char {
    (48 + d) as char
}

/// A hexadecimal digit.
pub open spec fn hex_digit(d: nat) -> char {
    if d < 10 {
        (48 + d) as char
    } else {
        (87 + d) as char
    }
}

/// A number in decimal.
pub open spec fn decimal(n: nat) -> Seq<char>
    decreases n,
{
    if n < 10 {
        seq![digit(n)]
    } else {
        decimal(n / 10).push(digit(n % 10))
    }
}

/// Writes a number in decimal.
pub fn decimal_text(n: u64) -> (out: String)
    ensures
        out@ == decimal(n as nat),
    decreases n,
{
    if n < 10 {
        let mut out = String::new();
        out.push((48 + n as u8) as char);
        assert(out@ =~= decimal(n as nat));
        out
    } else {
        let mut out = decimal_text(n / 10);
        out.push((48 + (n % 10) as u8) as char);
        out
    }
}

/// Writes a wide number in decimal.
pub fn decimal_wide(n: u128) -> (out: String)
    ensures
        out@ == decimal(n as nat),
    decreases n,
{
    if n <= u64::MAX as u128 {
        decimal_text(n as u64)
    } else {
        let mut out = decimal_wide(n / 10);
        out.push((48 + (n % 10) as u8) as char);
        out
    }
}

/// An integer in decimal, with a sign where it is negative.
pub open spec fn integer(n: int) -> Seq<char> {
    if n < 0 {
        "-"@ + decimal((-n) as nat)
    } else {
        decimal(n as nat)
    }
}

/// Writes an integer in decimal.
pub fn integer_text(n: i128) -> (out: String)
    ensures
        out@ == integer(n as int),
{
    if n < 0 {
        let mut out = "-".to_owned();
        out.append(decimal_wide((-(n + 1)) as u128 + 1).as_str());
        out
    } else {
        decimal_wide(n as u128)
    }
}

/// The text of an optional string.
pub open spec fn opt(s: Option<String>) -> Option<Seq<char>> {
    match s {
        Some(t) => Some(t@),
        None => None,
    }
}

/// Whether `s` begins with `prefix`.
pub open spec fn starts_with(s: Seq<char>, prefix: Seq<char>) -> bool {
    prefix.len() <= s.len() && s.take(prefix.len() as int) == prefix
}

/// Whether `s` begins with `prefix`.
pub fn has_prefix(s: &str, prefix: &str) -> (r: bool)
    ensures
        r == starts_with(s@, prefix@),
{
    let v = chars(s);
    let p = chars(prefix);
    if p.len() > v.len() {
        return false;
    }
    let mut i: usize = 0;
    while i < p.len()
        invariant
            i <= p@.len() <= v@.len(),
            v@ == s@,
            p@ == prefix@,
            forall|j: int| 0 <= j < i ==> v@[j] == p@[j],
        decreases p@.len() - i,
    {
        if v[i] != p[i] {
            assert(s@.take(prefix@.len() as int)[i as int] != prefix@[i as int]);
            return false;
        }
        i += 1;
    }
    assert(s@.take(prefix@.len() as int) =~= prefix@);
    true
}

/// Whether a list of texts holds `t`.
pub fn has_text(list: &Vec<String>, t: &str) -> (r: bool)
    ensures
        r == views(list@).contains(t@),
{
    for i in 0..list.len()
        invariant
            forall|j: int| 0 <= j < i ==> (#[trigger] list@[j])@ != t@,
    {
        if same(list[i].as_str(), t) {
            assert(views(list@)[i as int] == t@);
            return true;
        }
    }
    assert forall|j: int| 0 <= j < views(list@).len() implies views(list@)[j] != t@ by {
        assert(views(list@)[j] == list@[j]@);
    }
    false
}

/// A copy of a list of texts.
pub fn copy_texts(list: &Vec<String>) -> (out: Vec<String>)
    ensures
        out@ == list@,
{
    let mut out: Vec<String> = Vec::new();
    for i in 0..list.len()
        invariant
            out@ == list@.take(i as int),
    {
        out.push(list[i].clone());
        assert(out@ =~= list@.take(i + 1));
    }
    assert(list@.take(list@.len() as int) =~= list@);
    out
}

/// The characters with Unicode's White_Space property.
pub open spec fn is_white(c: char) -> bool {
    let n = c as int;
    ||| 0x09 <= n <= 0x0d
    ||| n == 0x20
    ||| n == 0x85
    ||| n == 0xa0
    ||| n == 0x1680
    ||| 0x2000 <= n <= 0x200a
    ||| n == 0x2028
    ||| n == 0x2029
    ||| n == 0x202f
    ||| n == 0x205f
    ||| n == 0x3000
}

/// Whether `c` is white space.
pub fn white(c: char) -> (r: bool)
    ensures
        r == is_white(c),
{
    let n: u32 = c as u32;
    (0x09 <= n && n <= 0x0d) || n == 0x20 || n == 0x85 || n == 0xa0 || n == 0x1680 || (0x2000 <= n
        && n <= 0x200a) || n == 0x2028 || n == 0x2029 || n == 0x202f || n == 0x205f || n == 0x3000
}

/// `s` without white space at either end.
pub open spec fn trim(s: Seq<char>) -> Seq<char>
    decreases s.len(),
{
    if s.len() == 0 {
        s
    } else if is_white(s.first()) {
        trim(s.skip(1))
    } else if is_white(s.last()) {
        trim(s.drop_last())
    } else {
        s
    }
}

/// The part of `v` between white space at either end.
pub fn trim_range(v: &Vec<char>) -> (r: (usize, usize))
    ensures
        r.0 <= r.1 <= v@.len(),
        v@.subrange(r.0 as int, r.1 as int) == trim(v@),
{
    let n: usize = v.len();
    let mut i: usize = 0;
    assert(v@.subrange(0, n as int) =~= v@);
    while i < n && white(v[i])
        invariant
            i <= n == v@.len(),
            trim(v@) == trim(v@.subrange(i as int, n as int)),
        decreases n - i,
    {
        assert(v@.subrange(i as int, n as int).skip(1) =~= v@.subrange(i + 1, n as int));
        i += 1;
    }
    let mut j: usize = n;
    while j > i && white(v[j - 1])
        invariant
            i <= j <= n == v@.len(),
            i < n ==> !is_white(v@[i as int]),
            trim(v@) == trim(v@.subrange(i as int, j as int)),
        decreases j,
    {
        assert(v@.subrange(i as int, j as int).drop_last() =~= v@.subrange(i as int, j - 1));
        j -= 1;
    }
    (i, j)
}

/// `s` without white space at either end.
pub fn trim_text(s: &str) -> (out: String)
    ensures
        out@ == trim(s@),
{
    let v = chars(s);
    let (i, j) = trim_range(&v);
    text_of(&v, i, j)
}

/// Whether `s` holds white space only.
pub fn blank(s: &str) -> (r: bool)
    ensures
        r == (trim(s@).len() == 0),
{
    let v = chars(s);
    let (i, j) = trim_range(&v);
    i == j
}

/// An ASCII letter in upper case, any other character as it is.
pub open spec fn upper(c: char) -> char {
    if 97 <= c as int && c as int <= 122 {
        (c as int - 32) as char
    } else {
        c
    }
}

/// An ASCII letter in lower case, any other character as it is.
pub open spec fn lower(c: char) -> char {
    if 65 <= c as int && c as int <= 90 {
        (c as int + 32) as char
    } else {
        c
    }
}

pub fn upper_char(c: char) -> (r: char)
    ensures
        r == upper(c),
{
    let n: u32 = c as u32;
    if 97 <= n && n <= 122 {
        (n as u8 - 32) as char
    } else {
        c
    }
}

pub fn lower_char(c: char) -> (r: char)
    ensures
        r == lower(c),
{
    let n: u32 = c as u32;
    if 65 <= n && n <= 90 {
        (n as u8 + 32) as char
    } else {
        c
    }
}

/// `s` with its ASCII letters in upper case.
pub open spec fn ascii_upper(s: Seq<char>) -> Seq<char> {
    s.map_values(|c: char| upper(c))
}

/// `s` with its ASCII letters in lower case.
pub open spec fn ascii_lower(s: Seq<char>) -> Seq<char> {
    s.map_values(|c: char| lower(c))
}

pub fn upper_text(s: &str) -> (out: String)
    ensures
        out@ == ascii_upper(s@),
{
    let v = chars(s);
    let mut out = String::new();
    for i in 0..v.len()
        invariant
            v@ == s@,
            out@ == ascii_upper(s@.take(i as int)),
    {
        out.push(upper_char(v[i]));
        assert(out@ =~= ascii_upper(s@.take(i + 1)));
    }
    assert(s@.take(v@.len() as int) =~= s@);
    out
}

pub fn lower_text(s: &str) -> (out: String)
    ensures
        out@ == ascii_lower(s@),
{
    let v = chars(s);
    let mut out = String::new();
    for i in 0..v.len()
        invariant
            v@ == s@,
            out@ == ascii_lower(s@.take(i as int)),
    {
        out.push(lower_char(v[i]));
        assert(out@ =~= ascii_lower(s@.take(i + 1)));
    }
    assert(s@.take(v@.len() as int) =~= s@);
    out
}

/// Whether two texts differ at most in the case of ASCII letters.
pub fn same_ignoring_case(a: &str, b: &str) -> (r: bool)
    ensures
        r == (ascii_lower(a@) == ascii_lower(b@)),
{
    let x = lower_text(a);
    let y = lower_text(b);
    same(x.as_str(), y.as_str())
}

/// `s` with every `from` replaced by `to`.
pub open spec fn replaced(s: Seq<char>, from: char, to: Seq<char>) -> Seq<char>
    decreases s.len(),
{
    if s.len() == 0 {
        Seq::empty()
    } else if s.last() == from {
        replaced(s.drop_last(), from, to) + to
    } else {
        replaced(s.drop_last(), from, to).push(s.last())
    }
}

/// Replacing in two texts replaces in their concatenation.
pub proof fn lemma_replaced_concat(a: Seq<char>, b: Seq<char>, from: char, to: Seq<char>)
    ensures
        replaced(a + b, from, to) == replaced(a, from, to) + replaced(b, from, to),
    decreases b.len(),
{
    if b.len() == 0 {
        assert(a + b =~= a);
        assert(replaced(a, from, to) + Seq::<char>::empty() =~= replaced(a, from, to));
    } else {
        lemma_replaced_concat(a, b.drop_last(), from, to);
        assert((a + b).drop_last() =~= a + b.drop_last());
        let x = replaced(a, from, to);
        let y = replaced(b.drop_last(), from, to);
        assert(x + y + to =~= x + (y + to));
        assert((x + y).push(b.last()) =~= x + y.push(b.last()));
    }
}

pub fn replace_char(s: &str, from: char, to: &str) -> (out: String)
    ensures
        out@ == replaced(s@, from, to@),
{
    let v = chars(s);
    let mut out = String::new();
    assert(s@.take(0) =~= Seq::<char>::empty());
    for i in 0..v.len()
        invariant
            v@ == s@,
            out@ == replaced(s@.take(i as int), from, to@),
    {
        assert(s@.take(i + 1).drop_last() =~= s@.take(i as int));
        if v[i] == from {
            out.append(to);
        } else {
            out.push(v[i]);
        }
    }
    assert(s@.take(v@.len() as int) =~= s@);
    out
}

/// The first position at or after `from` where `c` stands.
pub open spec fn index_of(s: Seq<char>, c: char, from: int) -> Option<int>
    decreases s.len() - from,
{
    if from < 0 || from >= s.len() {
        None
    } else if s[from] == c {
        Some(from)
    } else {
        index_of(s, c, from + 1)
    }
}

/// The first position of `c` in `v` at or after `from`.
pub fn find_from(v: &Vec<char>, c: char, from: usize) -> (at: Option<usize>)
    ensures
        match at {
            Some(i) => from <= i < v@.len() && v@[i as int] == c && index_of(v@, c, from as int)
                == Some(i as int),
            None => index_of(v@, c, from as int) is None,
        },
{
    let mut i: usize = from;
    while i < v.len()
        invariant
            from <= i,
            index_of(v@, c, from as int) == index_of(v@, c, i as int),
        decreases v@.len() - i,
    {
        if v[i] == c {
            return Some(i);
        }
        i += 1;
    }
    None
}

/// The first position of `c` in `v`.
pub fn find_char(v: &Vec<char>, c: char) -> (at: Option<usize>)
    ensures
        match at {
            Some(i) => i < v@.len() && index_of(v@, c, 0) == Some(i as int),
            None => index_of(v@, c, 0) is None,
        },
{
    find_from(v, c, 0)
}

/// `index_of` is what it says.
pub proof fn lemma_index_of(s: Seq<char>, c: char, from: int)
    requires
        from >= 0,
    ensures
        match index_of(s, c, from) {
            Some(i) => {
                &&& from <= i < s.len()
                &&& s[i] == c
                &&& forall|j: int| from <= j < i ==> s[j] != c
            },
            None => forall|j: int| from <= j < s.len() ==> s[j] != c,
        },
    decreases s.len() - from,
{
    if from < s.len() && s[from] != c {
        lemma_index_of(s, c, from + 1);
    }
}

/// What stands before and after the first `c`.
pub open spec fn split_once(s: Seq<char>, c: char) -> Option<(Seq<char>, Seq<char>)> {
    match index_of(s, c, 0) {
        Some(i) => Some((s.take(i), s.skip(i + 1))),
        None => None,
    }
}

/// Splits `s` at the first `c`.
pub fn cut(s: &str, c: char) -> (out: Option<(String, String)>)
    ensures
        match out {
            Some(parts) => split_once(s@, c) == Some((parts.0@, parts.1@)),
            None => split_once(s@, c) is None,
        },
{
    let v = chars(s);
    match find_char(&v, c) {
        Some(i) => {
            let n: usize = v.len();
            assert(v@.subrange(0, i as int) =~= v@.take(i as int));
            assert(v@.subrange(i + 1, n as int) =~= v@.skip(i + 1));
            Some((text_of(&v, 0, i), text_of(&v, i + 1, n)))
        },
        None => None,
    }
}

/// `part` stands in `s` at position `i`.
pub open spec fn part_at(s: Seq<char>, part: Seq<char>, i: int) -> bool {
    0 <= i && i + part.len() <= s.len() && s.subrange(i, i + part.len()) == part
}

/// `part` stands somewhere in `s`.
pub open spec fn has_part(s: Seq<char>, part: Seq<char>) -> bool {
    exists|i: int| #[trigger] part_at(s, part, i)
}

/// Whether `p` stands in `v` at position `i`.
pub fn matches_at(v: &Vec<char>, p: &Vec<char>, i: usize) -> (r: bool)
    ensures
        r == part_at(v@, p@, i as int),
{
    let n: usize = v.len();
    if p.len() > n || i > n - p.len() {
        return false;
    }
    let mut j: usize = 0;
    while j < p.len()
        invariant
            j <= p@.len(),
            n == v@.len(),
            i + p@.len() <= n,
            forall|k: int| 0 <= k < j ==> v@[i + k] == p@[k],
        decreases p@.len() - j,
    {
        if v[i + j] != p[j] {
            assert(v@.subrange(i as int, i + p@.len())[j as int] != p@[j as int]);
            return false;
        }
        j += 1;
    }
    assert(v@.subrange(i as int, i + p@.len()) =~= p@);
    true
}

/// Whether `part` stands somewhere in `s`.
pub fn contains_text(s: &str, part: &str) -> (r: bool)
    ensures
        r == has_part(s@, part@),
{
    let v = chars(s);
    let p = chars(part);
    if p.len() > v.len() {
        return false;
    }
    let last: usize = v.len() - p.len();
    let mut i: usize = 0;
    while i <= last
        invariant
            v@ == s@,
            p@ == part@,
            last == v@.len() - p@.len(),
            i <= last + 1,
            forall|j: int| 0 <= j < i ==> !#[trigger] part_at(v@, p@, j),
        decreases last + 1 - i,
    {
        if matches_at(&v, &p, i) {
            return true;
        }
        if i == last {
            assert forall|j: int| !#[trigger] part_at(s@, part@, j) by {}
            return false;
        }
        i += 1;
    }
    false
}

// ---------------------------------------------------------------------------
// codes
// ---------------------------------------------------------------------------

/// A text with each character spelled by a code.
pub open spec fn coded(s: Seq<char>, code: spec_fn(char) -> Seq<char>) -> Seq<char>
    decreases s.len(),
{
    if s.len() == 0 {
        Seq::empty()
    } else {
        coded(s.drop_last(), code) + code(s.last())
    }
}

/// Which character was spelled last can be told from the end of a text.
pub open spec fn readable(code: spec_fn(char) -> Seq<char>) -> bool {
    &&& forall|c: char| (#[trigger] code(c)).len() > 0
    &&& forall|x: Seq<char>, y: Seq<char>, c: char, d: char|
        #![trigger x + code(c), y + code(d)]
        x + code(c) == y + code(d) ==> c == d
}

/// Distinct texts are spelled differently by a code that can be read.
pub proof fn lemma_coded_injective(a: Seq<char>, b: Seq<char>, code: spec_fn(char) -> Seq<char>)
    requires
        readable(code),
        coded(a, code) == coded(b, code),
    ensures
        a == b,
    decreases a.len(),
{
    if a.len() == 0 || b.len() == 0 {
        if a.len() > 0 {
            assert(code(a.last()).len() > 0);
            assert(coded(a, code).len() > 0);
        }
        if b.len() > 0 {
            assert(code(b.last()).len() > 0);
            assert(coded(b, code).len() > 0);
        }
        assert(a =~= b);
    } else {
        let x = coded(a.drop_last(), code);
        let y = coded(b.drop_last(), code);
        assert(x + code(a.last()) == y + code(b.last()));
        assert(a.last() == b.last());
        let n = code(a.last()).len();
        assert(x =~= (x + code(a.last())).take(coded(a, code).len() - n));
        assert(y =~= (y + code(b.last())).take(coded(b, code).len() - n));
        lemma_coded_injective(a.drop_last(), b.drop_last(), code);
        assert(a =~= a.drop_last().push(a.last()));
        assert(b =~= b.drop_last().push(b.last()));
    }
}

/// A decimal number is made of digits.
pub proof fn lemma_decimal_digits(n: nat)
    ensures
        decimal(n).len() > 0,
        forall|i: int| 0 <= i < decimal(n).len() ==> '0' <= #[trigger] decimal(n)[i] <= '9',
    decreases n,
{
    if n >= 10 {
        lemma_decimal_digits(n / 10);
    }
}

/// Distinct numbers are written differently.
pub proof fn lemma_decimal_injective(a: nat, b: nat)
    requires
        decimal(a) == decimal(b),
    ensures
        a == b,
    decreases a,
{
    lemma_decimal_digits(a);
    lemma_decimal_digits(b);
    if a >= 10 {
        lemma_decimal_digits(a / 10);
    }
    if b >= 10 {
        lemma_decimal_digits(b / 10);
    }
    assert(decimal(a).last() == digit(a % 10));
    assert(decimal(b).last() == digit(b % 10));
    if a >= 10 && b >= 10 {
        assert(decimal(a).drop_last() =~= decimal(a / 10));
        assert(decimal(b).drop_last() =~= decimal(b / 10));
        lemma_decimal_injective(a / 10, b / 10);
    }
}

// ---------------------------------------------------------------------------
// splitting what was joined
// ---------------------------------------------------------------------------

/// A separator between two texts splits them apart.
pub proof fn lemma_split_joined(a: Seq<char>, b: Seq<char>, sep: char)
    ensures
        split(a.push(sep) + b, sep) == split(a, sep) + split(b, sep),
    decreases b.len(),
{
    lemma_split_len(b, sep);
    if b.len() == 0 {
        assert(a.push(sep) + b =~= a.push(sep));
        assert(a.push(sep).drop_last() =~= a);
        assert(split(b, sep) =~= seq![Seq::<char>::empty()]);
        assert(split(a.push(sep), sep) =~= split(a, sep) + split(b, sep));
    } else {
        let front = b.drop_last();
        let whole = a.push(sep) + b;
        lemma_split_joined(a, front, sep);
        lemma_split_len(front, sep);
        assert(whole.drop_last() =~= a.push(sep) + front);
        assert(whole.last() == b.last());
        let x = split(a, sep);
        let y = split(front, sep);
        if b.last() == sep {
            assert((x + y).push(Seq::<char>::empty()) =~= x + y.push(Seq::<char>::empty()));
        } else {
            assert((x + y).last() == y.last());
            assert((x + y).drop_last().push(y.last().push(b.last())) =~= x + y.drop_last().push(
                y.last().push(b.last()),
            ));
        }
    }
}

/// What is not empty in two lists is what is not empty in both together.
pub proof fn lemma_non_empty_concat(a: Seq<Seq<char>>, b: Seq<Seq<char>>)
    ensures
        non_empty(a + b) == non_empty(a) + non_empty(b),
    decreases b.len(),
{
    if b.len() == 0 {
        assert(a + b =~= a);
        assert(non_empty(a) + non_empty(b) =~= non_empty(a));
    } else {
        assert((a + b).drop_last() =~= a + b.drop_last());
        assert((a + b).last() == b.last());
        lemma_non_empty_concat(a, b.drop_last());
        let x = non_empty(a);
        let y = non_empty(b.drop_last());
        assert((x + y).push(b.last()) =~= x + y.push(b.last()));
    }
}

/// Joining begins with the first of several pieces.
pub proof fn lemma_join_first(first: Seq<char>, rest: Seq<Seq<char>>, sep: Seq<char>)
    requires
        rest.len() > 0,
    ensures
        join(seq![first] + rest, sep) == first + sep + join(rest, sep),
    decreases rest.len(),
{
    let list = seq![first] + rest;
    assert(list.last() == rest.last());
    if rest.len() == 1 {
        assert(list.drop_last() =~= seq![first]);
        assert(join(seq![first], sep) == first);
    } else {
        assert(list.drop_last() =~= seq![first] + rest.drop_last());
        lemma_join_first(first, rest.drop_last(), sep);
        let inner = join(rest.drop_last(), sep);
        assert((first + sep + inner) + sep + rest.last() =~= first + sep + (inner + sep
            + rest.last()));
    }
}

} // verus!
