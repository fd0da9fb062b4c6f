//! How texts, numbers and names are written.

use crate::derive::attr;
use crate::derive::attr::{DocsModel, RenameRule};
use crate::json;
use crate::json::ValueModel;
use crate::text;
use vstd::prelude::*;
use vstd::string::*;

verus! {

// ---------------------------------------------------------------------------
// numbers and letters
// ---------------------------------------------------------------------------

/// What digits are worth, the last one once, the one before it ten times.
pub open spec fn worth(s: Seq<char>) -> int
    decreases s.len(),
{
    if s.len() == 0 {
        0
    } else {
        worth(s.drop_last()) * 10 + (s.last() as int - '0' as int)
    }
}

/// A number is written in decimal digits, without a zero in front.
pub proof fn a_number_reads_back(n: nat)
    ensures
        worth(text::decimal(n)) == n,
        text::decimal(n).len() > 0,
        forall|i: int|
            0 <= i < text::decimal(n).len() ==> '0' <= (#[trigger] text::decimal(n)[i]) <= '9',
        text::decimal(n)[0] == '0' ==> n == 0,
    decreases n,
{
    text::lemma_decimal_digits(n);
    let s = text::decimal(n);
    reveal_with_fuel(worth, 2);
    if n >= 10 {
        a_number_reads_back(n / 10);
        text::lemma_decimal_digits(n / 10);
        assert(s.drop_last() =~= text::decimal(n / 10));
        assert(s[0] == text::decimal(n / 10)[0]);
    } else {
        assert(s.drop_last() =~= Seq::empty());
    }
}

/// A negative number is written with a minus sign, and no other is.
pub proof fn a_signed_number_reads_back(n: int)
    ensures
        n < 0 ==> text::integer(n).len() > 0 && text::integer(n)[0] == '-' && worth(
            text::integer(n).skip(1),
        ) == -n,
        n >= 0 ==> worth(text::integer(n)) == n && text::integer(n).len() > 0 && text::integer(n)[0]
            != '-',
{
    reveal_strlit("-");
    if n < 0 {
        a_number_reads_back((-n) as nat);
        assert(text::integer(n).skip(1) =~= text::decimal((-n) as nat));
    } else {
        a_number_reads_back(n as nat);
    }
}

/// Lower case is the twenty-six letters moved, and nothing else.
pub proof fn letters_change_case(c: char)
    ensures
        'A' <= c <= 'Z' ==> text::lower(c) as int - 'a' as int == c as int - 'A' as int,
        !('A' <= c <= 'Z') ==> text::lower(c) == c,
        'a' <= c <= 'z' ==> text::upper(c) as int - 'A' as int == c as int - 'a' as int,
        !('a' <= c <= 'z') ==> text::upper(c) == c,
        text::is_white(' '),
        text::is_white('\t'),
        text::is_white('\n'),
        text::is_white('\r'),
        '!' <= c <= '~' ==> !text::is_white(c),
{
}

proof fn lemma_trim_front(a: Seq<char>, s: Seq<char>)
    requires
        forall|i: int| 0 <= i < a.len() ==> text::is_white(#[trigger] a[i]),
    ensures
        text::trim(a + s) == text::trim(s),
    decreases a.len(),
{
    if a.len() == 0 {
        assert(a + s =~= s);
    } else {
        assert((a + s)[0] == a[0]);
        assert((a + s).skip(1) =~= a.skip(1) + s);
        lemma_trim_front(a.skip(1), s);
    }
}

proof fn lemma_trim_back(s: Seq<char>, b: Seq<char>)
    requires
        forall|i: int| 0 <= i < b.len() ==> text::is_white(#[trigger] b[i]),
        s.len() > 0,
        !text::is_white(s.first()),
        !text::is_white(s.last()),
    ensures
        text::trim(s + b) == s,
    decreases b.len(),
{
    if b.len() == 0 {
        assert(s + b =~= s);
    } else {
        assert((s + b).first() == s.first());
        assert((s + b).last() == b[b.len() - 1]);
        assert((s + b).drop_last() =~= s + b.drop_last());
        lemma_trim_back(s, b.drop_last());
    }
}

/// Trimming takes white space off both ends, and nothing else.
pub proof fn trimming_takes_off_white_space(a: Seq<char>, s: Seq<char>, b: Seq<char>)
    requires
        forall|i: int| 0 <= i < a.len() ==> text::is_white(#[trigger] a[i]),
        forall|i: int| 0 <= i < b.len() ==> text::is_white(#[trigger] b[i]),
        s.len() > 0 ==> !text::is_white(s.first()) && !text::is_white(s.last()),
    ensures
        text::trim(a + s + b) == s,
{
    assert(a + s + b =~= a + (s + b));
    lemma_trim_front(a, s + b);
    if s.len() == 0 {
        assert(s + b =~= b);
        lemma_trim_front(b, Seq::empty());
        assert(b + Seq::<char>::empty() =~= b);
        assert(text::trim(Seq::empty()) == Seq::<char>::empty());
        assert(s =~= Seq::empty());
    } else {
        lemma_trim_back(s, b);
    }
}

// ---------------------------------------------------------------------------
// values as JSON text
// ---------------------------------------------------------------------------

/// The words of JSON.
pub proof fn words_are_written_as_they_are(digits: Seq<char>)
    ensures
        json::written(ValueModel::Null) == "null"@,
        json::written(ValueModel::Bool(true)) == "true"@,
        json::written(ValueModel::Bool(false)) == "false"@,
        json::written(ValueModel::Number(digits)) == digits,
{
}

/// A list is written between brackets, its values in order with commas between
/// them.
pub proof fn a_list_is_written_in_order(list: Seq<ValueModel>, value: ValueModel)
    ensures
        json::written(ValueModel::Array(Seq::empty())) == "[]"@,
        json::written(ValueModel::Array(list.push(value))) == json::written(
            ValueModel::Array(list),
        ).drop_last() + (if list.len() == 0 {
            Seq::empty()
        } else {
            ","@
        }) + json::written(value) + "]"@,
{
    reveal_strlit("[");
    reveal_strlit("]");
    reveal_strlit("[]");
    reveal_strlit(",");
    let none = Seq::<ValueModel>::empty();
    assert(json::written_list(none) =~= Seq::empty());
    assert(json::written(ValueModel::Array(none)) =~= "[]"@);
    let more = list.push(value);
    assert(more.drop_last() =~= list);
    assert(more.last() == value);
    let before = json::written_list(list);
    lemma_list_len(list);
    assert(json::written_list(more) == before.push(json::written(value)));
    lemma_join_push(before, json::written(value), ","@);
    let body = text::join(before, ","@);
    assert(("["@ + body + "]"@).drop_last() =~= "["@ + body);
    if list.len() == 0 {
        assert(before =~= Seq::empty());
        assert(body =~= Seq::empty());
        assert(json::written(ValueModel::Array(more)) =~= ("["@ + body) + Seq::empty()
            + json::written(value) + "]"@);
    } else {
        assert(json::written(ValueModel::Array(more)) =~= ("["@ + body) + ","@ + json::written(value)
            + "]"@);
    }
}

proof fn lemma_list_len(list: Seq<ValueModel>)
    ensures
        json::written_list(list).len() == list.len(),
    decreases list.len(),
{
    if list.len() > 0 {
        lemma_list_len(list.drop_last());
    }
}

proof fn lemma_members_len(members: Seq<(Seq<char>, ValueModel)>)
    ensures
        json::written_members(members).len() == members.len(),
    decreases members.len(),
{
    if members.len() > 0 {
        lemma_members_len(members.drop_last());
    }
}

proof fn lemma_join_push(list: Seq<Seq<char>>, piece: Seq<char>, sep: Seq<char>)
    ensures
        text::join(list.push(piece), sep) == if list.len() == 0 {
            piece
        } else {
            text::join(list, sep) + sep + piece
        },
{
    assert(list.push(piece).drop_last() =~= list);
}

/// An object is written between braces, each member as its name, a colon and its
/// value, in order with commas between them.
pub proof fn an_object_is_written_in_order(
    members: Seq<(Seq<char>, ValueModel)>,
    name: Seq<char>,
    value: ValueModel,
)
    ensures
        json::written(ValueModel::Object(Seq::empty())) == "{}"@,
        json::written(ValueModel::Object(members.push((name, value)))) == json::written(
            ValueModel::Object(members),
        ).drop_last() + (if members.len() == 0 {
            Seq::empty()
        } else {
            ","@
        }) + json::written(ValueModel::String(name)) + ":"@ + json::written(value) + "}"@,
{
    reveal_strlit("{");
    reveal_strlit("}");
    reveal_strlit("{}");
    reveal_strlit(",");
    let none = Seq::<(Seq<char>, ValueModel)>::empty();
    assert(json::written_members(none) =~= Seq::empty());
    assert(json::written(ValueModel::Object(none)) =~= "{}"@);
    let more = members.push((name, value));
    assert(more.drop_last() =~= members);
    assert(more.last() == (name, value));
    let before = json::written_members(members);
    lemma_members_len(members);
    let piece = json::string_written(name) + ":"@ + json::written(value);
    assert(json::written_members(more) == before.push(piece));
    lemma_join_push(before, piece, ","@);
    let body = text::join(before, ","@);
    assert(("{"@ + body + "}"@).drop_last() =~= "{"@ + body);
    if members.len() == 0 {
        assert(before =~= Seq::empty());
        assert(body =~= Seq::empty());
        assert(json::written(ValueModel::Object(more)) =~= ("{"@ + body) + Seq::empty()
            + json::string_written(name) + ":"@ + json::written(value) + "}"@);
    } else {
        assert(json::written(ValueModel::Object(more)) =~= ("{"@ + body) + ","@
            + json::string_written(name) + ":"@ + json::written(value) + "}"@);
    }
}

// ---------------------------------------------------------------------------
// renamed fields and variants
// ---------------------------------------------------------------------------

/// A word in small ASCII letters and digits, a letter first.
pub open spec fn is_word(w: Seq<char>) -> bool {
    &&& w.len() > 0
    &&& 'a' <= w[0] <= 'z'
    &&& forall|i: int|
        0 <= i < w.len() ==> 'a' <= (#[trigger] w[i]) <= 'z' || '0' <= w[i] <= '9'
}

/// A word with a capital letter first.
pub open spec fn capital(w: Seq<char>) -> Seq<char> {
    seq![(w[0] as int - 'a' as int + 'A' as int) as char] + w.skip(1)
}

/// The conventions go by their names, and no others are known.
pub proof fn a_convention_goes_by_its_name(other: Seq<char>)
    ensures
        attr::rename_rule("lowercase"@) == Ok::<RenameRule, Seq<char>>(RenameRule::Lower),
        attr::rename_rule("UPPERCASE"@) == Ok::<RenameRule, Seq<char>>(RenameRule::Upper),
        attr::rename_rule("PascalCase"@) == Ok::<RenameRule, Seq<char>>(RenameRule::Pascal),
        attr::rename_rule("camelCase"@) == Ok::<RenameRule, Seq<char>>(RenameRule::Camel),
        attr::rename_rule("snake_case"@) == Ok::<RenameRule, Seq<char>>(RenameRule::Snake),
        attr::rename_rule("SCREAMING_SNAKE_CASE"@) == Ok::<RenameRule, Seq<char>>(
            RenameRule::ScreamingSnake,
        ),
        attr::rename_rule("kebab-case"@) == Ok::<RenameRule, Seq<char>>(RenameRule::Kebab),
        attr::rename_rule("SCREAMING-KEBAB-CASE"@) == Ok::<RenameRule, Seq<char>>(
            RenameRule::ScreamingKebab,
        ),
        other != "lowercase"@ && other != "UPPERCASE"@ && other != "PascalCase"@ && other
            != "camelCase"@ && other != "snake_case"@ && other != "SCREAMING_SNAKE_CASE"@ && other
            != "kebab-case"@ && other != "SCREAMING-KEBAB-CASE"@ ==> attr::rename_rule(other)
            == Err::<RenameRule, Seq<char>>("unknown rename rule `"@ + other + "`"@),
{
    reveal_strlit("lowercase");
    reveal_strlit("UPPERCASE");
    reveal_strlit("PascalCase");
    reveal_strlit("camelCase");
    reveal_strlit("snake_case");
    reveal_strlit("SCREAMING_SNAKE_CASE");
    reveal_strlit("kebab-case");
    reveal_strlit("SCREAMING-KEBAB-CASE");
    assert("lowercase"@.len() == 9 && "lowercase"@[0] == 'l');
    assert("UPPERCASE"@.len() == 9 && "UPPERCASE"@[0] == 'U');
    assert("camelCase"@.len() == 9 && "camelCase"@[0] == 'c');
    assert("PascalCase"@.len() == 10 && "PascalCase"@[0] == 'P');
    assert("snake_case"@.len() == 10 && "snake_case"@[0] == 's');
    assert("kebab-case"@.len() == 10 && "kebab-case"@[0] == 'k');
    assert("SCREAMING_SNAKE_CASE"@.len() == 20 && "SCREAMING_SNAKE_CASE"@[9] == '_');
    assert("SCREAMING-KEBAB-CASE"@.len() == 20 && "SCREAMING-KEBAB-CASE"@[9] == '-');
}

proof fn lemma_word(w: Seq<char>)
    requires
        is_word(w),
    ensures
        text::split(w, '_') == seq![w],
        attr::capitalised(w) == capital(w),
        attr::kebab(w) == w,
{
    if w.contains('_') {
        let i = choose|i: int| 0 <= i < w.len() && w[i] == '_';
        assert('a' <= w[i] <= 'z' || '0' <= w[i] <= '9');
    }
    let none = Seq::<char>::empty();
    text::lemma_split_append(none, w, '_');
    assert(none + w =~= w);
    assert(text::split(none, '_') =~= seq![none]);
    assert(text::split(w, '_') =~= seq![w]);
    assert(attr::capitalised(w) =~= capital(w));
    lemma_untouched(w);
}

proof fn lemma_untouched(w: Seq<char>)
    requires
        forall|i: int| 0 <= i < w.len() ==> (#[trigger] w[i]) != '_',
    ensures
        attr::kebab(w) == w,
    decreases w.len(),
{
    if w.len() > 0 {
        assert forall|i: int| 0 <= i < w.drop_last().len() implies (#[trigger] w.drop_last()[i])
            != '_' by {
            assert(w.drop_last()[i] == w[i]);
        }
        lemma_untouched(w.drop_last());
        assert(w[w.len() - 1] != '_');
        assert(w =~= w.drop_last().push(w.last()));
    } else {
        assert(attr::kebab(w) =~= w);
    }
}

proof fn lemma_capitalised_push(list: Seq<Seq<char>>, w: Seq<char>)
    ensures
        attr::all_capitalised(list.push(w)) == attr::all_capitalised(list) + attr::capitalised(w),
{
    assert(list.push(w).drop_last() =~= list);
}

/// A field of one word keeps it, but for its case.
pub proof fn a_field_of_one_word_is_renamed(w: Seq<char>)
    requires
        is_word(w),
    ensures
        RenameRule::Lower.field(w) == w,
        RenameRule::Snake.field(w) == w,
        RenameRule::Camel.field(w) == w,
        RenameRule::Kebab.field(w) == w,
        RenameRule::Pascal.field(w) == capital(w),
        RenameRule::Upper.field(w) == w.map_values(|c: char| text::upper(c)),
        RenameRule::ScreamingSnake.field(w) == w.map_values(|c: char| text::upper(c)),
        RenameRule::ScreamingKebab.field(w) == w.map_values(|c: char| text::upper(c)),
{
    lemma_word(w);
    let none = Seq::<Seq<char>>::empty();
    lemma_capitalised_push(none, w);
    assert(none.push(w) =~= seq![w]);
    assert(attr::all_capitalised(none) =~= Seq::empty());
    assert(Seq::<char>::empty() + capital(w) =~= capital(w));
    assert(attr::uncapitalised(capital(w)) =~= w);
}

/// A further word of a field is set off as the convention has it: with an
/// underscore, a dash or a capital letter.
pub proof fn a_further_word_is_set_off(name: Seq<char>, w: Seq<char>)
    requires
        is_word(w),
        name.len() > 0,
        'a' <= name[0] <= 'z',
    ensures
        RenameRule::Lower.field(name + "_"@ + w) == name + "_"@ + w,
        RenameRule::Snake.field(name + "_"@ + w) == name + "_"@ + w,
        RenameRule::Upper.field(name + "_"@ + w) == RenameRule::Upper.field(name) + "_"@
            + RenameRule::Upper.field(w),
        RenameRule::ScreamingSnake.field(name + "_"@ + w) == RenameRule::ScreamingSnake.field(name)
            + "_"@ + RenameRule::ScreamingSnake.field(w),
        RenameRule::Kebab.field(name + "_"@ + w) == RenameRule::Kebab.field(name) + "-"@ + w,
        RenameRule::ScreamingKebab.field(name + "_"@ + w) == RenameRule::ScreamingKebab.field(name)
            + "-"@ + RenameRule::ScreamingKebab.field(w),
        RenameRule::Pascal.field(name + "_"@ + w) == RenameRule::Pascal.field(name) + capital(w),
        RenameRule::Camel.field(name + "_"@ + w) == RenameRule::Camel.field(name) + capital(w),
{
    reveal_strlit("_");
    reveal_strlit("-");
    lemma_word(w);
    let whole = name + "_"@ + w;
    assert(whole =~= name.push('_') + w);
    text::lemma_split_joined(name, w, '_');
    let list = text::split(name, '_');
    assert(list + seq![w] =~= list.push(w));
    lemma_capitalised_push(list, w);
    text::lemma_replaced_concat(name + "_"@, w, '_', "-"@);
    text::lemma_replaced_concat(name, "_"@, '_', "-"@);
    reveal_with_fuel(text::replaced, 2);
    assert("_"@.drop_last() =~= Seq::empty());
    assert(text::replaced("_"@, '_', "-"@) =~= "-"@);
    assert(attr::kebab(whole) == attr::kebab(name) + "-"@ + w);
    assert(text::ascii_upper(whole) =~= text::ascii_upper(name) + "_"@ + text::ascii_upper(w));
    assert(text::ascii_upper(attr::kebab(name) + "-"@ + w) =~= text::ascii_upper(attr::kebab(name))
        + "-"@ + text::ascii_upper(w));
    lemma_first_letter(name);
    let big = attr::all_capitalised(list);
    assert(attr::uncapitalised(big + capital(w)) =~= attr::uncapitalised(big) + capital(w));
}

proof fn lemma_first_letter(name: Seq<char>)
    requires
        name.len() > 0,
        'a' <= name[0] <= 'z',
    ensures
        attr::all_capitalised(text::split(name, '_')).len() > 0,
    decreases name.len(),
{
    text::lemma_split_len(name.drop_last(), '_');
    let before = text::split(name.drop_last(), '_');
    if name.len() == 1 {
        assert(name.drop_last() =~= Seq::empty());
        assert(before =~= seq![Seq::<char>::empty()]);
        assert(name.last() == name[0]);
        let one = seq![name[0]];
        assert(text::split(name, '_') =~= Seq::<Seq<char>>::empty().push(one));
        lemma_capitalised_push(Seq::empty(), one);
        assert(attr::capitalised(one).len() > 0);
    } else {
        lemma_first_letter(name.drop_last());
        if name.last() == '_' {
            lemma_capitalised_push(before, Seq::empty());
        } else {
            let rest = before.drop_last();
            let grown = before.last().push(name.last());
            lemma_capitalised_push(rest, grown);
            lemma_capitalised_push(rest, before.last());
            assert(before =~= rest.push(before.last()));
            if before.last().len() > 0 {
                assert(grown[0] == before.last()[0]);
                assert(attr::capitalised(grown).len() == attr::capitalised(before.last()).len()
                    + 1);
            } else {
                assert(attr::capitalised(before.last()).len() == 0);
            }
        }
    }
}

proof fn lemma_snake_tail(front: Seq<char>, tail: Seq<char>)
    requires
        forall|i: int|
            0 <= i < tail.len() ==> 'a' <= (#[trigger] tail[i]) <= 'z' || '0' <= tail[i] <= '9',
    ensures
        attr::snake(front + tail) == attr::snake(front) + tail,
    decreases tail.len(),
{
    if tail.len() == 0 {
        assert(front + tail =~= front);
        assert(attr::snake(front) + tail =~= attr::snake(front));
    } else {
        assert((front + tail).drop_last() =~= front + tail.drop_last());
        assert((front + tail).last() == tail[tail.len() - 1]);
        assert forall|i: int| 0 <= i < tail.drop_last().len() implies 'a' <= (
        #[trigger] tail.drop_last()[i]) <= 'z' || '0' <= tail.drop_last()[i] <= '9' by {
            assert(tail.drop_last()[i] == tail[i]);
        }
        lemma_snake_tail(front, tail.drop_last());
        assert((attr::snake(front) + tail.drop_last()).push(tail.last()) =~= attr::snake(front)
            + tail);
    }
}

/// A variant of one word, and a further word of one: each word is told by its
/// capital letter.
pub proof fn a_variant_is_renamed(name: Seq<char>, w: Seq<char>)
    requires
        is_word(w),
        name.len() > 0,
    ensures
        RenameRule::Pascal.variant(name) == name,
        RenameRule::Snake.variant(capital(w)) == w,
        RenameRule::Snake.variant(name + capital(w)) == RenameRule::Snake.variant(name) + "_"@ + w,
        RenameRule::Camel.variant(capital(w) + name) == w + name,
        RenameRule::Lower.variant(name) == name.map_values(|c: char| text::lower(c)),
        RenameRule::Upper.variant(name) == name.map_values(|c: char| text::upper(c)),
{
    reveal_strlit("_");
    let c = (w[0] as int - 'a' as int + 'A' as int) as char;
    let rest = w.skip(1);
    assert(attr::lowercased(c) =~= seq![w[0]]);
    let none = Seq::<char>::empty();
    assert(capital(w) =~= none.push(c) + rest);
    assert forall|i: int| 0 <= i < rest.len() implies 'a' <= (#[trigger] rest[i]) <= 'z' || '0'
        <= rest[i] <= '9' by {
        assert(rest[i] == w[i + 1]);
    }
    lemma_snake_tail(none.push(c), rest);
    assert(none.push(c).drop_last() =~= none);
    assert(attr::snake(none) =~= none);
    assert(attr::snake(none.push(c)) =~= seq![w[0]]);
    assert(seq![w[0]] + rest =~= w);
    assert(name + capital(w) =~= name.push(c) + rest);
    lemma_snake_tail(name.push(c), rest);
    assert(name.push(c).drop_last() =~= name);
    assert(attr::snake(name.push(c)) =~= attr::snake(name) + "_"@ + seq![w[0]]);
    assert(attr::snake(name) + "_"@ + seq![w[0]] + rest =~= attr::snake(name) + "_"@ + w);
    assert(attr::uncapitalised(capital(w) + name) =~= w + name);
}

// ---------------------------------------------------------------------------
// doc comments
// ---------------------------------------------------------------------------

/// A line of a doc comment with something on it, and nothing around that.
pub open spec fn is_line(s: Seq<char>) -> bool {
    s.len() > 0 && !text::is_white(s.first()) && !text::is_white(s.last())
}

proof fn lemma_first_blank(lines: Seq<Seq<char>>, from: int, to: int)
    requires
        0 <= from <= to <= lines.len(),
        forall|i: int| from <= i < to ==> is_line(#[trigger] lines[i]),
        to == lines.len() || lines[to].len() == 0,
    ensures
        attr::first_blank(lines, from) == if to == lines.len() {
            None
        } else {
            Some(to)
        },
    decreases to - from,
{
    if from < to {
        assert(is_line(lines[from]));
        assert(text::trim(lines[from]) == lines[from]);
        lemma_first_blank(lines, from + 1, to);
    } else if to < lines.len() {
        assert(text::trim(lines[to]).len() == 0);
    }
}

proof fn lemma_joined_line(lines: Seq<Seq<char>>, sep: Seq<char>)
    requires
        lines.len() > 0,
        is_line(lines[0]),
        is_line(lines.last()),
    ensures
        is_line(text::join(lines, sep)),
        attr::filled(text::join(lines, sep)) == Some(text::join(lines, sep)),
{
    lemma_join_ends(lines, sep);
    assert(text::trim(text::join(lines, sep)) == text::join(lines, sep));
}

proof fn lemma_join_ends(lines: Seq<Seq<char>>, sep: Seq<char>)
    requires
        lines.len() > 0,
        lines[0].len() > 0,
    ensures
        text::join(lines, sep).len() > 0,
        text::join(lines, sep).first() == lines[0].first(),
        lines.last().len() > 0 ==> text::join(lines, sep).last() == lines.last().last(),
    decreases lines.len(),
{
    if lines.len() > 1 {
        assert(lines.drop_last()[0] == lines[0]);
        lemma_join_ends(lines.drop_last(), sep);
    }
}

/// The paragraph in front is the summary, on one line; what stands behind the
/// first blank line is the description, as it is. Blank lines at the end say
/// nothing.
pub proof fn a_doc_comment_is_a_summary_and_a_description(
    front: Seq<Seq<char>>,
    rest: Seq<Seq<char>>,
)
    requires
        front.len() > 0,
        forall|i: int| 0 <= i < front.len() ==> is_line(#[trigger] front[i]),
        rest.len() > 0,
        is_line(rest[0]),
        is_line(rest.last()),
    ensures
        attr::docs_of(front) == (DocsModel {
            summary: Some(text::join(front, " "@)),
            description: None,
        }),
        attr::docs_of(front.push(Seq::empty()) + rest) == (DocsModel {
            summary: Some(text::join(front, " "@)),
            description: Some(text::join(rest, "\n"@)),
        }),
        attr::docs_of(front.push(Seq::empty())) == attr::docs_of(front),
{
    let n = front.len() as int;
    assert(is_line(front[0]) && is_line(front[n - 1]));
    assert(text::trim(front.last()) == front.last());
    lemma_first_blank(front, 0, n);
    lemma_joined_line(front, " "@);
    let blank = Seq::<char>::empty();
    let both = front.push(blank) + rest;
    assert(both.last() == rest.last());
    assert(text::trim(rest.last()) == rest.last());
    assert forall|i: int| 0 <= i < n implies is_line(#[trigger] both[i]) by {
        assert(both[i] == front[i]);
    }
    assert(both[n] == blank);
    lemma_first_blank(both, 0, n);
    assert(both.take(n) =~= front);
    assert(both.skip(n + 1) =~= rest);
    lemma_joined_line(rest, "\n"@);
    let ended = front.push(blank);
    assert(text::trim(blank).len() == 0);
    assert(ended.drop_last() =~= front);
    assert(attr::without_blank_end(ended) == attr::without_blank_end(front));
}

} // verus!
