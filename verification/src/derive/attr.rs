//! Shared attribute parsing.

use crate::json;
use crate::json::{Number, Value, ValueModel};
use crate::text;
use vstd::prelude::*;
use vstd::string::*;

verus! {

/// A declaration that cannot be understood, with what is wrong about it.
pub struct SyntaxError {
    pub message: String,
}

/// The value of an attribute key.
pub enum Lit {
    /// A string literal.
    Text(String),
    /// A number, from a literal or any other expression: the decimal text of its
    /// value, and what it is as a count.
    Number { text: String, count: u64 },
    /// An array of values.
    List(Vec<Lit>),
    /// Any other expression, as the JSON it serialises to.
    Json(Value),
}

/// One key inside an attribute: `path`, `path = value` or `path(group)`.
pub struct Meta {
    pub path: String,
    pub value: Option<Lit>,
    pub group: Option<Vec<Meta>>,
}

/// One attribute: `#[path = "text"]` or `#[path(metas)]`.
pub struct Attr {
    pub path: String,
    pub text: Option<String>,
    pub metas: Vec<Meta>,
}

/// Builds the error with this message.
pub fn syntax_error(message: &str) -> (e: SyntaxError)
    ensures
        e.message@ == message@,
{
    SyntaxError { message: message.to_owned() }
}

// ---------------------------------------------------------------------------
// doc comments
// ---------------------------------------------------------------------------

/// A doc comment's summary (first paragraph) and description.
pub struct Docs {
    pub summary: Option<String>,
    pub description: Option<String>,
}

/// A doc comment, as a value.
pub struct DocsModel {
    pub summary: Option<Seq<char>>,
    pub description: Option<Seq<char>>,
}

impl View for Docs {
    type V = DocsModel;

    open spec fn view(&self) -> DocsModel {
        DocsModel { summary: text::opt(self.summary), description: text::opt(self.description) }
    }
}

/// A doc line without the space that `/// ` leaves in front of it.
pub open spec fn doc_line(raw: Seq<char>) -> Seq<char> {
    if raw.len() > 0 && raw[0] == ' ' {
        raw.skip(1)
    } else {
        raw
    }
}

/// The lines of a doc comment.
pub open spec fn doc_lines(attrs: Seq<Attr>) -> Seq<Seq<char>>
    decreases attrs.len(),
{
    if attrs.len() == 0 {
        Seq::empty()
    } else {
        let before = doc_lines(attrs.drop_last());
        let attr = attrs.last();
        if attr.path@ == "doc"@ && attr.text is Some {
            before.push(doc_line(attr.text->0@))
        } else {
            before
        }
    }
}

pub open spec fn is_blank(line: Seq<char>) -> bool {
    text::trim(line).len() == 0
}

/// The lines without blank ones at the end.
pub open spec fn without_blank_end(lines: Seq<Seq<char>>) -> Seq<Seq<char>>
    decreases lines.len(),
{
    if lines.len() > 0 && is_blank(lines.last()) {
        without_blank_end(lines.drop_last())
    } else {
        lines
    }
}

/// The first blank line at or after `from`.
pub open spec fn first_blank(lines: Seq<Seq<char>>, from: int) -> Option<int>
    decreases lines.len() - from,
{
    if from < 0 || from >= lines.len() {
        None
    } else if is_blank(lines[from]) {
        Some(from)
    } else {
        first_blank(lines, from + 1)
    }
}

/// The trimmed text, unless nothing is left of it.
pub open spec fn filled(s: Seq<char>) -> Option<Seq<char>> {
    if text::trim(s).len() == 0 {
        None
    } else {
        Some(text::trim(s))
    }
}

/// What the lines of a doc comment say: up to the first blank line the summary,
/// after it the description.
pub open spec fn docs_of(lines: Seq<Seq<char>>) -> DocsModel {
    let kept = without_blank_end(lines);
    match first_blank(kept, 0) {
        Some(i) => DocsModel {
            summary: filled(text::join(kept.take(i), " "@)),
            description: filled(text::join(kept.skip(i + 1), "\n"@)),
        },
        None => DocsModel { summary: filled(text::join(kept, " "@)), description: None },
    }
}

fn filled_text(s: &str) -> (out: Option<String>)
    ensures
        text::opt(out) == filled(s@),
{
    let t = text::trim_text(s);
    if t.as_str().is_empty() {
        None
    } else {
        Some(t)
    }
}

fn strip_space(raw: &str) -> (out: String)
    ensures
        out@ == doc_line(raw@),
{
    let v = text::chars(raw);
    let n: usize = v.len();
    if n > 0 && v[0] == ' ' {
        assert(v@.subrange(1, n as int) =~= v@.skip(1));
        text::text_of(&v, 1, n)
    } else {
        raw.to_owned()
    }
}

/// Joins the first `to` lines.
fn join_first(lines: &Vec<String>, to: usize, sep: &str) -> (out: String)
    requires
        to <= lines@.len(),
    ensures
        out@ == text::join(text::views(lines@).take(to as int), sep@),
{
    let mut first: Vec<String> = Vec::new();
    for i in 0..to
        invariant
            to <= lines@.len(),
            first@ == lines@.take(i as int),
    {
        first.push(lines[i].clone());
        assert(first@ =~= lines@.take(i + 1));
    }
    assert(text::views(first@).skip(0) =~= text::views(lines@).take(to as int));
    text::join_text(&first, 0, sep)
}

/// Collects `///` lines into a summary (first paragraph) and description.
///
/// This is how a handler gets documented prose without repeating it in an
/// attribute: the doc comment is already the right place for it.
pub fn doc_comment(attrs: &Vec<Attr>) -> (docs: Docs)
    ensures
        docs@ == docs_of(doc_lines(attrs@)),
{
    let mut lines: Vec<String> = Vec::new();
    assert(attrs@.take(0) =~= Seq::<Attr>::empty());
    assert(text::views(lines@) =~= Seq::<Seq<char>>::empty());
    for i in 0..attrs.len()
        invariant
            text::views(lines@) == doc_lines(attrs@.take(i as int)),
    {
        assert(attrs@.take(i + 1).drop_last() =~= attrs@.take(i as int));
        if text::same(attrs[i].path.as_str(), "doc") {
            if let Some(raw) = &attrs[i].text {
                let line = strip_space(raw.as_str());
                proof {
                    text::lemma_views_push(lines@, line);
                }
                lines.push(line);
            }
        }
    }
    assert(attrs@.take(attrs@.len() as int) =~= attrs@);
    let ghost all = text::views(lines@);
    while lines.len() > 0 && text::blank(lines[lines.len() - 1].as_str())
        invariant
            without_blank_end(text::views(lines@)) == without_blank_end(all),
        decreases lines@.len(),
    {
        let ghost before = text::views(lines@);
        assert(before.last() == lines@.last()@);
        lines.pop();
        assert(text::views(lines@) =~= before.drop_last());
    }
    let ghost kept = text::views(lines@);
    assert(kept.len() > 0 ==> kept.last() == lines@.last()@);
    assert(kept == without_blank_end(all));
    let mut at: usize = 0;
    while at < lines.len() && !text::blank(lines[at].as_str())
        invariant
            at <= lines@.len(),
            kept == text::views(lines@),
            first_blank(kept, 0) == first_blank(kept, at as int),
        decreases lines@.len() - at,
    {
        assert(kept[at as int] == lines@[at as int]@);
        at += 1;
    }
    if at < lines.len() {
        assert(kept[at as int] == lines@[at as int]@);
        let summary = join_first(&lines, at, " ");
        let description = text::join_text(&lines, at + 1, "\n");
        Docs {
            summary: filled_text(summary.as_str()),
            description: filled_text(description.as_str()),
        }
    } else {
        assert(kept.skip(0) =~= kept);
        let summary = text::join_text(&lines, 0, " ");
        Docs { summary: filled_text(summary.as_str()), description: None }
    }
}

// ---------------------------------------------------------------------------
// rename rules
// ---------------------------------------------------------------------------

/// What `char::to_uppercase` makes of a character.
pub uninterp spec fn uppercase_of(c: char) -> Seq<char>;

/// What `char::to_lowercase` makes of a character.
pub uninterp spec fn lowercase_of(c: char) -> Seq<char>;

/// Whether `char::is_uppercase` holds of a character.
pub uninterp spec fn is_upper(c: char) -> bool;

/// `char::to_uppercase`: an ASCII letter becomes its capital and any other
/// ASCII character stays. Beyond ASCII the mapping is named, not described.
#[verifier::external_body]
fn to_uppercase(c: char) -> (out: String)
    ensures
        out@ == uppercase_of(c),
        (c as int) < 128 ==> out@ == seq![text::upper(c)],
{
    c.to_uppercase().collect()
}

/// `char::to_lowercase`: an ASCII capital becomes its small letter and any
/// other ASCII character stays. Beyond ASCII the mapping is named, not described.
#[verifier::external_body]
fn to_lowercase(c: char) -> (out: String)
    ensures
        out@ == lowercase_of(c),
        (c as int) < 128 ==> out@ == seq![text::lower(c)],
{
    c.to_lowercase().collect()
}

/// `char::is_uppercase`: among ASCII characters, `A` to `Z`.
#[verifier::external_body]
fn uppercase(c: char) -> (r: bool)
    ensures
        r == is_upper(c),
        (c as int) < 128 ==> r == (65 <= c as int && c as int <= 90),
{
    c.is_uppercase()
}

/// A character in upper case.
pub open spec fn uppercased(c: char) -> Seq<char> {
    if (c as int) < 128 {
        seq![text::upper(c)]
    } else {
        uppercase_of(c)
    }
}

/// A character in lower case.
pub open spec fn lowercased(c: char) -> Seq<char> {
    if (c as int) < 128 {
        seq![text::lower(c)]
    } else {
        lowercase_of(c)
    }
}

/// A capital letter.
pub open spec fn is_capital(c: char) -> bool {
    if (c as int) < 128 {
        65 <= c as int <= 90
    } else {
        is_upper(c)
    }
}

/// A `#[serde(...)]` rename convention.
#[derive(Clone, Copy, Debug, PartialEq, Eq, Structural)]
pub enum RenameRule {
    /// Names stay as they are declared.
    AsIs,
    Lower,
    Upper,
    Pascal,
    Camel,
    Snake,
    ScreamingSnake,
    Kebab,
    ScreamingKebab,
}

/// The rule that a name stands for.
pub open spec fn rename_rule(value: Seq<char>) -> Result<RenameRule, Seq<char>> {
    if value == "lowercase"@ {
        Ok(RenameRule::Lower)
    } else if value == "UPPERCASE"@ {
        Ok(RenameRule::Upper)
    } else if value == "PascalCase"@ {
        Ok(RenameRule::Pascal)
    } else if value == "camelCase"@ {
        Ok(RenameRule::Camel)
    } else if value == "snake_case"@ {
        Ok(RenameRule::Snake)
    } else if value == "SCREAMING_SNAKE_CASE"@ {
        Ok(RenameRule::ScreamingSnake)
    } else if value == "kebab-case"@ {
        Ok(RenameRule::Kebab)
    } else if value == "SCREAMING-KEBAB-CASE"@ {
        Ok(RenameRule::ScreamingKebab)
    } else {
        Err("unknown rename rule `"@ + value + "`"@)
    }
}

/// A text with its first character in upper case.
pub open spec fn capitalised(s: Seq<char>) -> Seq<char> {
    if s.len() == 0 {
        Seq::empty()
    } else {
        uppercased(s[0]) + s.skip(1)
    }
}

/// A text with its first character in lower case.
pub open spec fn uncapitalised(s: Seq<char>) -> Seq<char> {
    if s.len() == 0 {
        Seq::empty()
    } else {
        lowercased(s[0]) + s.skip(1)
    }
}

/// The pieces of a list, each with its first character in upper case, run
/// together.
pub open spec fn all_capitalised(list: Seq<Seq<char>>) -> Seq<char>
    decreases list.len(),
{
    if list.len() == 0 {
        Seq::empty()
    } else {
        all_capitalised(list.drop_last()) + capitalised(list.last())
    }
}

/// A `PascalCase` name in `snake_case`: every capital but the first gets an
/// underscore in front, and all become small.
pub open spec fn snake(name: Seq<char>) -> Seq<char>
    decreases name.len(),
{
    if name.len() == 0 {
        Seq::empty()
    } else {
        let before = snake(name.drop_last());
        if is_capital(name.last()) {
            (if name.len() > 1 {
                before.push('_')
            } else {
                before
            }) + lowercased(name.last())
        } else {
            before.push(name.last())
        }
    }
}

pub open spec fn kebab(s: Seq<char>) -> Seq<char> {
    text::replaced(s, '_', "-"@)
}

impl RenameRule {
    /// What the rule makes of a `snake_case` field name.
    pub open spec fn field(self, name: Seq<char>) -> Seq<char> {
        match self {
            RenameRule::AsIs => name,
            RenameRule::Lower => name,
            RenameRule::Snake => name,
            RenameRule::Upper => text::ascii_upper(name),
            RenameRule::ScreamingSnake => text::ascii_upper(name),
            RenameRule::Pascal => all_capitalised(text::split(name, '_')),
            RenameRule::Camel => uncapitalised(all_capitalised(text::split(name, '_'))),
            RenameRule::Kebab => kebab(name),
            RenameRule::ScreamingKebab => text::ascii_upper(kebab(name)),
        }
    }

    /// What the rule makes of a `PascalCase` variant name.
    pub open spec fn variant(self, name: Seq<char>) -> Seq<char> {
        match self {
            RenameRule::AsIs => name,
            RenameRule::Pascal => name,
            RenameRule::Lower => text::ascii_lower(name),
            RenameRule::Upper => text::ascii_upper(name),
            RenameRule::Camel => uncapitalised(name),
            RenameRule::Snake => snake(name),
            RenameRule::ScreamingSnake => text::ascii_upper(snake(name)),
            RenameRule::Kebab => kebab(snake(name)),
            RenameRule::ScreamingKebab => text::ascii_upper(kebab(snake(name))),
        }
    }

    /// Reads a rule by its name.
    pub fn parse(value: &str) -> (r: Result<Self, SyntaxError>)
        ensures
            match r {
                Ok(rule) => rename_rule(value@) == Ok::<RenameRule, Seq<char>>(rule),
                Err(e) => rename_rule(value@) == Err::<RenameRule, Seq<char>>(e.message@),
            },
    {
        if text::same(value, "lowercase") {
            Ok(RenameRule::Lower)
        } else if text::same(value, "UPPERCASE") {
            Ok(RenameRule::Upper)
        } else if text::same(value, "PascalCase") {
            Ok(RenameRule::Pascal)
        } else if text::same(value, "camelCase") {
            Ok(RenameRule::Camel)
        } else if text::same(value, "snake_case") {
            Ok(RenameRule::Snake)
        } else if text::same(value, "SCREAMING_SNAKE_CASE") {
            Ok(RenameRule::ScreamingSnake)
        } else if text::same(value, "kebab-case") {
            Ok(RenameRule::Kebab)
        } else if text::same(value, "SCREAMING-KEBAB-CASE") {
            Ok(RenameRule::ScreamingKebab)
        } else {
            let mut message = "unknown rename rule `".to_owned();
            message.append(value);
            message.append("`");
            Err(SyntaxError { message })
        }
    }

    /// Applies the rule to a `snake_case` field name.
    pub fn apply_to_field(self, name: &str) -> (out: String)
        ensures
            out@ == self.field(name@),
    {
        match self {
            RenameRule::AsIs => name.to_owned(),
            RenameRule::Lower => name.to_owned(),
            RenameRule::Snake => name.to_owned(),
            RenameRule::Upper => text::upper_text(name),
            RenameRule::ScreamingSnake => text::upper_text(name),
            RenameRule::Pascal => pascal(name),
            RenameRule::Camel => uncapitalise(pascal(name).as_str()),
            RenameRule::Kebab => text::replace_char(name, '_', "-"),
            RenameRule::ScreamingKebab => text::upper_text(
                text::replace_char(name, '_', "-").as_str(),
            ),
        }
    }

    /// Applies the rule to a `PascalCase` variant name.
    pub fn apply_to_variant(self, name: &str) -> (out: String)
        ensures
            out@ == self.variant(name@),
    {
        match self {
            RenameRule::AsIs => name.to_owned(),
            RenameRule::Pascal => name.to_owned(),
            RenameRule::Lower => text::lower_text(name),
            RenameRule::Upper => text::upper_text(name),
            RenameRule::Camel => uncapitalise(name),
            RenameRule::Snake => pascal_to_snake(name),
            RenameRule::ScreamingSnake => text::upper_text(pascal_to_snake(name).as_str()),
            RenameRule::Kebab => text::replace_char(pascal_to_snake(name).as_str(), '_', "-"),
            RenameRule::ScreamingKebab => text::upper_text(
                text::replace_char(pascal_to_snake(name).as_str(), '_', "-").as_str(),
            ),
        }
    }
}

impl Default for RenameRule {
    fn default() -> (rule: Self)
        ensures
            rule == RenameRule::AsIs,
    {
        RenameRule::AsIs
    }
}

fn pascal(name: &str) -> (out: String)
    ensures
        out@ == all_capitalised(text::split(name@, '_')),
{
    let pieces = text::split_text(name, '_');
    let ghost all = text::views(pieces@);
    let mut out = String::new();
    assert(all.take(0) =~= Seq::<Seq<char>>::empty());
    for i in 0..pieces.len()
        invariant
            all == text::views(pieces@),
            out@ == all_capitalised(all.take(i as int)),
    {
        assert(all.take(i + 1).drop_last() =~= all.take(i as int));
        assert(all.take(i + 1).last() == pieces@[i as int]@);
        out.append(capitalise(pieces[i].as_str()).as_str());
    }
    assert(all.take(pieces@.len() as int) =~= all);
    out
}

/// Puts the first character in upper case.
pub fn capitalise(segment: &str) -> (out: String)
    ensures
        out@ == capitalised(segment@),
{
    let v = text::chars(segment);
    let n: usize = v.len();
    if n == 0 {
        return String::new();
    }
    let mut out = to_uppercase(v[0]);
    assert(v@.subrange(1, n as int) =~= v@.skip(1));
    out.append(text::text_of(&v, 1, n).as_str());
    out
}

fn uncapitalise(name: &str) -> (out: String)
    ensures
        out@ == uncapitalised(name@),
{
    let v = text::chars(name);
    let n: usize = v.len();
    if n == 0 {
        return String::new();
    }
    let mut out = to_lowercase(v[0]);
    assert(v@.subrange(1, n as int) =~= v@.skip(1));
    out.append(text::text_of(&v, 1, n).as_str());
    out
}

/// Writes a `PascalCase` name in `snake_case`.
pub fn pascal_to_snake(name: &str) -> (out: String)
    ensures
        out@ == snake(name@),
{
    let v = text::chars(name);
    let mut out = String::new();
    assert(v@.take(0) =~= Seq::<char>::empty());
    for i in 0..v.len()
        invariant
            v@ == name@,
            out@ == snake(v@.take(i as int)),
    {
        assert(v@.take(i + 1).drop_last() =~= v@.take(i as int));
        let c = v[i];
        if uppercase(c) {
            if i != 0 {
                out.push('_');
            }
            out.append(to_lowercase(c).as_str());
        } else {
            out.push(c);
        }
    }
    assert(v@.take(v@.len() as int) =~= v@);
    out
}

/// A field name in ASCII `snake_case`.
pub open spec fn is_snake_case(name: Seq<char>) -> bool {
    forall|i: int|
        0 <= i < name.len() ==> 97 <= (#[trigger] name[i]) as int <= 122 || 48 <= name[i] as int
            <= 57 || name[i] == '_'
}

/// A variant name in ASCII: letters and digits, a capital first.
pub open spec fn is_pascal_case(name: Seq<char>) -> bool {
    &&& name.len() > 0
    &&& 65 <= name[0] as int <= 90
    &&& forall|i: int|
        0 <= i < name.len() ==> 97 <= (#[trigger] name[i]) as int <= 122 || 65 <= name[i] as int
            <= 90 || 48 <= name[i] as int <= 57
}

proof fn lemma_kebab_and_back(name: Seq<char>)
    requires
        is_snake_case(name),
    ensures
        text::replaced(kebab(name), '-', "_"@) == name,
    decreases name.len(),
{
    reveal_strlit("-");
    reveal_strlit("_");
    if name.len() > 0 {
        let front = name.drop_last();
        assert forall|i: int| 0 <= i < front.len() implies 97 <= (#[trigger] front[i]) as int
            <= 122 || 48 <= front[i] as int <= 57 || front[i] == '_' by {
            assert(front[i] == name[i]);
        }
        lemma_kebab_and_back(front);
        let c = name.last();
        assert(c == name[name.len() - 1]);
        let k = kebab(front);
        if c == '_' {
            assert(kebab(name) =~= k.push('-'));
            assert(k.push('-').drop_last() =~= k);
            assert(text::replaced(k.push('-'), '-', "_"@) =~= front + "_"@);
        } else {
            assert(kebab(name) =~= k.push(c));
            assert(k.push(c).drop_last() =~= k);
            assert(text::replaced(k.push(c), '-', "_"@) =~= front.push(c));
        }
        assert(name =~= front.push(c));
        assert(front + "_"@ =~= front.push('_'));
    } else {
        assert(kebab(name) =~= Seq::<char>::empty());
        assert(text::replaced(kebab(name), '-', "_"@) =~= name);
    }
}

proof fn lemma_capitalised_without(list: Seq<Seq<char>>)
    requires
        forall|i: int, j: int|
            0 <= i < list.len() && 0 <= j < list[i].len() ==> (#[trigger] list[i][j]) != '_' && (
            list[i][j] as int) < 128,
    ensures
        !all_capitalised(list).contains('_'),
    decreases list.len(),
{
    let all = all_capitalised(list);
    if list.len() > 0 {
        let front = list.drop_last();
        assert forall|i: int, j: int|
            0 <= i < front.len() && 0 <= j < front[i].len() implies (#[trigger] front[i][j]) != '_'
            && (front[i][j] as int) < 128 by {
            assert(front[i][j] == list[i][j]);
        }
        lemma_capitalised_without(front);
        let before = all_capitalised(front);
        let piece = list.last();
        let big = capitalised(piece);
        assert forall|k: int| 0 <= k < big.len() implies #[trigger] big[k] != '_' by {
            assert(list[list.len() - 1][k] == piece[k]);
            assert(big[k] == if k == 0 {
                text::upper(piece[0])
            } else {
                piece[k]
            });
        }
        if all.contains('_') {
            let k = choose|k: int| 0 <= k < all.len() && all[k] == '_';
            if k < before.len() {
                assert(before[k] == '_');
            } else {
                assert(big[k - before.len()] == '_');
            }
        }
    }
}

/// What the rules make of a field name in ASCII `snake_case`: kebab names read
/// back, screaming is upper case, and Pascal names hold no underscore, with the
/// camel one differing in the first letter only.
pub proof fn field_rules_keep_a_snake_case_name(name: Seq<char>)
    requires
        is_snake_case(name),
    ensures
        RenameRule::AsIs.field(name) == name,
        RenameRule::Lower.field(name) == name,
        RenameRule::Snake.field(name) == name,
        RenameRule::ScreamingSnake.field(name) == text::ascii_upper(name),
        text::replaced(RenameRule::Kebab.field(name), '-', "_"@) == name,
        RenameRule::ScreamingKebab.field(name) == text::ascii_upper(RenameRule::Kebab.field(name)),
        !RenameRule::Pascal.field(name).contains('_'),
        RenameRule::Pascal.field(name).len() > 0 ==> RenameRule::Camel.field(name) == seq![
            text::lower(RenameRule::Pascal.field(name)[0]),
        ] + RenameRule::Pascal.field(name).skip(1),
        RenameRule::Pascal.field(name).len() == 0 ==> RenameRule::Camel.field(name).len() == 0,
{
    lemma_kebab_and_back(name);
    let pieces = text::split(name, '_');
    assert forall|i: int, j: int|
        0 <= i < pieces.len() && 0 <= j < pieces[i].len() implies (#[trigger] pieces[i][j]) != '_'
        && (pieces[i][j] as int) < 128 by {
        text::lemma_split_pieces(name, '_', i);
        assert(pieces[i].contains(pieces[i][j]));
        let c = pieces[i][j];
        if !name.contains(c) {
            text::lemma_split_within(name, '_', i, c);
        }
        let k = choose|k: int| 0 <= k < name.len() && name[k] == c;
        assert(name[k] == c);
    }
    lemma_capitalised_without(pieces);
    let p = all_capitalised(pieces);
    if p.len() > 0 {
        lemma_capitalised_ascii(pieces);
        assert((p[0] as int) < 128);
    }
}

proof fn lemma_capitalised_ascii(list: Seq<Seq<char>>)
    requires
        forall|i: int, j: int|
            0 <= i < list.len() && 0 <= j < list[i].len() ==> ((#[trigger] list[i][j]) as int)
                < 128,
    ensures
        forall|k: int|
            0 <= k < all_capitalised(list).len() ==> ((#[trigger] all_capitalised(list)[k]) as int)
                < 128,
    decreases list.len(),
{
    let all = all_capitalised(list);
    if list.len() > 0 {
        let front = list.drop_last();
        assert forall|i: int, j: int| 0 <= i < front.len() && 0 <= j < front[i].len() implies ((
        #[trigger] front[i][j]) as int) < 128 by {
            assert(front[i][j] == list[i][j]);
        }
        lemma_capitalised_ascii(front);
        let before = all_capitalised(front);
        let piece = list.last();
        let big = capitalised(piece);
        assert forall|k: int| 0 <= k < all.len() implies ((#[trigger] all[k]) as int) < 128 by {
            if k < before.len() {
                assert(all[k] == before[k]);
            } else {
                let j = k - before.len();
                assert(all[k] == big[j]);
                assert((list[list.len() - 1][j] as int) < 128);
                assert((list[list.len() - 1][0] as int) < 128);
                assert(big[j] == if j == 0 {
                    text::upper(piece[0])
                } else {
                    piece[j]
                });
            }
        }
    }
}

proof fn lemma_snake_and_back(name: Seq<char>)
    requires
        is_pascal_case(name),
    ensures
        all_capitalised(text::split(snake(name), '_')) == name,
        text::split(snake(name), '_').last().len() > 0,
    decreases name.len(),
{
    let front = name.drop_last();
    let c = name.last();
    assert(c == name[name.len() - 1]);
    let s = snake(front);
    let pieces = text::split(s, '_');
    text::lemma_split_len(s, '_');
    if name.len() == 1 {
        assert(front =~= Seq::<char>::empty());
        assert(snake(name) =~= seq![text::lower(c)]);
        let l = snake(name);
        assert(l.drop_last() =~= Seq::<char>::empty());
        let first = text::split(l, '_');
        assert(text::split(l.drop_last(), '_') =~= seq![Seq::<char>::empty()]);
        assert(first =~= seq![seq![text::lower(c)]]);
        assert(first.drop_last() =~= Seq::<Seq<char>>::empty());
        assert(capitalised(first.last()) =~= seq![c]);
        assert(all_capitalised(first.drop_last()) =~= Seq::<char>::empty());
        assert(all_capitalised(first) =~= seq![c]);
        assert(name =~= seq![c]);
    } else {
        assert(is_pascal_case(front)) by {
            assert(front[0] == name[0]);
            assert forall|i: int| 0 <= i < front.len() implies 97 <= (#[trigger] front[i]) as int
                <= 122 || 65 <= front[i] as int <= 90 || 48 <= front[i] as int <= 57 by {
                assert(front[i] == name[i]);
            }
        }
        lemma_snake_and_back(front);
        assert(all_capitalised(pieces) == all_capitalised(pieces.drop_last()) + capitalised(
            pieces.last(),
        ));
        if is_capital(c) {
            let l = text::lower(c);
            let barred = s.push('_');
            assert(barred.drop_last() =~= s);
            assert(snake(name) =~= barred.push(l));
            assert(barred.push(l).drop_last() =~= barred);
            let ended = text::split(barred, '_');
            assert(ended == pieces.push(Seq::<char>::empty()));
            assert(ended.drop_last() =~= pieces);
            let all = text::split(snake(name), '_');
            assert(all =~= pieces.push(seq![l]));
            assert(all.drop_last() =~= pieces);
            assert(capitalised(seq![l]) =~= seq![c]);
            assert(all_capitalised(all) =~= front.push(c));
        } else {
            assert(snake(name) =~= s.push(c));
            assert(s.push(c).drop_last() =~= s);
            let all = text::split(snake(name), '_');
            assert(all == pieces.drop_last().push(pieces.last().push(c)));
            assert(all.drop_last() =~= pieces.drop_last());
            assert(capitalised(pieces.last().push(c)) =~= capitalised(pieces.last()).push(c));
            assert(all_capitalised(all) =~= front.push(c));
        }
        assert(name =~= front.push(c));
    }
}

/// A variant name in ASCII `PascalCase` reads back from its `snake_case` form,
/// so distinct variants keep distinct names; the other rules only change the
/// case of that form or put dashes in place of its underscores.
pub proof fn a_variant_name_reads_back_from_snake_case(name: Seq<char>)
    requires
        is_pascal_case(name),
    ensures
        RenameRule::Pascal.field(RenameRule::Snake.variant(name)) == name,
        RenameRule::AsIs.variant(name) == name,
        RenameRule::Pascal.variant(name) == name,
        RenameRule::ScreamingSnake.variant(name) == text::ascii_upper(
            RenameRule::Snake.variant(name),
        ),
        RenameRule::Kebab.variant(name) == text::replaced(
            RenameRule::Snake.variant(name),
            '_',
            "-"@,
        ),
        RenameRule::ScreamingKebab.variant(name) == text::ascii_upper(
            text::replaced(RenameRule::Snake.variant(name), '_', "-"@),
        ),
{
    lemma_snake_and_back(name);
}

// ---------------------------------------------------------------------------
// literals
// ---------------------------------------------------------------------------

/// The text of a string literal.
pub open spec fn text_literal(value: Lit) -> Result<Seq<char>, Seq<char>> {
    match value {
        Lit::Text(s) => Ok(s@),
        _ => Err("expected a string literal"@),
    }
}

/// Reads a string literal out of an attribute value.
pub fn lit_str(value: &Lit) -> (r: Result<String, SyntaxError>)
    ensures
        match r {
            Ok(s) => text_literal(*value) == Ok::<Seq<char>, Seq<char>>(s@),
            Err(e) => text_literal(*value) == Err::<Seq<char>, Seq<char>>(e.message@),
        },
{
    match value {
        Lit::Text(s) => Ok(s.clone()),
        _ => Err(syntax_error("expected a string literal")),
    }
}

/// What is known of a JSON text after reading a part of it.
pub struct Scan {
    /// The brackets that are open.
    pub stack: Seq<char>,
    pub in_string: bool,
    pub escaped: bool,
}

/// One more character read.
pub open spec fn scan_step(s: Scan, c: char) -> Result<Scan, Seq<char>> {
    if s.in_string {
        if s.escaped {
            Ok(Scan { escaped: false, ..s })
        } else if c == '\\' {
            Ok(Scan { escaped: true, ..s })
        } else if c == '"' {
            Ok(Scan { in_string: false, ..s })
        } else {
            Ok(s)
        }
    } else if c == '"' {
        Ok(Scan { in_string: true, ..s })
    } else if c == '{' || c == '[' {
        Ok(Scan { stack: s.stack.push(c), ..s })
    } else if c == '}' {
        if s.stack.len() > 0 && s.stack.last() == '{' {
            Ok(Scan { stack: s.stack.drop_last(), ..s })
        } else {
            Err("unbalanced `}`"@)
        }
    } else if c == ']' {
        if s.stack.len() > 0 && s.stack.last() == '[' {
            Ok(Scan { stack: s.stack.drop_last(), ..s })
        } else {
            Err("unbalanced `]`"@)
        }
    } else {
        Ok(s)
    }
}

/// All of a text read.
pub open spec fn scan(s: Seq<char>) -> Result<Scan, Seq<char>>
    decreases s.len(),
{
    if s.len() == 0 {
        Ok(Scan { stack: Seq::empty(), in_string: false, escaped: false })
    } else {
        match scan(s.drop_last()) {
            Ok(before) => scan_step(before, s.last()),
            Err(e) => Err(e),
        }
    }
}

/// Why a text is not balanced JSON, if it is not.
pub open spec fn imbalance(raw: Seq<char>) -> Option<Seq<char>> {
    let trimmed = text::trim(raw);
    if trimmed.len() == 0 {
        Some("value is empty"@)
    } else {
        match scan(trimmed) {
            Err(e) => Some(e),
            Ok(end) => if end.in_string {
                Some("unterminated string"@)
            } else if end.stack.len() > 0 {
                Some("unclosed `{` or `[`"@)
            } else {
                None
            },
        }
    }
}

/// An error stays an error, whatever follows.
proof fn lemma_scan_stops(s: Seq<char>, i: int)
    requires
        0 <= i <= s.len(),
        scan(s.take(i)) is Err,
    ensures
        scan(s) == scan(s.take(i)),
    decreases s.len() - i,
{
    if i == s.len() {
        assert(s.take(i) =~= s);
    } else {
        assert(s.take(i + 1).drop_last() =~= s.take(i));
        lemma_scan_stops(s, i + 1);
    }
}

/// A structural check: balanced brackets and quotes.
///
/// This catches the common typos rather than fully validating the grammar.
pub fn serde_json_check(raw: &str) -> (r: Result<(), String>)
    ensures
        match r {
            Ok(_) => imbalance(raw@) is None,
            Err(e) => imbalance(raw@) == Some(e@),
        },
{
    let v = text::chars(raw);
    let (from, to) = text::trim_range(&v);
    let ghost trimmed = text::trim(raw@);
    if from == to {
        return Err("value is empty".to_owned());
    }
    let mut stack: Vec<char> = Vec::new();
    let mut in_string = false;
    let mut escaped = false;
    let mut i: usize = from;
    assert(trimmed.take(0) =~= Seq::<char>::empty());
    assert(stack@ =~= Seq::<char>::empty());
    while i < to
        invariant
            from <= i <= to <= v@.len(),
            from < to,
            trimmed == text::trim(raw@),
            trimmed == v@.subrange(from as int, to as int),
            scan(trimmed.take(i - from)) == Ok::<Scan, Seq<char>>(
                Scan { stack: stack@, in_string, escaped },
            ),
        decreases to - i,
    {
        let c = v[i];
        let ghost k = i - from;
        assert(trimmed.take(k + 1).drop_last() =~= trimmed.take(k));
        assert(trimmed[k] == c);
        if in_string {
            if escaped {
                escaped = false;
            } else if c == '\\' {
                escaped = true;
            } else if c == '"' {
                in_string = false;
            }
        } else if c == '"' {
            in_string = true;
        } else if c == '{' || c == '[' {
            stack.push(c);
        } else if c == '}' || c == ']' {
            let ghost before = stack@;
            let open = if c == '}' {
                '{'
            } else {
                '['
            };
            let closes = stack.len() > 0 && stack[stack.len() - 1] == open;
            if !closes {
                proof {
                    lemma_scan_stops(trimmed, k + 1);
                }
                return if c == '}' {
                    Err("unbalanced `}`".to_owned())
                } else {
                    Err("unbalanced `]`".to_owned())
                };
            }
            stack.pop();
            assert(stack@ =~= before.drop_last());
        }
        i += 1;
    }
    assert(trimmed.take(to - from) =~= trimmed);
    if in_string {
        Err("unterminated string".to_owned())
    } else if stack.len() > 0 {
        Err("unclosed `{` or `[`".to_owned())
    } else {
        Ok(())
    }
}

/// A JSON value for documentation.
pub open spec fn json_of(value: Lit) -> ValueModel
    decreases value,
{
    match value {
        Lit::Text(s) => ValueModel::String(s@),
        Lit::Number { text, .. } => ValueModel::Number(text@),
        Lit::List(list) => ValueModel::Array(json_list(list@)),
        Lit::Json(v) => v@,
    }
}

/// JSON values for documentation.
pub open spec fn json_list(list: Seq<Lit>) -> Seq<ValueModel>
    decreases list,
{
    Seq::new(
        list.len(),
        |i: int|
            if 0 <= i < list.len() {
                json_of(list[i])
            } else {
                ValueModel::Null
            },
    )
}

/// Turns an attribute value into JSON.
///
/// A string literal is always a JSON string and any other expression is
/// serialised, so `example = "42"` and `example = 42` mean different things
/// and neither is a guess.
pub fn json_expr(value: &Lit) -> (out: Value)
    ensures
        out@ == json_of(*value),
    decreases *value,
{
    match value {
        Lit::Text(s) => Value::String(s.clone()),
        Lit::Number { text, .. } => Value::Number(Number { text: text.clone() }),
        Lit::List(list) => {
            let mut out: Vec<Value> = Vec::new();
            for i in 0..list.len()
                invariant
                    out@.len() == i,
                    forall|j: int| 0 <= j < i ==> (#[trigger] out@[j])@ == json_of(list@[j]),
                    decreases_to!(*value => list@),
            {
                assert(decreases_to!(list@ => list@[i as int]));
                out.push(json_expr(&list[i]));
            }
            proof {
                json::lemma_list_model(out@);
            }
            assert(json::list_model(out@) =~= json_list(list@));
            Value::Array(out)
        },
        Lit::Json(v) => v.copy(),
    }
}

/// The string literals of a list: an array of them, or a single one.
pub open spec fn text_literals(value: Lit) -> Result<Seq<Seq<char>>, Seq<char>> {
    match value {
        Lit::List(list) => all_texts(list@),
        _ => match text_literal(value) {
            Ok(s) => Ok(seq![s]),
            Err(e) => Err(e),
        },
    }
}

/// The string literals of a list, or the error of the first that is none.
pub open spec fn all_texts(list: Seq<Lit>) -> Result<Seq<Seq<char>>, Seq<char>>
    decreases list.len(),
{
    if list.len() == 0 {
        Ok(Seq::empty())
    } else {
        match all_texts(list.drop_last()) {
            Err(e) => Err(e),
            Ok(before) => match text_literal(list.last()) {
                Ok(s) => Ok(before.push(s)),
                Err(e) => Err(e),
            },
        }
    }
}

proof fn lemma_texts_stop(list: Seq<Lit>, i: int)
    requires
        0 <= i <= list.len(),
        all_texts(list.take(i)) is Err,
    ensures
        all_texts(list) == all_texts(list.take(i)),
    decreases list.len() - i,
{
    if i == list.len() {
        assert(list.take(i) =~= list);
    } else {
        assert(list.take(i + 1).drop_last() =~= list.take(i));
        lemma_texts_stop(list, i + 1);
    }
}

/// Reads a list of string literals.
///
/// A bare string is accepted as a one-element list, because `tags = "users"` is
/// what everyone types first.
pub fn lit_str_array(value: &Lit) -> (r: Result<Vec<String>, SyntaxError>)
    ensures
        match r {
            Ok(list) => text_literals(*value) == Ok::<Seq<Seq<char>>, Seq<char>>(
                text::views(list@),
            ),
            Err(e) => text_literals(*value) == Err::<Seq<Seq<char>>, Seq<char>>(e.message@),
        },
{
    match value {
        Lit::List(list) => {
            let mut out: Vec<String> = Vec::new();
            assert(list@.take(0) =~= Seq::<Lit>::empty());
            assert(text::views(out@) =~= Seq::<Seq<char>>::empty());
            for i in 0..list.len()
                invariant
                    all_texts(list@.take(i as int)) == Ok::<Seq<Seq<char>>, Seq<char>>(
                        text::views(out@),
                    ),
                    *value == Lit::List(*list),
            {
                assert(list@.take(i + 1).drop_last() =~= list@.take(i as int));
                match lit_str(&list[i]) {
                    Ok(s) => {
                        proof {
                            text::lemma_views_push(out@, s);
                        }
                        out.push(s);
                    },
                    Err(e) => {
                        proof {
                            lemma_texts_stop(list@, i + 1);
                        }
                        return Err(e);
                    },
                }
            }
            assert(list@.take(list@.len() as int) =~= list@);
            Ok(out)
        },
        _ => match lit_str(value) {
            Ok(s) => {
                let mut out: Vec<String> = Vec::new();
                assert(text::views(seq![s]) =~= seq![s@]);
                out.push(s);
                assert(out@ =~= seq![s]);
                Ok(out)
            },
            Err(e) => Err(e),
        },
    }
}

} // verus!
