//! Declarations: what the attributes on a type, its fields and its variants say.

use crate::derive::attr;
use crate::derive::attr::{Attr, Lit, Meta, RenameRule, SyntaxError};
use crate::json::{Value, ValueModel};
use crate::openapi::schema;
use crate::text;
use vstd::prelude::*;
use vstd::string::*;

verus! {

// ---------------------------------------------------------------------------
// the value of a key
// ---------------------------------------------------------------------------

/// The string literal after `key =`.
pub open spec fn str_value(m: Meta) -> Result<Seq<char>, Seq<char>> {
    match m.value {
        None => Err("expected `=`"@),
        Some(Lit::Text(s)) => Ok(s@),
        Some(_) => Err("expected string literal"@),
    }
}

/// The text after `key =`.
pub open spec fn text_value(m: Meta) -> Result<Seq<char>, Seq<char>> {
    match m.value {
        None => Err("expected `=`"@),
        Some(v) => attr::text_literal(v),
    }
}

/// The JSON after `key =`.
pub open spec fn json_value(m: Meta) -> Result<ValueModel, Seq<char>> {
    match m.value {
        None => Err("expected `=`"@),
        Some(v) => Ok(attr::json_of(v)),
    }
}

/// The JSON text after `key =`, if its brackets and quotes balance.
pub open spec fn raw_value(m: Meta) -> Result<ValueModel, Seq<char>> {
    match text_value(m) {
        Err(e) => Err(e),
        Ok(raw) => match attr::imbalance(raw) {
            Some(e) => Err("`example_json` is not valid JSON: "@ + e),
            None => Ok(ValueModel::Raw(raw)),
        },
    }
}

/// The count after `key =`.
pub open spec fn count_value(m: Meta) -> Result<u64, Seq<char>> {
    match m.value {
        None => Err("expected `=`"@),
        Some(Lit::Number { count, .. }) => Ok(count),
        Some(_) => Err("expected a number"@),
    }
}

/// The decimal text of the number after `key =`.
pub open spec fn number_value(m: Meta) -> Result<Seq<char>, Seq<char>> {
    match m.value {
        None => Err("expected `=`"@),
        Some(Lit::Number { text, .. }) => Ok(text@),
        Some(_) => Err("expected a number"@),
    }
}

/// What is wrong with a text that should be a Rust path.
pub uninterp spec fn path_refusal(s: Seq<char>) -> Option<Seq<char>>;

/// `syn::parse_str` for a `syn::Path`: what is wrong with a text that is no
/// Rust path, and nothing for one that is. Which texts are paths is named, not
/// described.
#[verifier::external_body]
fn refused_path(s: &str) -> (refusal: Option<String>)
    ensures
        text::opt(refusal) == path_refusal(s@),
{
    syn::parse_str::<syn::Path>(s).err().map(|e| e.to_string())
}

/// A key that stands alone, without a value or a group.
pub open spec fn is_flag(m: Meta) -> bool {
    m.value is None && m.group is None
}

/// What is said where something follows a key that stands alone.
pub open spec fn expected_comma() -> Seq<char> {
    "expected `,`"@
}

fn flag(m: &Meta) -> (r: bool)
    ensures
        r == is_flag(*m),
{
    m.value.is_none() && m.group.is_none()
}

pub(crate) fn get_str(m: &Meta) -> (r: Result<String, SyntaxError>)
    ensures
        match r {
            Ok(s) => str_value(*m) == Ok::<Seq<char>, Seq<char>>(s@),
            Err(e) => str_value(*m) == Err::<Seq<char>, Seq<char>>(e.message@),
        },
{
    match &m.value {
        None => Err(attr::syntax_error("expected `=`")),
        Some(Lit::Text(s)) => Ok(s.clone()),
        Some(_) => Err(attr::syntax_error("expected string literal")),
    }
}

fn get_text(m: &Meta) -> (r: Result<String, SyntaxError>)
    ensures
        match r {
            Ok(s) => text_value(*m) == Ok::<Seq<char>, Seq<char>>(s@),
            Err(e) => text_value(*m) == Err::<Seq<char>, Seq<char>>(e.message@),
        },
{
    match &m.value {
        None => Err(attr::syntax_error("expected `=`")),
        Some(v) => attr::lit_str(v),
    }
}

fn get_json(m: &Meta) -> (r: Result<Value, SyntaxError>)
    ensures
        match r {
            Ok(v) => json_value(*m) == Ok::<ValueModel, Seq<char>>(v@),
            Err(e) => json_value(*m) == Err::<ValueModel, Seq<char>>(e.message@),
        },
{
    match &m.value {
        None => Err(attr::syntax_error("expected `=`")),
        Some(v) => Ok(attr::json_expr(v)),
    }
}

/// Parses an attribute value as raw JSON text, for `example_json = "..."`.
///
/// Rejecting malformed JSON here turns a documentation typo into a build error
/// instead of a confusing example in the published document.
pub fn json_literal_expr(m: &Meta) -> (r: Result<Value, SyntaxError>)
    ensures
        match r {
            Ok(v) => raw_value(*m) == Ok::<ValueModel, Seq<char>>(v@),
            Err(e) => raw_value(*m) == Err::<ValueModel, Seq<char>>(e.message@),
        },
{
    match get_text(m) {
        Err(e) => Err(e),
        Ok(raw) => match attr::serde_json_check(raw.as_str()) {
            Ok(_) => Ok(Value::Raw(raw)),
            Err(reason) => {
                let mut message = "`example_json` is not valid JSON: ".to_owned();
                message.append(reason.as_str());
                Err(SyntaxError { message })
            },
        },
    }
}

fn get_count(m: &Meta) -> (r: Result<u64, SyntaxError>)
    ensures
        match r {
            Ok(n) => count_value(*m) == Ok::<u64, Seq<char>>(n),
            Err(e) => count_value(*m) == Err::<u64, Seq<char>>(e.message@),
        },
{
    match &m.value {
        None => Err(attr::syntax_error("expected `=`")),
        Some(Lit::Number { count, .. }) => Ok(*count),
        Some(_) => Err(attr::syntax_error("expected a number")),
    }
}

fn get_number(m: &Meta) -> (r: Result<String, SyntaxError>)
    ensures
        match r {
            Ok(s) => number_value(*m) == Ok::<Seq<char>, Seq<char>>(s@),
            Err(e) => number_value(*m) == Err::<Seq<char>, Seq<char>>(e.message@),
        },
{
    match &m.value {
        None => Err(attr::syntax_error("expected `=`")),
        Some(Lit::Number { text, .. }) => Ok(text.clone()),
        Some(_) => Err(attr::syntax_error("expected a number")),
    }
}

// ---------------------------------------------------------------------------
// validation rules
// ---------------------------------------------------------------------------

/// The validation rules of a field.
pub struct Rules {
    pub min_length: Option<u64>,
    pub max_length: Option<u64>,
    pub min_items: Option<u64>,
    pub max_items: Option<u64>,
    pub minimum: Option<String>,
    pub maximum: Option<String>,
    pub exclusive_minimum: Option<String>,
    pub exclusive_maximum: Option<String>,
    pub multiple_of: Option<String>,
    pub pattern: Option<String>,
    pub format: Option<String>,
    pub non_blank: bool,
    pub nested: bool,
    pub custom: Vec<String>,
}

/// The validation rules of a field, as a value.
#[verifier::ext_equal]
pub struct RulesModel {
    pub min_length: Option<u64>,
    pub max_length: Option<u64>,
    pub min_items: Option<u64>,
    pub max_items: Option<u64>,
    pub minimum: Option<Seq<char>>,
    pub maximum: Option<Seq<char>>,
    pub exclusive_minimum: Option<Seq<char>>,
    pub exclusive_maximum: Option<Seq<char>>,
    pub multiple_of: Option<Seq<char>>,
    pub pattern: Option<Seq<char>>,
    pub format: Option<Seq<char>>,
    pub non_blank: bool,
    pub nested: bool,
    pub custom: Seq<Seq<char>>,
}

impl View for Rules {
    type V = RulesModel;

    open spec fn view(&self) -> RulesModel {
        RulesModel {
            min_length: self.min_length,
            max_length: self.max_length,
            min_items: self.min_items,
            max_items: self.max_items,
            minimum: text::opt(self.minimum),
            maximum: text::opt(self.maximum),
            exclusive_minimum: text::opt(self.exclusive_minimum),
            exclusive_maximum: text::opt(self.exclusive_maximum),
            multiple_of: text::opt(self.multiple_of),
            pattern: text::opt(self.pattern),
            format: text::opt(self.format),
            non_blank: self.non_blank,
            nested: self.nested,
            custom: text::views(self.custom@),
        }
    }
}

impl RulesModel {
    /// No rules.
    pub open spec fn none() -> RulesModel {
        RulesModel {
            min_length: None,
            max_length: None,
            min_items: None,
            max_items: None,
            minimum: None,
            maximum: None,
            exclusive_minimum: None,
            exclusive_maximum: None,
            multiple_of: None,
            pattern: None,
            format: None,
            non_blank: false,
            nested: false,
            custom: Seq::empty(),
        }
    }
}

pub open spec fn unknown_rule() -> Seq<char> {
    "unknown `validate` rule; expected one of `min_length`, `max_length`, `min_items`, `max_items`, `minimum`, `maximum`, `exclusive_minimum`, `exclusive_maximum`, `multiple_of`, `range`, `pattern`, `format`, `non_blank`, `nested`, `custom`"@
}

/// The rules after one key of `range(min = .., max = ..)`.
pub open spec fn range_step(r: RulesModel, m: Meta) -> Result<RulesModel, Seq<char>> {
    if m.path@ == "min"@ {
        match number_value(m) {
            Ok(n) => Ok(RulesModel { minimum: Some(n), ..r }),
            Err(e) => Err(e),
        }
    } else if m.path@ == "max"@ {
        match number_value(m) {
            Ok(n) => Ok(RulesModel { maximum: Some(n), ..r }),
            Err(e) => Err(e),
        }
    } else {
        Err("expected `min` or `max`"@)
    }
}

/// The rules after all keys of `range(..)`.
pub open spec fn range_all(r: RulesModel, metas: Seq<Meta>) -> Result<RulesModel, Seq<char>>
    decreases metas.len(),
{
    if metas.len() == 0 {
        Ok(r)
    } else {
        match range_all(r, metas.drop_last()) {
            Ok(before) => range_step(before, metas.last()),
            Err(e) => Err(e),
        }
    }
}

/// The rules after one key of `validate(..)`.
pub open spec fn rule_step(r: RulesModel, m: Meta) -> Result<RulesModel, Seq<char>> {
    if m.path@ == "min_length"@ {
        match count_value(m) {
            Ok(x) => Ok(RulesModel { min_length: Some(x), ..r }),
            Err(e) => Err(e),
        }
    } else if m.path@ == "max_length"@ {
        match count_value(m) {
            Ok(x) => Ok(RulesModel { max_length: Some(x), ..r }),
            Err(e) => Err(e),
        }
    } else if m.path@ == "min_items"@ {
        match count_value(m) {
            Ok(x) => Ok(RulesModel { min_items: Some(x), ..r }),
            Err(e) => Err(e),
        }
    } else if m.path@ == "max_items"@ {
        match count_value(m) {
            Ok(x) => Ok(RulesModel { max_items: Some(x), ..r }),
            Err(e) => Err(e),
        }
    } else if m.path@ == "minimum"@ {
        match number_value(m) {
            Ok(x) => Ok(RulesModel { minimum: Some(x), ..r }),
            Err(e) => Err(e),
        }
    } else if m.path@ == "maximum"@ {
        match number_value(m) {
            Ok(x) => Ok(RulesModel { maximum: Some(x), ..r }),
            Err(e) => Err(e),
        }
    } else if m.path@ == "exclusive_minimum"@ {
        match number_value(m) {
            Ok(x) => Ok(RulesModel { exclusive_minimum: Some(x), ..r }),
            Err(e) => Err(e),
        }
    } else if m.path@ == "exclusive_maximum"@ {
        match number_value(m) {
            Ok(x) => Ok(RulesModel { exclusive_maximum: Some(x), ..r }),
            Err(e) => Err(e),
        }
    } else if m.path@ == "multiple_of"@ {
        match number_value(m) {
            Ok(x) => Ok(RulesModel { multiple_of: Some(x), ..r }),
            Err(e) => Err(e),
        }
    } else if m.path@ == "range"@ {
        match m.group {
            Some(inner) => range_all(r, inner@),
            None => Err("expected parentheses"@),
        }
    } else if m.path@ == "pattern"@ {
        match text_value(m) {
            Ok(x) => Ok(RulesModel { pattern: Some(x), ..r }),
            Err(e) => Err(e),
        }
    } else if m.path@ == "format"@ {
        match text_value(m) {
            Ok(x) => Ok(RulesModel { format: Some(x), ..r }),
            Err(e) => Err(e),
        }
    } else if m.path@ == "non_blank"@ {
        if is_flag(m) {
            Ok(RulesModel { non_blank: true, ..r })
        } else {
            Err(expected_comma())
        }
    } else if m.path@ == "nested"@ {
        if is_flag(m) {
            Ok(RulesModel { nested: true, ..r })
        } else {
            Err(expected_comma())
        }
    } else if m.path@ == "custom"@ {
        match str_value(m) {
            Ok(x) => match path_refusal(x) {
                None => Ok(RulesModel { custom: r.custom.push(x), ..r }),
                Some(e) => Err(e),
            },
            Err(e) => Err(e),
        }
    } else {
        Err(unknown_rule())
    }
}

/// The rules after all keys of one `validate(..)`, which add to those there
/// are.
pub open spec fn rules_all(r: RulesModel, metas: Seq<Meta>) -> Result<RulesModel, Seq<char>>
    decreases metas.len(),
{
    if metas.len() == 0 {
        Ok(r)
    } else {
        match rules_all(r, metas.drop_last()) {
            Ok(before) => rule_step(before, metas.last()),
            Err(e) => Err(e),
        }
    }
}

proof fn lemma_range_stops(r: RulesModel, metas: Seq<Meta>, i: int)
    requires
        0 <= i <= metas.len(),
        range_all(r, metas.take(i)) is Err,
    ensures
        range_all(r, metas) == range_all(r, metas.take(i)),
    decreases metas.len() - i,
{
    if i == metas.len() {
        assert(metas.take(i) =~= metas);
    } else {
        assert(metas.take(i + 1).drop_last() =~= metas.take(i));
        lemma_range_stops(r, metas, i + 1);
    }
}

proof fn lemma_rules_stop(r: RulesModel, metas: Seq<Meta>, i: int)
    requires
        0 <= i <= metas.len(),
        rules_all(r, metas.take(i)) is Err,
    ensures
        rules_all(r, metas) == rules_all(r, metas.take(i)),
    decreases metas.len() - i,
{
    if i == metas.len() {
        assert(metas.take(i) =~= metas);
    } else {
        assert(metas.take(i + 1).drop_last() =~= metas.take(i));
        lemma_rules_stop(r, metas, i + 1);
    }
}

impl Rules {
    /// No rules.
    pub fn none() -> (r: Self)
        ensures
            r@ == RulesModel::none(),
    {
        let r = Rules {
            min_length: None,
            max_length: None,
            min_items: None,
            max_items: None,
            minimum: None,
            maximum: None,
            exclusive_minimum: None,
            exclusive_maximum: None,
            multiple_of: None,
            pattern: None,
            format: None,
            non_blank: false,
            nested: false,
            custom: Vec::new(),
        };
        assert(r@ =~= RulesModel::none());
        r
    }

    /// Whether there is nothing to check.
    pub fn is_empty(&self) -> (r: bool)
        ensures
            r == (self@ == RulesModel::none()),
    {
        let r = self.min_length.is_none()
            && self.max_length.is_none()
            && self.min_items.is_none()
            && self.max_items.is_none()
            && self.minimum.is_none()
            && self.maximum.is_none()
            && self.exclusive_minimum.is_none()
            && self.exclusive_maximum.is_none()
            && self.multiple_of.is_none()
            && self.pattern.is_none()
            && self.format.is_none()
            && !self.non_blank
            && !self.nested
            && self.custom.is_empty();
        proof {
            if r {
                assert(self@ =~= RulesModel::none());
            }
        }
        r
    }

    /// Reads the keys of one `validate(..)` attribute.
    pub fn parse(metas: &Vec<Meta>) -> (r: Result<Self, SyntaxError>)
        ensures
            match r {
                Ok(rules) => rules_all(RulesModel::none(), metas@) == Ok::<RulesModel, Seq<char>>(
                    rules@,
                ),
                Err(e) => rules_all(RulesModel::none(), metas@) == Err::<RulesModel, Seq<char>>(
                    e.message@,
                ),
            },
    {
        Rules::none().extended(metas)
    }

    /// Adds the keys of another `validate(..)` attribute.
    pub fn extended(self, metas: &Vec<Meta>) -> (r: Result<Self, SyntaxError>)
        ensures
            match r {
                Ok(rules) => rules_all(self@, metas@) == Ok::<RulesModel, Seq<char>>(rules@),
                Err(e) => rules_all(self@, metas@) == Err::<RulesModel, Seq<char>>(e.message@),
            },
    {
        let ghost start = self@;
        let mut rules = self;
        assert(metas@.take(0) =~= Seq::<Meta>::empty());
        for i in 0..metas.len()
            invariant
                start == self@,
                rules_all(start, metas@.take(i as int)) == Ok::<RulesModel, Seq<char>>(rules@),
        {
            assert(metas@.take(i + 1).drop_last() =~= metas@.take(i as int));
            match parse_rule(rules, &metas[i]) {
                Ok(next) => {
                    rules = next;
                },
                Err(e) => {
                    proof {
                        lemma_rules_stop(start, metas@, i + 1);
                    }
                    return Err(e);
                },
            }
        }
        assert(metas@.take(metas@.len() as int) =~= metas@);
        Ok(rules)
    }
}

fn parse_range(rules: Rules, metas: &Vec<Meta>) -> (r: Result<Rules, SyntaxError>)
    ensures
        match r {
            Ok(out) => range_all(rules@, metas@) == Ok::<RulesModel, Seq<char>>(out@),
            Err(e) => range_all(rules@, metas@) == Err::<RulesModel, Seq<char>>(e.message@),
        },
{
    let ghost start = rules@;
    let mut out = rules;
    assert(metas@.take(0) =~= Seq::<Meta>::empty());
    for i in 0..metas.len()
        invariant
            start == rules@,
            range_all(start, metas@.take(i as int)) == Ok::<RulesModel, Seq<char>>(out@),
    {
        assert(metas@.take(i + 1).drop_last() =~= metas@.take(i as int));
        let m = &metas[i];
        let is_min = text::same(m.path.as_str(), "min");
        let is_max = text::same(m.path.as_str(), "max");
        let step: Result<String, SyntaxError> = if is_min || is_max {
            get_number(m)
        } else {
            Err(attr::syntax_error("expected `min` or `max`"))
        };
        match step {
            Ok(n) => {
                if is_min {
                    out.minimum = Some(n);
                } else {
                    out.maximum = Some(n);
                }
            },
            Err(e) => {
                proof {
                    lemma_range_stops(start, metas@, i + 1);
                }
                return Err(e);
            },
        }
    }
    assert(metas@.take(metas@.len() as int) =~= metas@);
    Ok(out)
}

fn parse_rule(rules: Rules, m: &Meta) -> (r: Result<Rules, SyntaxError>)
    ensures
        match r {
            Ok(out) => rule_step(rules@, *m) == Ok::<RulesModel, Seq<char>>(out@),
            Err(e) => rule_step(rules@, *m) == Err::<RulesModel, Seq<char>>(e.message@),
        },
{
    let mut out = rules;
    let path = m.path.as_str();
    if text::same(path, "min_length") {
        match get_count(m) {
            Ok(x) => {
                out.min_length = Some(x);
                Ok(out)
            },
            Err(e) => Err(e),
        }
    } else if text::same(path, "max_length") {
        match get_count(m) {
            Ok(x) => {
                out.max_length = Some(x);
                Ok(out)
            },
            Err(e) => Err(e),
        }
    } else if text::same(path, "min_items") {
        match get_count(m) {
            Ok(x) => {
                out.min_items = Some(x);
                Ok(out)
            },
            Err(e) => Err(e),
        }
    } else if text::same(path, "max_items") {
        match get_count(m) {
            Ok(x) => {
                out.max_items = Some(x);
                Ok(out)
            },
            Err(e) => Err(e),
        }
    } else if text::same(path, "minimum") {
        match get_number(m) {
            Ok(x) => {
                out.minimum = Some(x);
                Ok(out)
            },
            Err(e) => Err(e),
        }
    } else if text::same(path, "maximum") {
        match get_number(m) {
            Ok(x) => {
                out.maximum = Some(x);
                Ok(out)
            },
            Err(e) => Err(e),
        }
    } else if text::same(path, "exclusive_minimum") {
        match get_number(m) {
            Ok(x) => {
                out.exclusive_minimum = Some(x);
                Ok(out)
            },
            Err(e) => Err(e),
        }
    } else if text::same(path, "exclusive_maximum") {
        match get_number(m) {
            Ok(x) => {
                out.exclusive_maximum = Some(x);
                Ok(out)
            },
            Err(e) => Err(e),
        }
    } else if text::same(path, "multiple_of") {
        match get_number(m) {
            Ok(x) => {
                out.multiple_of = Some(x);
                Ok(out)
            },
            Err(e) => Err(e),
        }
    } else if text::same(path, "range") {
        // `range(min = 1, max = 10)` is the shorthand people reach for.
        match &m.group {
            Some(inner) => parse_range(out, inner),
            None => Err(attr::syntax_error("expected parentheses")),
        }
    } else if text::same(path, "pattern") {
        match get_text(m) {
            Ok(x) => {
                out.pattern = Some(x);
                Ok(out)
            },
            Err(e) => Err(e),
        }
    } else if text::same(path, "format") {
        match get_text(m) {
            Ok(x) => {
                out.format = Some(x);
                Ok(out)
            },
            Err(e) => Err(e),
        }
    } else if text::same(path, "non_blank") {
        if flag(m) {
            out.non_blank = true;
            Ok(out)
        } else {
            Err(attr::syntax_error("expected `,`"))
        }
    } else if text::same(path, "nested") {
        if flag(m) {
            out.nested = true;
            Ok(out)
        } else {
            Err(attr::syntax_error("expected `,`"))
        }
    } else if text::same(path, "custom") {
        match get_str(m) {
            Ok(x) => {
                if let Some(message) = refused_path(x.as_str()) {
                    return Err(SyntaxError { message });
                }
                proof {
                    text::lemma_views_push(out.custom@, x);
                }
                out.custom.push(x);
                Ok(out)
            },
            Err(e) => Err(e),
        }
    } else {
        Err(
            attr::syntax_error(
                "unknown `validate` rule; expected one of `min_length`, `max_length`, `min_items`, `max_items`, `minimum`, `maximum`, `exclusive_minimum`, `exclusive_maximum`, `multiple_of`, `range`, `pattern`, `format`, `non_blank`, `nested`, `custom`",
            ),
        )
    }
}

// ---------------------------------------------------------------------------
// fields
// ---------------------------------------------------------------------------

/// A field as it was declared.
pub struct FieldDecl {
    /// The field's name; tuple fields have none.
    pub ident: Option<String>,
    pub attrs: Vec<Attr>,
}

/// A field, with what its attributes say of it.
pub struct Field {
    pub ident: Option<String>,
    pub index: usize,
    pub name: String,
    pub skip: bool,
    pub flatten: bool,
    pub has_default: bool,
    pub description: Option<String>,
    pub example: Option<Value>,
    pub default_value: Option<Value>,
    pub read_only: bool,
    pub write_only: bool,
    pub deprecated: bool,
    pub rules: Rules,
}

/// A field, as a value.
#[verifier::ext_equal]
pub struct FieldModel {
    pub ident: Option<Seq<char>>,
    pub index: usize,
    pub name: Seq<char>,
    pub skip: bool,
    pub flatten: bool,
    pub has_default: bool,
    pub description: Option<Seq<char>>,
    pub example: Option<ValueModel>,
    pub default_value: Option<ValueModel>,
    pub read_only: bool,
    pub write_only: bool,
    pub deprecated: bool,
    pub rules: RulesModel,
}

impl View for Field {
    type V = FieldModel;

    open spec fn view(&self) -> FieldModel {
        FieldModel {
            ident: text::opt(self.ident),
            index: self.index,
            name: self.name@,
            skip: self.skip,
            flatten: self.flatten,
            has_default: self.has_default,
            description: text::opt(self.description),
            example: schema::value(self.example),
            default_value: schema::value(self.default_value),
            read_only: self.read_only,
            write_only: self.write_only,
            deprecated: self.deprecated,
            rules: self.rules@,
        }
    }
}

/// What a field's doc comment says in full: the summary, and after a blank line
/// the description.
pub open spec fn whole_comment(d: attr::DocsModel) -> Option<Seq<char>> {
    match d.summary {
        None => None,
        Some(s) => match d.description {
            Some(rest) => Some(s + "\n\n"@ + rest),
            None => Some(s),
        },
    }
}

/// A field before its attributes are read.
pub open spec fn field_start(index: usize, decl: FieldDecl, rule: RenameRule) -> FieldModel {
    FieldModel {
        ident: text::opt(decl.ident),
        index,
        name: match decl.ident {
            Some(ident) => rule.field(ident@),
            None => text::decimal(index as nat),
        },
        skip: false,
        flatten: false,
        has_default: false,
        description: whole_comment(attr::docs_of(attr::doc_lines(decl.attrs@))),
        example: None,
        default_value: None,
        read_only: false,
        write_only: false,
        deprecated: false,
        rules: RulesModel::none(),
    }
}

/// A field after one key of `serde(..)`. Unknown keys are not ours to judge.
pub open spec fn field_serde(f: FieldModel, m: Meta) -> Result<FieldModel, Seq<char>> {
    if m.path@ == "rename"@ {
        match str_value(m) {
            Ok(s) => Ok(FieldModel { name: s, ..f }),
            Err(e) => Err(e),
        }
    } else if m.path@ == "skip"@ || m.path@ == "skip_serializing"@ || m.path@
        == "skip_deserializing"@ {
        if is_flag(m) {
            Ok(FieldModel { skip: true, ..f })
        } else {
            Err(expected_comma())
        }
    } else if m.path@ == "flatten"@ {
        if is_flag(m) {
            Ok(FieldModel { flatten: true, ..f })
        } else {
            Err(expected_comma())
        }
    } else if m.path@ == "default"@ {
        if m.group is None {
            Ok(FieldModel { has_default: true, ..f })
        } else {
            Err(expected_comma())
        }
    } else {
        Ok(f)
    }
}

/// A field after one key of `schema(..)`.
pub open spec fn field_schema(f: FieldModel, m: Meta) -> Result<FieldModel, Seq<char>> {
    if m.path@ == "description"@ {
        match text_value(m) {
            Ok(s) => Ok(FieldModel { description: Some(s), ..f }),
            Err(e) => Err(e),
        }
    } else if m.path@ == "example"@ {
        match json_value(m) {
            Ok(v) => Ok(FieldModel { example: Some(v), ..f }),
            Err(e) => Err(e),
        }
    } else if m.path@ == "example_json"@ {
        match raw_value(m) {
            Ok(v) => Ok(FieldModel { example: Some(v), ..f }),
            Err(e) => Err(e),
        }
    } else if m.path@ == "default"@ {
        match json_value(m) {
            Ok(v) => Ok(FieldModel { default_value: Some(v), ..f }),
            Err(e) => Err(e),
        }
    } else if m.path@ == "read_only"@ {
        if is_flag(m) {
            Ok(FieldModel { read_only: true, ..f })
        } else {
            Err(expected_comma())
        }
    } else if m.path@ == "write_only"@ {
        if is_flag(m) {
            Ok(FieldModel { write_only: true, ..f })
        } else {
            Err(expected_comma())
        }
    } else if m.path@ == "deprecated"@ {
        if is_flag(m) {
            Ok(FieldModel { deprecated: true, ..f })
        } else {
            Err(expected_comma())
        }
    } else if m.path@ == "rename"@ {
        match text_value(m) {
            Ok(s) => Ok(FieldModel { name: s, ..f }),
            Err(e) => Err(e),
        }
    } else {
        Err(
            "unknown `schema` option on a field; expected one of `description`, `example`, `default`, `read_only`, `write_only`, `deprecated`, `rename`"@,
        )
    }
}

/// A field after all keys of one `serde(..)`.
pub open spec fn field_serde_all(x: FieldModel, metas: Seq<Meta>) -> Result<FieldModel, Seq<char>>
    decreases metas.len(),
{
    if metas.len() == 0 {
        Ok(x)
    } else {
        match field_serde_all(x, metas.drop_last()) {
            Ok(before) => field_serde(before, metas.last()),
            Err(e) => Err(e),
        }
    }
}

proof fn lemma_field_serde_all_stops(x: FieldModel, metas: Seq<Meta>, i: int)
    requires
        0 <= i <= metas.len(),
        field_serde_all(x, metas.take(i)) is Err,
    ensures
        field_serde_all(x, metas) == field_serde_all(x, metas.take(i)),
    decreases metas.len() - i,
{
    if i == metas.len() {
        assert(metas.take(i) =~= metas);
    } else {
        assert(metas.take(i + 1).drop_last() =~= metas.take(i));
        lemma_field_serde_all_stops(x, metas, i + 1);
    }
}

/// A field after all keys of one `schema(..)`.
pub open spec fn field_schema_all(x: FieldModel, metas: Seq<Meta>) -> Result<FieldModel, Seq<char>>
    decreases metas.len(),
{
    if metas.len() == 0 {
        Ok(x)
    } else {
        match field_schema_all(x, metas.drop_last()) {
            Ok(before) => field_schema(before, metas.last()),
            Err(e) => Err(e),
        }
    }
}

proof fn lemma_field_schema_all_stops(x: FieldModel, metas: Seq<Meta>, i: int)
    requires
        0 <= i <= metas.len(),
        field_schema_all(x, metas.take(i)) is Err,
    ensures
        field_schema_all(x, metas) == field_schema_all(x, metas.take(i)),
    decreases metas.len() - i,
{
    if i == metas.len() {
        assert(metas.take(i) =~= metas);
    } else {
        assert(metas.take(i + 1).drop_last() =~= metas.take(i));
        lemma_field_schema_all_stops(x, metas, i + 1);
    }
}

/// A field after one attribute.
pub open spec fn field_attr(f: FieldModel, a: Attr) -> Result<FieldModel, Seq<char>> {
    if a.path@ == "serde"@ {
        field_serde_all(f, a.metas@)
    } else if a.path@ == "schema"@ {
        field_schema_all(f, a.metas@)
    } else if a.path@ == "validate"@ {
        match rules_all(f.rules, a.metas@) {
            Ok(rules) => Ok(FieldModel { rules, ..f }),
            Err(e) => Err(e),
        }
    } else {
        Ok(f)
    }
}

/// A field after all its attributes.
pub open spec fn field_attrs(x: FieldModel, attrs: Seq<Attr>) -> Result<FieldModel, Seq<char>>
    decreases attrs.len(),
{
    if attrs.len() == 0 {
        Ok(x)
    } else {
        match field_attrs(x, attrs.drop_last()) {
            Ok(before) => field_attr(before, attrs.last()),
            Err(e) => Err(e),
        }
    }
}

proof fn lemma_field_attrs_stops(x: FieldModel, attrs: Seq<Attr>, i: int)
    requires
        0 <= i <= attrs.len(),
        field_attrs(x, attrs.take(i)) is Err,
    ensures
        field_attrs(x, attrs) == field_attrs(x, attrs.take(i)),
    decreases attrs.len() - i,
{
    if i == attrs.len() {
        assert(attrs.take(i) =~= attrs);
    } else {
        assert(attrs.take(i + 1).drop_last() =~= attrs.take(i));
        lemma_field_attrs_stops(x, attrs, i + 1);
    }
}

/// What a field's declaration says.
pub open spec fn field_of(
    index: usize,
    decl: FieldDecl,
    rule: RenameRule,
) -> Result<FieldModel, Seq<char>> {
    field_attrs(field_start(index, decl, rule), decl.attrs@)
}

fn parse_field_serde(f: Field, m: &Meta) -> (r: Result<Field, SyntaxError>)
    ensures
        match r {
            Ok(out) => field_serde(f@, *m) == Ok::<FieldModel, Seq<char>>(out@),
            Err(e) => field_serde(f@, *m) == Err::<FieldModel, Seq<char>>(e.message@),
        },
{
    let mut out = f;
    let path = m.path.as_str();
    if text::same(path, "rename") {
        match get_str(m) {
            Ok(s) => {
                out.name = s;
                Ok(out)
            },
            Err(e) => Err(e),
        }
    } else if text::same(path, "skip") || text::same(path, "skip_serializing") || text::same(
        path,
        "skip_deserializing",
    ) {
        if flag(m) {
            out.skip = true;
            Ok(out)
        } else {
            Err(attr::syntax_error("expected `,`"))
        }
    } else if text::same(path, "flatten") {
        if flag(m) {
            out.flatten = true;
            Ok(out)
        } else {
            Err(attr::syntax_error("expected `,`"))
        }
    } else if text::same(path, "default") {
        if m.group.is_none() {
            out.has_default = true;
            Ok(out)
        } else {
            Err(attr::syntax_error("expected `,`"))
        }
    } else {
        Ok(out)
    }
}

fn parse_field_schema(f: Field, m: &Meta) -> (r: Result<Field, SyntaxError>)
    ensures
        match r {
            Ok(out) => field_schema(f@, *m) == Ok::<FieldModel, Seq<char>>(out@),
            Err(e) => field_schema(f@, *m) == Err::<FieldModel, Seq<char>>(e.message@),
        },
{
    let mut out = f;
    let path = m.path.as_str();
    if text::same(path, "description") {
        match get_text(m) {
            Ok(s) => {
                out.description = Some(s);
                Ok(out)
            },
            Err(e) => Err(e),
        }
    } else if text::same(path, "example") {
        match get_json(m) {
            Ok(v) => {
                out.example = Some(v);
                Ok(out)
            },
            Err(e) => Err(e),
        }
    } else if text::same(path, "example_json") {
        match json_literal_expr(m) {
            Ok(v) => {
                out.example = Some(v);
                Ok(out)
            },
            Err(e) => Err(e),
        }
    } else if text::same(path, "default") {
        match get_json(m) {
            Ok(v) => {
                out.default_value = Some(v);
                Ok(out)
            },
            Err(e) => Err(e),
        }
    } else if text::same(path, "read_only") {
        if flag(m) {
            out.read_only = true;
            Ok(out)
        } else {
            Err(attr::syntax_error("expected `,`"))
        }
    } else if text::same(path, "write_only") {
        if flag(m) {
            out.write_only = true;
            Ok(out)
        } else {
            Err(attr::syntax_error("expected `,`"))
        }
    } else if text::same(path, "deprecated") {
        if flag(m) {
            out.deprecated = true;
            Ok(out)
        } else {
            Err(attr::syntax_error("expected `,`"))
        }
    } else if text::same(path, "rename") {
        match get_text(m) {
            Ok(s) => {
                out.name = s;
                Ok(out)
            },
            Err(e) => Err(e),
        }
    } else {
        Err(
            attr::syntax_error(
                "unknown `schema` option on a field; expected one of `description`, `example`, `default`, `read_only`, `write_only`, `deprecated`, `rename`",
            ),
        )
    }
}

fn parse_field_serde_all(x: Field, metas: &Vec<Meta>) -> (r: Result<Field, SyntaxError>)
    ensures
        match r {
            Ok(out) => field_serde_all(x@, metas@) == Ok::<FieldModel, Seq<char>>(out@),
            Err(e) => field_serde_all(x@, metas@) == Err::<FieldModel, Seq<char>>(e.message@),
        },
{
    let ghost start = x@;
    let mut out = x;
    assert(metas@.take(0) =~= Seq::<Meta>::empty());
    for i in 0..metas.len()
        invariant
            start == x@,
            field_serde_all(start, metas@.take(i as int)) == Ok::<FieldModel, Seq<char>>(out@),
    {
        assert(metas@.take(i + 1).drop_last() =~= metas@.take(i as int));
        match parse_field_serde(out, &metas[i]) {
            Ok(next) => {
                out = next;
            },
            Err(e) => {
                proof {
                    lemma_field_serde_all_stops(start, metas@, i + 1);
                }
                return Err(e);
            },
        }
    }
    assert(metas@.take(metas@.len() as int) =~= metas@);
    Ok(out)
}

fn parse_field_schema_all(x: Field, metas: &Vec<Meta>) -> (r: Result<Field, SyntaxError>)
    ensures
        match r {
            Ok(out) => field_schema_all(x@, metas@) == Ok::<FieldModel, Seq<char>>(out@),
            Err(e) => field_schema_all(x@, metas@) == Err::<FieldModel, Seq<char>>(e.message@),
        },
{
    let ghost start = x@;
    let mut out = x;
    assert(metas@.take(0) =~= Seq::<Meta>::empty());
    for i in 0..metas.len()
        invariant
            start == x@,
            field_schema_all(start, metas@.take(i as int)) == Ok::<FieldModel, Seq<char>>(out@),
    {
        assert(metas@.take(i + 1).drop_last() =~= metas@.take(i as int));
        match parse_field_schema(out, &metas[i]) {
            Ok(next) => {
                out = next;
            },
            Err(e) => {
                proof {
                    lemma_field_schema_all_stops(start, metas@, i + 1);
                }
                return Err(e);
            },
        }
    }
    assert(metas@.take(metas@.len() as int) =~= metas@);
    Ok(out)
}

fn parse_field_attr(f: Field, a: &Attr) -> (r: Result<Field, SyntaxError>)
    ensures
        match r {
            Ok(out) => field_attr(f@, *a) == Ok::<FieldModel, Seq<char>>(out@),
            Err(e) => field_attr(f@, *a) == Err::<FieldModel, Seq<char>>(e.message@),
        },
{
    if text::same(a.path.as_str(), "serde") {
        parse_field_serde_all(f, &a.metas)
    } else if text::same(a.path.as_str(), "schema") {
        parse_field_schema_all(f, &a.metas)
    } else if text::same(a.path.as_str(), "validate") {
        let mut out = f;
        match out.rules.extended(&a.metas) {
            Ok(rules) => {
                out.rules = rules;
                Ok(out)
            },
            Err(e) => Err(e),
        }
    } else {
        Ok(f)
    }
}

impl Field {
    /// Reads a field's declaration.
    pub fn parse(index: usize, decl: &FieldDecl, rename_all: RenameRule) -> (r: Result<
        Self,
        SyntaxError,
    >)
        ensures
            match r {
                Ok(f) => field_of(index, *decl, rename_all) == Ok::<FieldModel, Seq<char>>(f@),
                Err(e) => field_of(index, *decl, rename_all) == Err::<FieldModel, Seq<char>>(
                    e.message@,
                ),
            },
    {
        let docs = attr::doc_comment(&decl.attrs);
        let description = match docs.summary {
            None => None,
            Some(s) => match docs.description {
                Some(rest) => {
                    let mut whole = s;
                    whole.append("\n\n");
                    whole.append(rest.as_str());
                    Some(whole)
                },
                None => Some(s),
            },
        };
        let name = match &decl.ident {
            Some(ident) => rename_all.apply_to_field(ident.as_str()),
            None => text::decimal_text(index as u64),
        };
        let ident = match &decl.ident {
            Some(ident) => Some(ident.clone()),
            None => None,
        };
        let mut out = Field {
            ident,
            index,
            name,
            skip: false,
            flatten: false,
            has_default: false,
            description,
            example: None,
            default_value: None,
            read_only: false,
            write_only: false,
            deprecated: false,
            rules: Rules::none(),
        };
        let ghost start = field_start(index, *decl, rename_all);
        assert(out@ =~= start);
        let attrs = &decl.attrs;
        assert(attrs@.take(0) =~= Seq::<Attr>::empty());
        for i in 0..attrs.len()
            invariant
                start == field_start(index, *decl, rename_all),
                attrs@ == decl.attrs@,
                field_attrs(start, attrs@.take(i as int)) == Ok::<FieldModel, Seq<char>>(out@),
        {
            assert(attrs@.take(i + 1).drop_last() =~= attrs@.take(i as int));
            match parse_field_attr(out, &attrs[i]) {
                Ok(next) => {
                    out = next;
                },
                Err(e) => {
                    proof {
                        lemma_field_attrs_stops(start, attrs@, i + 1);
                    }
                    return Err(e);
                },
            }
        }
        assert(attrs@.take(attrs@.len() as int) =~= attrs@);
        Ok(out)
    }
}

/// The fields of a list.
pub open spec fn field_models(list: Seq<Field>) -> Seq<FieldModel> {
    list.map_values(|f: Field| f@)
}

/// The fields of a declaration that are not skipped.
pub open spec fn fields_of(
    decls: Seq<FieldDecl>,
    rule: RenameRule,
) -> Result<Seq<FieldModel>, Seq<char>>
    decreases decls.len(),
{
    if decls.len() == 0 {
        Ok(Seq::empty())
    } else {
        match fields_of(decls.drop_last(), rule) {
            Err(e) => Err(e),
            Ok(before) => match field_of((decls.len() - 1) as usize, decls.last(), rule) {
                Err(e) => Err(e),
                Ok(f) => if f.skip {
                    Ok(before)
                } else {
                    Ok(before.push(f))
                },
            },
        }
    }
}

proof fn lemma_fields_stop(decls: Seq<FieldDecl>, rule: RenameRule, i: int)
    requires
        0 <= i <= decls.len(),
        fields_of(decls.take(i), rule) is Err,
    ensures
        fields_of(decls, rule) == fields_of(decls.take(i), rule),
    decreases decls.len() - i,
{
    if i == decls.len() {
        assert(decls.take(i) =~= decls);
    } else {
        assert(decls.take(i + 1).drop_last() =~= decls.take(i));
        lemma_fields_stop(decls, rule, i + 1);
    }
}

/// Reads the fields of a declaration, leaving out those that are skipped.
pub fn collect_fields(decls: &Vec<FieldDecl>, rename_all: RenameRule) -> (r: Result<
    Vec<Field>,
    SyntaxError,
>)
    ensures
        match r {
            Ok(list) => fields_of(decls@, rename_all) == Ok::<Seq<FieldModel>, Seq<char>>(
                field_models(list@),
            ),
            Err(e) => fields_of(decls@, rename_all) == Err::<Seq<FieldModel>, Seq<char>>(
                e.message@,
            ),
        },
{
    let mut out: Vec<Field> = Vec::new();
    assert(decls@.take(0) =~= Seq::<FieldDecl>::empty());
    assert(field_models(out@) =~= Seq::<FieldModel>::empty());
    for i in 0..decls.len()
        invariant
            fields_of(decls@.take(i as int), rename_all) == Ok::<Seq<FieldModel>, Seq<char>>(
                field_models(out@),
            ),
    {
        assert(decls@.take(i + 1).drop_last() =~= decls@.take(i as int));
        match Field::parse(i, &decls[i], rename_all) {
            Ok(f) => {
                if !f.skip {
                    assert(field_models(out@.push(f)) =~= field_models(out@).push(f@));
                    out.push(f);
                }
            },
            Err(e) => {
                proof {
                    lemma_fields_stop(decls@, rename_all, i + 1);
                }
                return Err(e);
            },
        }
    }
    assert(decls@.take(decls@.len() as int) =~= decls@);
    Ok(out)
}

// ---------------------------------------------------------------------------
// containers
// ---------------------------------------------------------------------------

/// What the attributes on a type say of it.
pub struct Container {
    pub rename: Option<String>,
    pub rename_all: RenameRule,
    pub rename_all_variants: Option<RenameRule>,
    pub inlined: bool,
    pub deny_unknown_fields: bool,
    pub transparent: bool,
    pub title: Option<String>,
    pub description: Option<String>,
    pub example: Option<Value>,
    pub tag: Option<String>,
    pub content: Option<String>,
    pub untagged: bool,
}

/// What the attributes on a type say of it, as a value.
#[verifier::ext_equal]
pub struct ContainerModel {
    pub rename: Option<Seq<char>>,
    pub rename_all: RenameRule,
    pub rename_all_variants: Option<RenameRule>,
    pub inlined: bool,
    pub deny_unknown_fields: bool,
    pub transparent: bool,
    pub title: Option<Seq<char>>,
    pub description: Option<Seq<char>>,
    pub example: Option<ValueModel>,
    pub tag: Option<Seq<char>>,
    pub content: Option<Seq<char>>,
    pub untagged: bool,
}

impl View for Container {
    type V = ContainerModel;

    open spec fn view(&self) -> ContainerModel {
        ContainerModel {
            rename: text::opt(self.rename),
            rename_all: self.rename_all,
            rename_all_variants: self.rename_all_variants,
            inlined: self.inlined,
            deny_unknown_fields: self.deny_unknown_fields,
            transparent: self.transparent,
            title: text::opt(self.title),
            description: text::opt(self.description),
            example: schema::value(self.example),
            tag: text::opt(self.tag),
            content: text::opt(self.content),
            untagged: self.untagged,
        }
    }
}

/// A container before its attributes are read. A doc comment supplies the
/// description: what follows the first paragraph, or else that paragraph.
pub open spec fn container_start(attrs: Seq<Attr>) -> ContainerModel {
    let docs = attr::docs_of(attr::doc_lines(attrs));
    ContainerModel {
        rename: None,
        rename_all: RenameRule::AsIs,
        rename_all_variants: None,
        inlined: false,
        deny_unknown_fields: false,
        transparent: false,
        title: None,
        description: match docs.description {
            Some(d) => Some(d),
            None => docs.summary,
        },
        example: None,
        tag: None,
        content: None,
        untagged: false,
    }
}

/// The rule after `key =`.
pub open spec fn rule_value(m: Meta) -> Result<RenameRule, Seq<char>> {
    match str_value(m) {
        Ok(s) => attr::rename_rule(s),
        Err(e) => Err(e),
    }
}

fn get_rule(m: &Meta) -> (r: Result<RenameRule, SyntaxError>)
    ensures
        match r {
            Ok(rule) => rule_value(*m) == Ok::<RenameRule, Seq<char>>(rule),
            Err(e) => rule_value(*m) == Err::<RenameRule, Seq<char>>(e.message@),
        },
{
    match get_str(m) {
        Ok(s) => RenameRule::parse(s.as_str()),
        Err(e) => Err(e),
    }
}

/// A container after one key of `serde(..)`. Unknown keys are not ours to judge.
pub open spec fn container_serde(c: ContainerModel, m: Meta) -> Result<ContainerModel, Seq<char>> {
    if m.path@ == "rename_all"@ {
        match rule_value(m) {
            Ok(x) => Ok(ContainerModel { rename_all: x, ..c }),
            Err(e) => Err(e),
        }
    } else if m.path@ == "rename_all_fields"@ {
        match rule_value(m) {
            Ok(x) => Ok(ContainerModel { rename_all_variants: Some(x), ..c }),
            Err(e) => Err(e),
        }
    } else if m.path@ == "rename"@ {
        match str_value(m) {
            Ok(x) => Ok(ContainerModel { rename: Some(x), ..c }),
            Err(e) => Err(e),
        }
    } else if m.path@ == "deny_unknown_fields"@ {
        if is_flag(m) {
            Ok(ContainerModel { deny_unknown_fields: true, ..c })
        } else {
            Err(expected_comma())
        }
    } else if m.path@ == "transparent"@ {
        if is_flag(m) {
            Ok(ContainerModel { transparent: true, ..c })
        } else {
            Err(expected_comma())
        }
    } else if m.path@ == "tag"@ {
        match str_value(m) {
            Ok(x) => Ok(ContainerModel { tag: Some(x), ..c }),
            Err(e) => Err(e),
        }
    } else if m.path@ == "content"@ {
        match str_value(m) {
            Ok(x) => Ok(ContainerModel { content: Some(x), ..c }),
            Err(e) => Err(e),
        }
    } else if m.path@ == "untagged"@ {
        if is_flag(m) {
            Ok(ContainerModel { untagged: true, ..c })
        } else {
            Err(expected_comma())
        }
    } else {
        Ok(c)
    }
}

fn parse_container_serde(c: Container, m: &Meta) -> (r: Result<Container, SyntaxError>)
    ensures
        match r {
            Ok(out) => container_serde(c@, *m) == Ok::<ContainerModel, Seq<char>>(out@),
            Err(e) => container_serde(c@, *m) == Err::<ContainerModel, Seq<char>>(e.message@),
        },
{
    let mut out = c;
    let path = m.path.as_str();
    if text::same(path, "rename_all") {
        match get_rule(m) {
            Ok(x) => {
                out.rename_all = x;
                Ok(out)
            },
            Err(e) => Err(e),
        }
    } else if text::same(path, "rename_all_fields") {
        match get_rule(m) {
            Ok(x) => {
                out.rename_all_variants = Some(x);
                Ok(out)
            },
            Err(e) => Err(e),
        }
    } else if text::same(path, "rename") {
        match get_str(m) {
            Ok(x) => {
                out.rename = Some(x);
                Ok(out)
            },
            Err(e) => Err(e),
        }
    } else if text::same(path, "deny_unknown_fields") {
        if flag(m) {
            out.deny_unknown_fields = true;
            Ok(out)
        } else {
            Err(attr::syntax_error("expected `,`"))
        }
    } else if text::same(path, "transparent") {
        if flag(m) {
            out.transparent = true;
            Ok(out)
        } else {
            Err(attr::syntax_error("expected `,`"))
        }
    } else if text::same(path, "tag") {
        match get_str(m) {
            Ok(x) => {
                out.tag = Some(x);
                Ok(out)
            },
            Err(e) => Err(e),
        }
    } else if text::same(path, "content") {
        match get_str(m) {
            Ok(x) => {
                out.content = Some(x);
                Ok(out)
            },
            Err(e) => Err(e),
        }
    } else if text::same(path, "untagged") {
        if flag(m) {
            out.untagged = true;
            Ok(out)
        } else {
            Err(attr::syntax_error("expected `,`"))
        }
    } else {
        Ok(out)
    }
}

/// A container after one key of `schema(..)`.
pub open spec fn container_schema(c: ContainerModel, m: Meta) -> Result<ContainerModel, Seq<char>> {
    if m.path@ == "rename"@ {
        match text_value(m) {
            Ok(x) => Ok(ContainerModel { rename: Some(x), ..c }),
            Err(e) => Err(e),
        }
    } else if m.path@ == "inline"@ {
        if is_flag(m) {
            Ok(ContainerModel { inlined: true, ..c })
        } else {
            Err(expected_comma())
        }
    } else if m.path@ == "title"@ {
        match text_value(m) {
            Ok(x) => Ok(ContainerModel { title: Some(x), ..c }),
            Err(e) => Err(e),
        }
    } else if m.path@ == "description"@ {
        match text_value(m) {
            Ok(x) => Ok(ContainerModel { description: Some(x), ..c }),
            Err(e) => Err(e),
        }
    } else if m.path@ == "example"@ {
        match json_value(m) {
            Ok(x) => Ok(ContainerModel { example: Some(x), ..c }),
            Err(e) => Err(e),
        }
    } else if m.path@ == "example_json"@ {
        match raw_value(m) {
            Ok(x) => Ok(ContainerModel { example: Some(x), ..c }),
            Err(e) => Err(e),
        }
    } else if m.path@ == "deny_unknown_fields"@ {
        if is_flag(m) {
            Ok(ContainerModel { deny_unknown_fields: true, ..c })
        } else {
            Err(expected_comma())
        }
    } else {
        Err(
            "unknown `schema` option; expected one of `rename`, `inline`, `title`, `description`, `example`, `deny_unknown_fields`"@,
        )
    }
}

fn parse_container_schema(c: Container, m: &Meta) -> (r: Result<Container, SyntaxError>)
    ensures
        match r {
            Ok(out) => container_schema(c@, *m) == Ok::<ContainerModel, Seq<char>>(out@),
            Err(e) => container_schema(c@, *m) == Err::<ContainerModel, Seq<char>>(e.message@),
        },
{
    let mut out = c;
    let path = m.path.as_str();
    if text::same(path, "rename") {
        match get_text(m) {
            Ok(x) => {
                out.rename = Some(x);
                Ok(out)
            },
            Err(e) => Err(e),
        }
    } else if text::same(path, "inline") {
        if flag(m) {
            out.inlined = true;
            Ok(out)
        } else {
            Err(attr::syntax_error("expected `,`"))
        }
    } else if text::same(path, "title") {
        match get_text(m) {
            Ok(x) => {
                out.title = Some(x);
                Ok(out)
            },
            Err(e) => Err(e),
        }
    } else if text::same(path, "description") {
        match get_text(m) {
            Ok(x) => {
                out.description = Some(x);
                Ok(out)
            },
            Err(e) => Err(e),
        }
    } else if text::same(path, "example") {
        match get_json(m) {
            Ok(x) => {
                out.example = Some(x);
                Ok(out)
            },
            Err(e) => Err(e),
        }
    } else if text::same(path, "example_json") {
        match json_literal_expr(m) {
            Ok(x) => {
                out.example = Some(x);
                Ok(out)
            },
            Err(e) => Err(e),
        }
    } else if text::same(path, "deny_unknown_fields") {
        if flag(m) {
            out.deny_unknown_fields = true;
            Ok(out)
        } else {
            Err(attr::syntax_error("expected `,`"))
        }
    } else {
        Err(
            attr::syntax_error(
                "unknown `schema` option; expected one of `rename`, `inline`, `title`, `description`, `example`, `deny_unknown_fields`",
            ),
        )
    }
}

/// A container after all keys of one `serde(..)`.
pub open spec fn container_serde_all(x: ContainerModel, metas: Seq<Meta>) -> Result<ContainerModel, Seq<char>>
    decreases metas.len(),
{
    if metas.len() == 0 {
        Ok(x)
    } else {
        match container_serde_all(x, metas.drop_last()) {
            Ok(before) => container_serde(before, metas.last()),
            Err(e) => Err(e),
        }
    }
}

proof fn lemma_container_serde_all_stops(x: ContainerModel, metas: Seq<Meta>, i: int)
    requires
        0 <= i <= metas.len(),
        container_serde_all(x, metas.take(i)) is Err,
    ensures
        container_serde_all(x, metas) == container_serde_all(x, metas.take(i)),
    decreases metas.len() - i,
{
    if i == metas.len() {
        assert(metas.take(i) =~= metas);
    } else {
        assert(metas.take(i + 1).drop_last() =~= metas.take(i));
        lemma_container_serde_all_stops(x, metas, i + 1);
    }
}

/// A container after all keys of one `schema(..)`.
pub open spec fn container_schema_all(x: ContainerModel, metas: Seq<Meta>) -> Result<ContainerModel, Seq<char>>
    decreases metas.len(),
{
    if metas.len() == 0 {
        Ok(x)
    } else {
        match container_schema_all(x, metas.drop_last()) {
            Ok(before) => container_schema(before, metas.last()),
            Err(e) => Err(e),
        }
    }
}

proof fn lemma_container_schema_all_stops(x: ContainerModel, metas: Seq<Meta>, i: int)
    requires
        0 <= i <= metas.len(),
        container_schema_all(x, metas.take(i)) is Err,
    ensures
        container_schema_all(x, metas) == container_schema_all(x, metas.take(i)),
    decreases metas.len() - i,
{
    if i == metas.len() {
        assert(metas.take(i) =~= metas);
    } else {
        assert(metas.take(i + 1).drop_last() =~= metas.take(i));
        lemma_container_schema_all_stops(x, metas, i + 1);
    }
}

fn parse_container_serde_all(x: Container, metas: &Vec<Meta>) -> (r: Result<Container, SyntaxError>)
    ensures
        match r {
            Ok(out) => container_serde_all(x@, metas@) == Ok::<ContainerModel, Seq<char>>(out@),
            Err(e) => container_serde_all(x@, metas@) == Err::<ContainerModel, Seq<char>>(e.message@),
        },
{
    let ghost start = x@;
    let mut out = x;
    assert(metas@.take(0) =~= Seq::<Meta>::empty());
    for i in 0..metas.len()
        invariant
            start == x@,
            container_serde_all(start, metas@.take(i as int)) == Ok::<ContainerModel, Seq<char>>(out@),
    {
        assert(metas@.take(i + 1).drop_last() =~= metas@.take(i as int));
        match parse_container_serde(out, &metas[i]) {
            Ok(next) => {
                out = next;
            },
            Err(e) => {
                proof {
                    lemma_container_serde_all_stops(start, metas@, i + 1);
                }
                return Err(e);
            },
        }
    }
    assert(metas@.take(metas@.len() as int) =~= metas@);
    Ok(out)
}

fn parse_container_schema_all(x: Container, metas: &Vec<Meta>) -> (r: Result<Container, SyntaxError>)
    ensures
        match r {
            Ok(out) => container_schema_all(x@, metas@) == Ok::<ContainerModel, Seq<char>>(out@),
            Err(e) => container_schema_all(x@, metas@) == Err::<ContainerModel, Seq<char>>(e.message@),
        },
{
    let ghost start = x@;
    let mut out = x;
    assert(metas@.take(0) =~= Seq::<Meta>::empty());
    for i in 0..metas.len()
        invariant
            start == x@,
            container_schema_all(start, metas@.take(i as int)) == Ok::<ContainerModel, Seq<char>>(out@),
    {
        assert(metas@.take(i + 1).drop_last() =~= metas@.take(i as int));
        match parse_container_schema(out, &metas[i]) {
            Ok(next) => {
                out = next;
            },
            Err(e) => {
                proof {
                    lemma_container_schema_all_stops(start, metas@, i + 1);
                }
                return Err(e);
            },
        }
    }
    assert(metas@.take(metas@.len() as int) =~= metas@);
    Ok(out)
}

/// A container after one attribute.
pub open spec fn container_attr(c: ContainerModel, a: Attr) -> Result<ContainerModel, Seq<char>> {
    if a.path@ == "serde"@ {
        container_serde_all(c, a.metas@)
    } else if a.path@ == "schema"@ {
        container_schema_all(c, a.metas@)
    } else {
        Ok(c)
    }
}

/// A container after all its attributes.
pub open spec fn container_attrs(x: ContainerModel, attrs: Seq<Attr>) -> Result<ContainerModel, Seq<char>>
    decreases attrs.len(),
{
    if attrs.len() == 0 {
        Ok(x)
    } else {
        match container_attrs(x, attrs.drop_last()) {
            Ok(before) => container_attr(before, attrs.last()),
            Err(e) => Err(e),
        }
    }
}

proof fn lemma_container_attrs_stops(x: ContainerModel, attrs: Seq<Attr>, i: int)
    requires
        0 <= i <= attrs.len(),
        container_attrs(x, attrs.take(i)) is Err,
    ensures
        container_attrs(x, attrs) == container_attrs(x, attrs.take(i)),
    decreases attrs.len() - i,
{
    if i == attrs.len() {
        assert(attrs.take(i) =~= attrs);
    } else {
        assert(attrs.take(i + 1).drop_last() =~= attrs.take(i));
        lemma_container_attrs_stops(x, attrs, i + 1);
    }
}

/// What the attributes on a type say.
pub open spec fn container_of(attrs: Seq<Attr>) -> Result<ContainerModel, Seq<char>> {
    container_attrs(container_start(attrs), attrs)
}

impl Container {
    /// Reads the attributes on a type.
    pub fn parse(attrs: &Vec<Attr>) -> (r: Result<Self, SyntaxError>)
        ensures
            match r {
                Ok(c) => container_of(attrs@) == Ok::<ContainerModel, Seq<char>>(c@),
                Err(e) => container_of(attrs@) == Err::<ContainerModel, Seq<char>>(e.message@),
            },
    {
        let docs = attr::doc_comment(attrs);
        let description = match docs.description {
            Some(d) => Some(d),
            None => docs.summary,
        };
        let mut out = Container {
            rename: None,
            rename_all: RenameRule::AsIs,
            rename_all_variants: None,
            inlined: false,
            deny_unknown_fields: false,
            transparent: false,
            title: None,
            description,
            example: None,
            tag: None,
            content: None,
            untagged: false,
        };
        let ghost start = container_start(attrs@);
        assert(out@ =~= start);
        assert(attrs@.take(0) =~= Seq::<Attr>::empty());
        for i in 0..attrs.len()
            invariant
                start == container_start(attrs@),
                container_attrs(start, attrs@.take(i as int)) == Ok::<ContainerModel, Seq<char>>(
                    out@,
                ),
        {
            assert(attrs@.take(i + 1).drop_last() =~= attrs@.take(i as int));
            let step: Result<Container, SyntaxError> = if text::same(
                attrs[i].path.as_str(),
                "serde",
            ) {
                parse_container_serde_all(out, &attrs[i].metas)
            } else if text::same(attrs[i].path.as_str(), "schema") {
                parse_container_schema_all(out, &attrs[i].metas)
            } else {
                Ok(out)
            };
            match step {
                Ok(next) => {
                    out = next;
                },
                Err(e) => {
                    proof {
                        lemma_container_attrs_stops(start, attrs@, i + 1);
                    }
                    return Err(e);
                },
            }
        }
        assert(attrs@.take(attrs@.len() as int) =~= attrs@);
        Ok(out)
    }
}

} // verus!
