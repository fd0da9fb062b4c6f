//! What a declaration documents and enforces, from its attributes on.

use crate::derive::attr;
use crate::derive::attr::{Attr, Lit, Meta, RenameRule};
use crate::derive::checks;
use crate::derive::checks::{CheckModel, GivenModel};
use crate::derive::decl;
use crate::derive::decl::{ContainerModel, FieldDecl, FieldModel, RulesModel};
use crate::derive::schema as fields;
use crate::derive::schema::{InnerModel, Shape};
use crate::derive::variants;
use crate::derive::variants::VariantModel;
use crate::error::FieldFailure;
use crate::json::ValueModel;
use crate::laws::documents::{a_schema_is_written_under_its_names, held, or, read};
use crate::openapi::ordered;
use crate::openapi::schema::{SchemaModel, TypeModel};
use crate::openapi::write::schema_json;
use crate::text;
use crate::validate;
use crate::validate::rules;
use vstd::prelude::*;
use vstd::string::*;

verus! {

// ---------------------------------------------------------------------------
// validation rules
// ---------------------------------------------------------------------------

/// One attribute with one key.
pub open spec fn says_alone(a: Attr, path: Seq<char>, m: Meta) -> bool {
    a.path@ == path && a.metas@ == seq![m]
}

proof fn lemma_attributes_differ()
    ensures
        "serde"@ != "schema"@,
        "serde"@ != "validate"@,
        "schema"@ != "validate"@,
{
    reveal_strlit("serde");
    assert("serde"@.len() == 5);
    reveal_strlit("schema");
    assert("schema"@.len() == 6);
    reveal_strlit("validate");
    assert("validate"@.len() == 8);
}

/// An attribute `validate` with one key changes the rules of the field by that
/// key, and nothing else of the field.
proof fn lemma_validate(f: FieldModel, a: Attr, m: Meta, r: RulesModel)
    requires
        says_alone(a, "validate"@, m),
        decl::rule_step(f.rules, m) == Ok::<RulesModel, Seq<char>>(r),
    ensures
        decl::field_attr(f, a) == Ok::<FieldModel, Seq<char>>(FieldModel { rules: r, ..f }),
{
    lemma_attributes_differ();
    reveal_with_fuel(decl::rules_all, 2);
    assert(seq![m].drop_last() =~= Seq::empty());
    assert(seq![m].last() == m);
}

/// A field with a single check breaks it or breaks nothing.
proof fn lemma_single_check(f: FieldModel, g: GivenModel, pointer: Seq<char>, c: CheckModel)
    requires
        checks::checks_of(f.rules) == seq![c],
    ensures
        checks::field_faults(f, g, pointer) == if g.present {
            checks::run_one(Seq::empty(), c, g, pointer, 0)
        } else {
            Seq::empty()
        },
{
    reveal_with_fuel(checks::run_all, 2);
    reveal_with_fuel(checks::custom_count, 2);
    assert(seq![c].drop_last() =~= Seq::empty());
    assert(seq![c].last() == c);
}

/// The one failure of a value that breaks a rule.
pub open spec fn one_failure(pointer: Seq<char>, code: Seq<char>, message: Seq<char>) -> Seq<
    FieldFailure,
> {
    seq![FieldFailure { pointer, code, message }]
}

/// `min_length = n` is documented as `minLength` with that number, changes no other
/// keyword, and is broken exactly by a value shorter than its bound.
pub proof fn min_length_is_documented_and_enforced(
    f: FieldModel,
    a: Attr,
    m: Meta,
    number: String,
    count: u64,
    inner: SchemaModel,
    g: GivenModel,
    pointer: Seq<char>,
)
    requires
        f.rules == RulesModel::none(),
        inner.reference is None,
        says_alone(a, "validate"@, m),
        m.path@ == "min_length"@,
        m.value == Some(Lit::Number { text: number, count }),
    ensures
        decl::field_attr(f, a) matches Ok(after) && {
            let schema = fields::field_model(after, inner);
            &&& after == FieldModel { rules: after.rules, ..f }
            &&& schema == SchemaModel { min_length: Some(count), ..fields::field_model(f, inner) }
            &&& read(schema_json(schema), "minLength"@) == or(
                held(inner.extensions, "minLength"@),
                Some(ValueModel::Number(text::decimal(count as nat))),
            )
            &&& checks::field_faults(after, g, pointer) == if g.present && g.length < count {
                one_failure(
                    pointer,
                    "min_length"@,
                    "must be at least "@ + text::decimal(count as nat) + " "@ + g.unit + ", got "@
                        + text::decimal(g.length as nat),
                )
            } else {
                Seq::empty()
            }
        },
{
    reveal_strlit("min_length");
    assert("min_length"@.len() == 10);
    assert("min_length"@[1] == 'i');
    reveal_strlit("max_length");
    assert("max_length"@.len() == 10);
    assert("max_length"@[1] == 'a');
    reveal_strlit("min_items");
    assert("min_items"@.len() == 9);
    assert("min_items"@[0] == 'm');
    assert("min_items"@[1] == 'i');
    reveal_strlit("max_items");
    assert("max_items"@.len() == 9);
    assert("max_items"@[0] == 'm');
    assert("max_items"@[1] == 'a');
    reveal_strlit("minimum");
    assert("minimum"@.len() == 7);
    assert("minimum"@[0] == 'm');
    assert("minimum"@[1] == 'i');
    reveal_strlit("maximum");
    assert("maximum"@.len() == 7);
    assert("maximum"@[0] == 'm');
    assert("maximum"@[1] == 'a');
    reveal_strlit("exclusive_minimum");
    assert("exclusive_minimum"@.len() == 17);
    assert("exclusive_minimum"@[11] == 'i');
    reveal_strlit("exclusive_maximum");
    assert("exclusive_maximum"@.len() == 17);
    assert("exclusive_maximum"@[11] == 'a');
    reveal_strlit("multiple_of");
    assert("multiple_of"@.len() == 11);
    reveal_strlit("range");
    assert("range"@.len() == 5);
    reveal_strlit("pattern");
    assert("pattern"@.len() == 7);
    assert("pattern"@[0] == 'p');
    assert("pattern"@[1] == 'a');
    reveal_strlit("format");
    assert("format"@.len() == 6);
    assert("format"@[0] == 'f');
    reveal_strlit("non_blank");
    assert("non_blank"@.len() == 9);
    assert("non_blank"@[0] == 'n');
    assert("non_blank"@[1] == 'o');
    reveal_strlit("nested");
    assert("nested"@.len() == 6);
    assert("nested"@[0] == 'n');
    reveal_strlit("custom");
    assert("custom"@.len() == 6);
    assert("custom"@[0] == 'c');
    let r = RulesModel { min_length: Some(count), ..f.rules };
    assert(decl::rule_step(f.rules, m) == Ok::<RulesModel, Seq<char>>(r));
    lemma_validate(f, a, m, r);
    let after = FieldModel { rules: r, ..f };
    let schema = fields::field_model(after, inner);
    a_schema_is_written_under_its_names(schema);
    reveal(checks::plus);
    assert(checks::checks_of(r) =~= seq![CheckModel::MinLength(count)]);
    lemma_single_check(after, g, pointer, CheckModel::MinLength(count));
    assert(schema =~= SchemaModel { min_length: Some(count), ..fields::field_model(f, inner) });
    let faults = checks::field_faults(after, g, pointer);
    assert(faults =~= Seq::empty() || faults =~= one_failure(pointer, "min_length"@, "must be at least "@ + text::decimal(count as nat) + " "@ + g.unit + ", got "@
                        + text::decimal(g.length as nat)));
}

/// `max_length = n` is documented as `maxLength` with that number, changes no other
/// keyword, and is broken exactly by a value longer than its bound.
pub proof fn max_length_is_documented_and_enforced(
    f: FieldModel,
    a: Attr,
    m: Meta,
    number: String,
    count: u64,
    inner: SchemaModel,
    g: GivenModel,
    pointer: Seq<char>,
)
    requires
        f.rules == RulesModel::none(),
        inner.reference is None,
        says_alone(a, "validate"@, m),
        m.path@ == "max_length"@,
        m.value == Some(Lit::Number { text: number, count }),
    ensures
        decl::field_attr(f, a) matches Ok(after) && {
            let schema = fields::field_model(after, inner);
            &&& after == FieldModel { rules: after.rules, ..f }
            &&& schema == SchemaModel { max_length: Some(count), ..fields::field_model(f, inner) }
            &&& read(schema_json(schema), "maxLength"@) == or(
                held(inner.extensions, "maxLength"@),
                Some(ValueModel::Number(text::decimal(count as nat))),
            )
            &&& checks::field_faults(after, g, pointer) == if g.present && g.length > count {
                one_failure(
                    pointer,
                    "max_length"@,
                    "must be at most "@ + text::decimal(count as nat) + " "@ + g.unit + ", got "@
                        + text::decimal(g.length as nat),
                )
            } else {
                Seq::empty()
            }
        },
{
    reveal_strlit("min_length");
    assert("min_length"@.len() == 10);
    assert("min_length"@[1] == 'i');
    reveal_strlit("max_length");
    assert("max_length"@.len() == 10);
    assert("max_length"@[1] == 'a');
    reveal_strlit("min_items");
    assert("min_items"@.len() == 9);
    assert("min_items"@[0] == 'm');
    assert("min_items"@[1] == 'i');
    reveal_strlit("max_items");
    assert("max_items"@.len() == 9);
    assert("max_items"@[0] == 'm');
    assert("max_items"@[1] == 'a');
    reveal_strlit("minimum");
    assert("minimum"@.len() == 7);
    assert("minimum"@[0] == 'm');
    assert("minimum"@[1] == 'i');
    reveal_strlit("maximum");
    assert("maximum"@.len() == 7);
    assert("maximum"@[0] == 'm');
    assert("maximum"@[1] == 'a');
    reveal_strlit("exclusive_minimum");
    assert("exclusive_minimum"@.len() == 17);
    assert("exclusive_minimum"@[11] == 'i');
    reveal_strlit("exclusive_maximum");
    assert("exclusive_maximum"@.len() == 17);
    assert("exclusive_maximum"@[11] == 'a');
    reveal_strlit("multiple_of");
    assert("multiple_of"@.len() == 11);
    reveal_strlit("range");
    assert("range"@.len() == 5);
    reveal_strlit("pattern");
    assert("pattern"@.len() == 7);
    assert("pattern"@[0] == 'p');
    assert("pattern"@[1] == 'a');
    reveal_strlit("format");
    assert("format"@.len() == 6);
    assert("format"@[0] == 'f');
    reveal_strlit("non_blank");
    assert("non_blank"@.len() == 9);
    assert("non_blank"@[0] == 'n');
    assert("non_blank"@[1] == 'o');
    reveal_strlit("nested");
    assert("nested"@.len() == 6);
    assert("nested"@[0] == 'n');
    reveal_strlit("custom");
    assert("custom"@.len() == 6);
    assert("custom"@[0] == 'c');
    let r = RulesModel { max_length: Some(count), ..f.rules };
    assert(decl::rule_step(f.rules, m) == Ok::<RulesModel, Seq<char>>(r));
    lemma_validate(f, a, m, r);
    let after = FieldModel { rules: r, ..f };
    let schema = fields::field_model(after, inner);
    a_schema_is_written_under_its_names(schema);
    reveal(checks::plus);
    assert(checks::checks_of(r) =~= seq![CheckModel::MaxLength(count)]);
    lemma_single_check(after, g, pointer, CheckModel::MaxLength(count));
    assert(schema =~= SchemaModel { max_length: Some(count), ..fields::field_model(f, inner) });
    let faults = checks::field_faults(after, g, pointer);
    assert(faults =~= Seq::empty() || faults =~= one_failure(pointer, "max_length"@, "must be at most "@ + text::decimal(count as nat) + " "@ + g.unit + ", got "@
                        + text::decimal(g.length as nat)));
}

/// `min_items = n` is documented as `minItems` with that number, changes no other
/// keyword, and is broken exactly by a value with fewer elements than its bound.
pub proof fn min_items_is_documented_and_enforced(
    f: FieldModel,
    a: Attr,
    m: Meta,
    number: String,
    count: u64,
    inner: SchemaModel,
    g: GivenModel,
    pointer: Seq<char>,
)
    requires
        f.rules == RulesModel::none(),
        inner.reference is None,
        says_alone(a, "validate"@, m),
        m.path@ == "min_items"@,
        m.value == Some(Lit::Number { text: number, count }),
    ensures
        decl::field_attr(f, a) matches Ok(after) && {
            let schema = fields::field_model(after, inner);
            &&& after == FieldModel { rules: after.rules, ..f }
            &&& schema == SchemaModel { min_items: Some(count), ..fields::field_model(f, inner) }
            &&& read(schema_json(schema), "minItems"@) == or(
                held(inner.extensions, "minItems"@),
                Some(ValueModel::Number(text::decimal(count as nat))),
            )
            &&& checks::field_faults(after, g, pointer) == if g.present && g.length < count {
                one_failure(
                    pointer,
                    "min_items"@,
                    "must have at least "@ + text::decimal(count as nat) + " items"@,
                )
            } else {
                Seq::empty()
            }
        },
{
    reveal_strlit("min_length");
    assert("min_length"@.len() == 10);
    assert("min_length"@[1] == 'i');
    reveal_strlit("max_length");
    assert("max_length"@.len() == 10);
    assert("max_length"@[1] == 'a');
    reveal_strlit("min_items");
    assert("min_items"@.len() == 9);
    assert("min_items"@[0] == 'm');
    assert("min_items"@[1] == 'i');
    reveal_strlit("max_items");
    assert("max_items"@.len() == 9);
    assert("max_items"@[0] == 'm');
    assert("max_items"@[1] == 'a');
    reveal_strlit("minimum");
    assert("minimum"@.len() == 7);
    assert("minimum"@[0] == 'm');
    assert("minimum"@[1] == 'i');
    reveal_strlit("maximum");
    assert("maximum"@.len() == 7);
    assert("maximum"@[0] == 'm');
    assert("maximum"@[1] == 'a');
    reveal_strlit("exclusive_minimum");
    assert("exclusive_minimum"@.len() == 17);
    assert("exclusive_minimum"@[11] == 'i');
    reveal_strlit("exclusive_maximum");
    assert("exclusive_maximum"@.len() == 17);
    assert("exclusive_maximum"@[11] == 'a');
    reveal_strlit("multiple_of");
    assert("multiple_of"@.len() == 11);
    reveal_strlit("range");
    assert("range"@.len() == 5);
    reveal_strlit("pattern");
    assert("pattern"@.len() == 7);
    assert("pattern"@[0] == 'p');
    assert("pattern"@[1] == 'a');
    reveal_strlit("format");
    assert("format"@.len() == 6);
    assert("format"@[0] == 'f');
    reveal_strlit("non_blank");
    assert("non_blank"@.len() == 9);
    assert("non_blank"@[0] == 'n');
    assert("non_blank"@[1] == 'o');
    reveal_strlit("nested");
    assert("nested"@.len() == 6);
    assert("nested"@[0] == 'n');
    reveal_strlit("custom");
    assert("custom"@.len() == 6);
    assert("custom"@[0] == 'c');
    let r = RulesModel { min_items: Some(count), ..f.rules };
    assert(decl::rule_step(f.rules, m) == Ok::<RulesModel, Seq<char>>(r));
    lemma_validate(f, a, m, r);
    let after = FieldModel { rules: r, ..f };
    let schema = fields::field_model(after, inner);
    a_schema_is_written_under_its_names(schema);
    reveal(checks::plus);
    assert(checks::checks_of(r) =~= seq![CheckModel::MinItems(count)]);
    lemma_single_check(after, g, pointer, CheckModel::MinItems(count));
    assert(schema =~= SchemaModel { min_items: Some(count), ..fields::field_model(f, inner) });
    let faults = checks::field_faults(after, g, pointer);
    assert(faults =~= Seq::empty() || faults =~= one_failure(pointer, "min_items"@, "must have at least "@ + text::decimal(count as nat) + " items"@));
}

/// `max_items = n` is documented as `maxItems` with that number, changes no other
/// keyword, and is broken exactly by a value with more elements than its bound.
pub proof fn max_items_is_documented_and_enforced(
    f: FieldModel,
    a: Attr,
    m: Meta,
    number: String,
    count: u64,
    inner: SchemaModel,
    g: GivenModel,
    pointer: Seq<char>,
)
    requires
        f.rules == RulesModel::none(),
        inner.reference is None,
        says_alone(a, "validate"@, m),
        m.path@ == "max_items"@,
        m.value == Some(Lit::Number { text: number, count }),
    ensures
        decl::field_attr(f, a) matches Ok(after) && {
            let schema = fields::field_model(after, inner);
            &&& after == FieldModel { rules: after.rules, ..f }
            &&& schema == SchemaModel { max_items: Some(count), ..fields::field_model(f, inner) }
            &&& read(schema_json(schema), "maxItems"@) == or(
                held(inner.extensions, "maxItems"@),
                Some(ValueModel::Number(text::decimal(count as nat))),
            )
            &&& checks::field_faults(after, g, pointer) == if g.present && g.length > count {
                one_failure(
                    pointer,
                    "max_items"@,
                    "must have at most "@ + text::decimal(count as nat) + " items"@,
                )
            } else {
                Seq::empty()
            }
        },
{
    reveal_strlit("min_length");
    assert("min_length"@.len() == 10);
    assert("min_length"@[1] == 'i');
    reveal_strlit("max_length");
    assert("max_length"@.len() == 10);
    assert("max_length"@[1] == 'a');
    reveal_strlit("min_items");
    assert("min_items"@.len() == 9);
    assert("min_items"@[0] == 'm');
    assert("min_items"@[1] == 'i');
    reveal_strlit("max_items");
    assert("max_items"@.len() == 9);
    assert("max_items"@[0] == 'm');
    assert("max_items"@[1] == 'a');
    reveal_strlit("minimum");
    assert("minimum"@.len() == 7);
    assert("minimum"@[0] == 'm');
    assert("minimum"@[1] == 'i');
    reveal_strlit("maximum");
    assert("maximum"@.len() == 7);
    assert("maximum"@[0] == 'm');
    assert("maximum"@[1] == 'a');
    reveal_strlit("exclusive_minimum");
    assert("exclusive_minimum"@.len() == 17);
    assert("exclusive_minimum"@[11] == 'i');
    reveal_strlit("exclusive_maximum");
    assert("exclusive_maximum"@.len() == 17);
    assert("exclusive_maximum"@[11] == 'a');
    reveal_strlit("multiple_of");
    assert("multiple_of"@.len() == 11);
    reveal_strlit("range");
    assert("range"@.len() == 5);
    reveal_strlit("pattern");
    assert("pattern"@.len() == 7);
    assert("pattern"@[0] == 'p');
    assert("pattern"@[1] == 'a');
    reveal_strlit("format");
    assert("format"@.len() == 6);
    assert("format"@[0] == 'f');
    reveal_strlit("non_blank");
    assert("non_blank"@.len() == 9);
    assert("non_blank"@[0] == 'n');
    assert("non_blank"@[1] == 'o');
    reveal_strlit("nested");
    assert("nested"@.len() == 6);
    assert("nested"@[0] == 'n');
    reveal_strlit("custom");
    assert("custom"@.len() == 6);
    assert("custom"@[0] == 'c');
    let r = RulesModel { max_items: Some(count), ..f.rules };
    assert(decl::rule_step(f.rules, m) == Ok::<RulesModel, Seq<char>>(r));
    lemma_validate(f, a, m, r);
    let after = FieldModel { rules: r, ..f };
    let schema = fields::field_model(after, inner);
    a_schema_is_written_under_its_names(schema);
    reveal(checks::plus);
    assert(checks::checks_of(r) =~= seq![CheckModel::MaxItems(count)]);
    lemma_single_check(after, g, pointer, CheckModel::MaxItems(count));
    assert(schema =~= SchemaModel { max_items: Some(count), ..fields::field_model(f, inner) });
    let faults = checks::field_faults(after, g, pointer);
    assert(faults =~= Seq::empty() || faults =~= one_failure(pointer, "max_items"@, "must have at most "@ + text::decimal(count as nat) + " items"@));
}

/// `minimum = n` is documented as `minimum` with that number, changes no other
/// keyword, and is broken exactly by a value below its bound.
pub proof fn minimum_is_documented_and_enforced(
    f: FieldModel,
    a: Attr,
    m: Meta,
    number: String,
    count: u64,
    inner: SchemaModel,
    g: GivenModel,
    pointer: Seq<char>,
)
    requires
        f.rules == RulesModel::none(),
        inner.reference is None,
        says_alone(a, "validate"@, m),
        m.path@ == "minimum"@,
        m.value == Some(Lit::Number { text: number, count }),
    ensures
        decl::field_attr(f, a) matches Ok(after) && {
            let schema = fields::field_model(after, inner);
            &&& after == FieldModel { rules: after.rules, ..f }
            &&& schema == SchemaModel { minimum: Some(number@), ..fields::field_model(f, inner) }
            &&& read(schema_json(schema), "minimum"@) == or(
                held(inner.extensions, "minimum"@),
                Some(ValueModel::Number(number@)),
            )
            &&& checks::field_faults(after, g, pointer) == if g.present && !g.above_minimum {
                one_failure(
                    pointer,
                    "minimum"@,
                    "must be >= "@ + number@,
                )
            } else {
                Seq::empty()
            }
        },
{
    reveal_strlit("min_length");
    assert("min_length"@.len() == 10);
    assert("min_length"@[1] == 'i');
    reveal_strlit("max_length");
    assert("max_length"@.len() == 10);
    assert("max_length"@[1] == 'a');
    reveal_strlit("min_items");
    assert("min_items"@.len() == 9);
    assert("min_items"@[0] == 'm');
    assert("min_items"@[1] == 'i');
    reveal_strlit("max_items");
    assert("max_items"@.len() == 9);
    assert("max_items"@[0] == 'm');
    assert("max_items"@[1] == 'a');
    reveal_strlit("minimum");
    assert("minimum"@.len() == 7);
    assert("minimum"@[0] == 'm');
    assert("minimum"@[1] == 'i');
    reveal_strlit("maximum");
    assert("maximum"@.len() == 7);
    assert("maximum"@[0] == 'm');
    assert("maximum"@[1] == 'a');
    reveal_strlit("exclusive_minimum");
    assert("exclusive_minimum"@.len() == 17);
    assert("exclusive_minimum"@[11] == 'i');
    reveal_strlit("exclusive_maximum");
    assert("exclusive_maximum"@.len() == 17);
    assert("exclusive_maximum"@[11] == 'a');
    reveal_strlit("multiple_of");
    assert("multiple_of"@.len() == 11);
    reveal_strlit("range");
    assert("range"@.len() == 5);
    reveal_strlit("pattern");
    assert("pattern"@.len() == 7);
    assert("pattern"@[0] == 'p');
    assert("pattern"@[1] == 'a');
    reveal_strlit("format");
    assert("format"@.len() == 6);
    assert("format"@[0] == 'f');
    reveal_strlit("non_blank");
    assert("non_blank"@.len() == 9);
    assert("non_blank"@[0] == 'n');
    assert("non_blank"@[1] == 'o');
    reveal_strlit("nested");
    assert("nested"@.len() == 6);
    assert("nested"@[0] == 'n');
    reveal_strlit("custom");
    assert("custom"@.len() == 6);
    assert("custom"@[0] == 'c');
    let r = RulesModel { minimum: Some(number@), ..f.rules };
    assert(decl::rule_step(f.rules, m) == Ok::<RulesModel, Seq<char>>(r));
    lemma_validate(f, a, m, r);
    let after = FieldModel { rules: r, ..f };
    let schema = fields::field_model(after, inner);
    a_schema_is_written_under_its_names(schema);
    reveal(checks::plus);
    assert(checks::checks_of(r) =~= seq![CheckModel::Minimum(number@)]);
    lemma_single_check(after, g, pointer, CheckModel::Minimum(number@));
    assert(schema =~= SchemaModel { minimum: Some(number@), ..fields::field_model(f, inner) });
    let faults = checks::field_faults(after, g, pointer);
    assert(faults =~= Seq::empty() || faults =~= one_failure(pointer, "minimum"@, "must be >= "@ + number@));
}

/// `maximum = n` is documented as `maximum` with that number, changes no other
/// keyword, and is broken exactly by a value above its bound.
pub proof fn maximum_is_documented_and_enforced(
    f: FieldModel,
    a: Attr,
    m: Meta,
    number: String,
    count: u64,
    inner: SchemaModel,
    g: GivenModel,
    pointer: Seq<char>,
)
    requires
        f.rules == RulesModel::none(),
        inner.reference is None,
        says_alone(a, "validate"@, m),
        m.path@ == "maximum"@,
        m.value == Some(Lit::Number { text: number, count }),
    ensures
        decl::field_attr(f, a) matches Ok(after) && {
            let schema = fields::field_model(after, inner);
            &&& after == FieldModel { rules: after.rules, ..f }
            &&& schema == SchemaModel { maximum: Some(number@), ..fields::field_model(f, inner) }
            &&& read(schema_json(schema), "maximum"@) == or(
                held(inner.extensions, "maximum"@),
                Some(ValueModel::Number(number@)),
            )
            &&& checks::field_faults(after, g, pointer) == if g.present && !g.below_maximum {
                one_failure(
                    pointer,
                    "maximum"@,
                    "must be <= "@ + number@,
                )
            } else {
                Seq::empty()
            }
        },
{
    reveal_strlit("min_length");
    assert("min_length"@.len() == 10);
    assert("min_length"@[1] == 'i');
    reveal_strlit("max_length");
    assert("max_length"@.len() == 10);
    assert("max_length"@[1] == 'a');
    reveal_strlit("min_items");
    assert("min_items"@.len() == 9);
    assert("min_items"@[0] == 'm');
    assert("min_items"@[1] == 'i');
    reveal_strlit("max_items");
    assert("max_items"@.len() == 9);
    assert("max_items"@[0] == 'm');
    assert("max_items"@[1] == 'a');
    reveal_strlit("minimum");
    assert("minimum"@.len() == 7);
    assert("minimum"@[0] == 'm');
    assert("minimum"@[1] == 'i');
    reveal_strlit("maximum");
    assert("maximum"@.len() == 7);
    assert("maximum"@[0] == 'm');
    assert("maximum"@[1] == 'a');
    reveal_strlit("exclusive_minimum");
    assert("exclusive_minimum"@.len() == 17);
    assert("exclusive_minimum"@[11] == 'i');
    reveal_strlit("exclusive_maximum");
    assert("exclusive_maximum"@.len() == 17);
    assert("exclusive_maximum"@[11] == 'a');
    reveal_strlit("multiple_of");
    assert("multiple_of"@.len() == 11);
    reveal_strlit("range");
    assert("range"@.len() == 5);
    reveal_strlit("pattern");
    assert("pattern"@.len() == 7);
    assert("pattern"@[0] == 'p');
    assert("pattern"@[1] == 'a');
    reveal_strlit("format");
    assert("format"@.len() == 6);
    assert("format"@[0] == 'f');
    reveal_strlit("non_blank");
    assert("non_blank"@.len() == 9);
    assert("non_blank"@[0] == 'n');
    assert("non_blank"@[1] == 'o');
    reveal_strlit("nested");
    assert("nested"@.len() == 6);
    assert("nested"@[0] == 'n');
    reveal_strlit("custom");
    assert("custom"@.len() == 6);
    assert("custom"@[0] == 'c');
    let r = RulesModel { maximum: Some(number@), ..f.rules };
    assert(decl::rule_step(f.rules, m) == Ok::<RulesModel, Seq<char>>(r));
    lemma_validate(f, a, m, r);
    let after = FieldModel { rules: r, ..f };
    let schema = fields::field_model(after, inner);
    a_schema_is_written_under_its_names(schema);
    reveal(checks::plus);
    assert(checks::checks_of(r) =~= seq![CheckModel::Maximum(number@)]);
    lemma_single_check(after, g, pointer, CheckModel::Maximum(number@));
    assert(schema =~= SchemaModel { maximum: Some(number@), ..fields::field_model(f, inner) });
    let faults = checks::field_faults(after, g, pointer);
    assert(faults =~= Seq::empty() || faults =~= one_failure(pointer, "maximum"@, "must be <= "@ + number@));
}

/// `exclusive_minimum = n` is documented as `exclusiveMinimum` with that number, changes no other
/// keyword, and is broken exactly by a value at or below its bound.
pub proof fn exclusive_minimum_is_documented_and_enforced(
    f: FieldModel,
    a: Attr,
    m: Meta,
    number: String,
    count: u64,
    inner: SchemaModel,
    g: GivenModel,
    pointer: Seq<char>,
)
    requires
        f.rules == RulesModel::none(),
        inner.reference is None,
        says_alone(a, "validate"@, m),
        m.path@ == "exclusive_minimum"@,
        m.value == Some(Lit::Number { text: number, count }),
    ensures
        decl::field_attr(f, a) matches Ok(after) && {
            let schema = fields::field_model(after, inner);
            &&& after == FieldModel { rules: after.rules, ..f }
            &&& schema == SchemaModel { exclusive_minimum: Some(number@), ..fields::field_model(f, inner) }
            &&& read(schema_json(schema), "exclusiveMinimum"@) == or(
                held(inner.extensions, "exclusiveMinimum"@),
                Some(ValueModel::Number(number@)),
            )
            &&& checks::field_faults(after, g, pointer) == if g.present && !g.above_exclusive_minimum {
                one_failure(
                    pointer,
                    "exclusive_minimum"@,
                    "must be > "@ + number@,
                )
            } else {
                Seq::empty()
            }
        },
{
    reveal_strlit("min_length");
    assert("min_length"@.len() == 10);
    assert("min_length"@[1] == 'i');
    reveal_strlit("max_length");
    assert("max_length"@.len() == 10);
    assert("max_length"@[1] == 'a');
    reveal_strlit("min_items");
    assert("min_items"@.len() == 9);
    assert("min_items"@[0] == 'm');
    assert("min_items"@[1] == 'i');
    reveal_strlit("max_items");
    assert("max_items"@.len() == 9);
    assert("max_items"@[0] == 'm');
    assert("max_items"@[1] == 'a');
    reveal_strlit("minimum");
    assert("minimum"@.len() == 7);
    assert("minimum"@[0] == 'm');
    assert("minimum"@[1] == 'i');
    reveal_strlit("maximum");
    assert("maximum"@.len() == 7);
    assert("maximum"@[0] == 'm');
    assert("maximum"@[1] == 'a');
    reveal_strlit("exclusive_minimum");
    assert("exclusive_minimum"@.len() == 17);
    assert("exclusive_minimum"@[11] == 'i');
    reveal_strlit("exclusive_maximum");
    assert("exclusive_maximum"@.len() == 17);
    assert("exclusive_maximum"@[11] == 'a');
    reveal_strlit("multiple_of");
    assert("multiple_of"@.len() == 11);
    reveal_strlit("range");
    assert("range"@.len() == 5);
    reveal_strlit("pattern");
    assert("pattern"@.len() == 7);
    assert("pattern"@[0] == 'p');
    assert("pattern"@[1] == 'a');
    reveal_strlit("format");
    assert("format"@.len() == 6);
    assert("format"@[0] == 'f');
    reveal_strlit("non_blank");
    assert("non_blank"@.len() == 9);
    assert("non_blank"@[0] == 'n');
    assert("non_blank"@[1] == 'o');
    reveal_strlit("nested");
    assert("nested"@.len() == 6);
    assert("nested"@[0] == 'n');
    reveal_strlit("custom");
    assert("custom"@.len() == 6);
    assert("custom"@[0] == 'c');
    let r = RulesModel { exclusive_minimum: Some(number@), ..f.rules };
    assert(decl::rule_step(f.rules, m) == Ok::<RulesModel, Seq<char>>(r));
    lemma_validate(f, a, m, r);
    let after = FieldModel { rules: r, ..f };
    let schema = fields::field_model(after, inner);
    a_schema_is_written_under_its_names(schema);
    reveal(checks::plus);
    assert(checks::checks_of(r) =~= seq![CheckModel::ExclusiveMinimum(number@)]);
    lemma_single_check(after, g, pointer, CheckModel::ExclusiveMinimum(number@));
    assert(schema =~= SchemaModel { exclusive_minimum: Some(number@), ..fields::field_model(f, inner) });
    let faults = checks::field_faults(after, g, pointer);
    assert(faults =~= Seq::empty() || faults =~= one_failure(pointer, "exclusive_minimum"@, "must be > "@ + number@));
}

/// `exclusive_maximum = n` is documented as `exclusiveMaximum` with that number, changes no other
/// keyword, and is broken exactly by a value at or above its bound.
pub proof fn exclusive_maximum_is_documented_and_enforced(
    f: FieldModel,
    a: Attr,
    m: Meta,
    number: String,
    count: u64,
    inner: SchemaModel,
    g: GivenModel,
    pointer: Seq<char>,
)
    requires
        f.rules == RulesModel::none(),
        inner.reference is None,
        says_alone(a, "validate"@, m),
        m.path@ == "exclusive_maximum"@,
        m.value == Some(Lit::Number { text: number, count }),
    ensures
        decl::field_attr(f, a) matches Ok(after) && {
            let schema = fields::field_model(after, inner);
            &&& after == FieldModel { rules: after.rules, ..f }
            &&& schema == SchemaModel { exclusive_maximum: Some(number@), ..fields::field_model(f, inner) }
            &&& read(schema_json(schema), "exclusiveMaximum"@) == or(
                held(inner.extensions, "exclusiveMaximum"@),
                Some(ValueModel::Number(number@)),
            )
            &&& checks::field_faults(after, g, pointer) == if g.present && !g.below_exclusive_maximum {
                one_failure(
                    pointer,
                    "exclusive_maximum"@,
                    "must be < "@ + number@,
                )
            } else {
                Seq::empty()
            }
        },
{
    reveal_strlit("min_length");
    assert("min_length"@.len() == 10);
    assert("min_length"@[1] == 'i');
    reveal_strlit("max_length");
    assert("max_length"@.len() == 10);
    assert("max_length"@[1] == 'a');
    reveal_strlit("min_items");
    assert("min_items"@.len() == 9);
    assert("min_items"@[0] == 'm');
    assert("min_items"@[1] == 'i');
    reveal_strlit("max_items");
    assert("max_items"@.len() == 9);
    assert("max_items"@[0] == 'm');
    assert("max_items"@[1] == 'a');
    reveal_strlit("minimum");
    assert("minimum"@.len() == 7);
    assert("minimum"@[0] == 'm');
    assert("minimum"@[1] == 'i');
    reveal_strlit("maximum");
    assert("maximum"@.len() == 7);
    assert("maximum"@[0] == 'm');
    assert("maximum"@[1] == 'a');
    reveal_strlit("exclusive_minimum");
    assert("exclusive_minimum"@.len() == 17);
    assert("exclusive_minimum"@[11] == 'i');
    reveal_strlit("exclusive_maximum");
    assert("exclusive_maximum"@.len() == 17);
    assert("exclusive_maximum"@[11] == 'a');
    reveal_strlit("multiple_of");
    assert("multiple_of"@.len() == 11);
    reveal_strlit("range");
    assert("range"@.len() == 5);
    reveal_strlit("pattern");
    assert("pattern"@.len() == 7);
    assert("pattern"@[0] == 'p');
    assert("pattern"@[1] == 'a');
    reveal_strlit("format");
    assert("format"@.len() == 6);
    assert("format"@[0] == 'f');
    reveal_strlit("non_blank");
    assert("non_blank"@.len() == 9);
    assert("non_blank"@[0] == 'n');
    assert("non_blank"@[1] == 'o');
    reveal_strlit("nested");
    assert("nested"@.len() == 6);
    assert("nested"@[0] == 'n');
    reveal_strlit("custom");
    assert("custom"@.len() == 6);
    assert("custom"@[0] == 'c');
    let r = RulesModel { exclusive_maximum: Some(number@), ..f.rules };
    assert(decl::rule_step(f.rules, m) == Ok::<RulesModel, Seq<char>>(r));
    lemma_validate(f, a, m, r);
    let after = FieldModel { rules: r, ..f };
    let schema = fields::field_model(after, inner);
    a_schema_is_written_under_its_names(schema);
    reveal(checks::plus);
    assert(checks::checks_of(r) =~= seq![CheckModel::ExclusiveMaximum(number@)]);
    lemma_single_check(after, g, pointer, CheckModel::ExclusiveMaximum(number@));
    assert(schema =~= SchemaModel { exclusive_maximum: Some(number@), ..fields::field_model(f, inner) });
    let faults = checks::field_faults(after, g, pointer);
    assert(faults =~= Seq::empty() || faults =~= one_failure(pointer, "exclusive_maximum"@, "must be < "@ + number@));
}

/// `multiple_of = n` is documented as `multipleOf` with that number, changes no other
/// keyword, and is broken exactly by a value that is no multiple of its number.
pub proof fn multiple_of_is_documented_and_enforced(
    f: FieldModel,
    a: Attr,
    m: Meta,
    number: String,
    count: u64,
    inner: SchemaModel,
    g: GivenModel,
    pointer: Seq<char>,
)
    requires
        f.rules == RulesModel::none(),
        inner.reference is None,
        says_alone(a, "validate"@, m),
        m.path@ == "multiple_of"@,
        m.value == Some(Lit::Number { text: number, count }),
    ensures
        decl::field_attr(f, a) matches Ok(after) && {
            let schema = fields::field_model(after, inner);
            &&& after == FieldModel { rules: after.rules, ..f }
            &&& schema == SchemaModel { multiple_of: Some(number@), ..fields::field_model(f, inner) }
            &&& read(schema_json(schema), "multipleOf"@) == or(
                held(inner.extensions, "multipleOf"@),
                Some(ValueModel::Number(number@)),
            )
            &&& checks::field_faults(after, g, pointer) == if g.present && !g.is_multiple {
                one_failure(
                    pointer,
                    "multiple_of"@,
                    "must be a multiple of "@ + number@,
                )
            } else {
                Seq::empty()
            }
        },
{
    reveal_strlit("min_length");
    assert("min_length"@.len() == 10);
    assert("min_length"@[1] == 'i');
    reveal_strlit("max_length");
    assert("max_length"@.len() == 10);
    assert("max_length"@[1] == 'a');
    reveal_strlit("min_items");
    assert("min_items"@.len() == 9);
    assert("min_items"@[0] == 'm');
    assert("min_items"@[1] == 'i');
    reveal_strlit("max_items");
    assert("max_items"@.len() == 9);
    assert("max_items"@[0] == 'm');
    assert("max_items"@[1] == 'a');
    reveal_strlit("minimum");
    assert("minimum"@.len() == 7);
    assert("minimum"@[0] == 'm');
    assert("minimum"@[1] == 'i');
    reveal_strlit("maximum");
    assert("maximum"@.len() == 7);
    assert("maximum"@[0] == 'm');
    assert("maximum"@[1] == 'a');
    reveal_strlit("exclusive_minimum");
    assert("exclusive_minimum"@.len() == 17);
    assert("exclusive_minimum"@[11] == 'i');
    reveal_strlit("exclusive_maximum");
    assert("exclusive_maximum"@.len() == 17);
    assert("exclusive_maximum"@[11] == 'a');
    reveal_strlit("multiple_of");
    assert("multiple_of"@.len() == 11);
    reveal_strlit("range");
    assert("range"@.len() == 5);
    reveal_strlit("pattern");
    assert("pattern"@.len() == 7);
    assert("pattern"@[0] == 'p');
    assert("pattern"@[1] == 'a');
    reveal_strlit("format");
    assert("format"@.len() == 6);
    assert("format"@[0] == 'f');
    reveal_strlit("non_blank");
    assert("non_blank"@.len() == 9);
    assert("non_blank"@[0] == 'n');
    assert("non_blank"@[1] == 'o');
    reveal_strlit("nested");
    assert("nested"@.len() == 6);
    assert("nested"@[0] == 'n');
    reveal_strlit("custom");
    assert("custom"@.len() == 6);
    assert("custom"@[0] == 'c');
    let r = RulesModel { multiple_of: Some(number@), ..f.rules };
    assert(decl::rule_step(f.rules, m) == Ok::<RulesModel, Seq<char>>(r));
    lemma_validate(f, a, m, r);
    let after = FieldModel { rules: r, ..f };
    let schema = fields::field_model(after, inner);
    a_schema_is_written_under_its_names(schema);
    reveal(checks::plus);
    assert(checks::checks_of(r) =~= seq![CheckModel::MultipleOf(number@)]);
    lemma_single_check(after, g, pointer, CheckModel::MultipleOf(number@));
    assert(schema =~= SchemaModel { multiple_of: Some(number@), ..fields::field_model(f, inner) });
    let faults = checks::field_faults(after, g, pointer);
    assert(faults =~= Seq::empty() || faults =~= one_failure(pointer, "multiple_of"@, "must be a multiple of "@ + number@));
}

/// `pattern = ".."` is documented as `pattern` with that text, changes no other
/// keyword, and is broken exactly by a text that does not have it.
pub proof fn pattern_is_documented_and_enforced(
    f: FieldModel,
    a: Attr,
    m: Meta,
    t: String,
    inner: SchemaModel,
    g: GivenModel,
    pointer: Seq<char>,
)
    requires
        f.rules == RulesModel::none(),
        inner.reference is None,
        says_alone(a, "validate"@, m),
        m.path@ == "pattern"@,
        m.value == Some(Lit::Text(t)),
    ensures
        decl::field_attr(f, a) matches Ok(after) && {
            let schema = fields::field_model(after, inner);
            &&& after == FieldModel { rules: after.rules, ..f }
            &&& schema == SchemaModel { pattern: Some(t@), ..fields::field_model(f, inner) }
            &&& read(schema_json(schema), "pattern"@) == or(
                held(inner.extensions, "pattern"@),
                Some(ValueModel::String(t@)),
            )
            &&& checks::field_faults(after, g, pointer) == if g.present && rules::regex_verdict(t@, g.text) != Some(true) {
                one_failure(pointer, "pattern"@, "must match /"@ + t@ + "/"@)
            } else {
                Seq::empty()
            }
        },
{
    reveal_strlit("min_length");
    assert("min_length"@.len() == 10);
    assert("min_length"@[1] == 'i');
    reveal_strlit("max_length");
    assert("max_length"@.len() == 10);
    assert("max_length"@[1] == 'a');
    reveal_strlit("min_items");
    assert("min_items"@.len() == 9);
    assert("min_items"@[0] == 'm');
    assert("min_items"@[1] == 'i');
    reveal_strlit("max_items");
    assert("max_items"@.len() == 9);
    assert("max_items"@[0] == 'm');
    assert("max_items"@[1] == 'a');
    reveal_strlit("minimum");
    assert("minimum"@.len() == 7);
    assert("minimum"@[0] == 'm');
    assert("minimum"@[1] == 'i');
    reveal_strlit("maximum");
    assert("maximum"@.len() == 7);
    assert("maximum"@[0] == 'm');
    assert("maximum"@[1] == 'a');
    reveal_strlit("exclusive_minimum");
    assert("exclusive_minimum"@.len() == 17);
    assert("exclusive_minimum"@[11] == 'i');
    reveal_strlit("exclusive_maximum");
    assert("exclusive_maximum"@.len() == 17);
    assert("exclusive_maximum"@[11] == 'a');
    reveal_strlit("multiple_of");
    assert("multiple_of"@.len() == 11);
    reveal_strlit("range");
    assert("range"@.len() == 5);
    reveal_strlit("pattern");
    assert("pattern"@.len() == 7);
    assert("pattern"@[0] == 'p');
    assert("pattern"@[1] == 'a');
    reveal_strlit("format");
    assert("format"@.len() == 6);
    assert("format"@[0] == 'f');
    reveal_strlit("non_blank");
    assert("non_blank"@.len() == 9);
    assert("non_blank"@[0] == 'n');
    assert("non_blank"@[1] == 'o');
    reveal_strlit("nested");
    assert("nested"@.len() == 6);
    assert("nested"@[0] == 'n');
    reveal_strlit("custom");
    assert("custom"@.len() == 6);
    assert("custom"@[0] == 'c');
    let r = RulesModel { pattern: Some(t@), ..f.rules };
    assert(decl::rule_step(f.rules, m) == Ok::<RulesModel, Seq<char>>(r));
    lemma_validate(f, a, m, r);
    let after = FieldModel { rules: r, ..f };
    let schema = fields::field_model(after, inner);
    a_schema_is_written_under_its_names(schema);
    reveal(checks::plus);
    assert(checks::checks_of(r) =~= seq![CheckModel::Pattern(t@)]);
    lemma_single_check(after, g, pointer, CheckModel::Pattern(t@));
    assert(schema =~= SchemaModel { pattern: Some(t@), ..fields::field_model(f, inner) });
    let faults = checks::field_faults(after, g, pointer);
    assert(faults =~= Seq::empty() || faults =~= one_failure(pointer, "pattern"@, "must match /"@ + t@ + "/"@));
}

/// `format = ".."` is documented as `format` with that text, changes no other
/// keyword, and is broken exactly by a text that does not have it.
pub proof fn format_is_documented_and_enforced(
    f: FieldModel,
    a: Attr,
    m: Meta,
    t: String,
    inner: SchemaModel,
    g: GivenModel,
    pointer: Seq<char>,
)
    requires
        f.rules == RulesModel::none(),
        inner.reference is None,
        says_alone(a, "validate"@, m),
        m.path@ == "format"@,
        m.value == Some(Lit::Text(t)),
    ensures
        decl::field_attr(f, a) matches Ok(after) && {
            let schema = fields::field_model(after, inner);
            &&& after == FieldModel { rules: after.rules, ..f }
            &&& schema == SchemaModel { format: Some(t@), ..fields::field_model(f, inner) }
            &&& read(schema_json(schema), "format"@) == or(
                held(inner.extensions, "format"@),
                Some(ValueModel::String(t@)),
            )
            &&& checks::field_faults(after, g, pointer) == if g.present && !rules::has_format(g.text, t@, g.is_address) {
                one_failure(pointer, "format"@, "must be a valid "@ + t@)
            } else {
                Seq::empty()
            }
        },
{
    reveal_strlit("min_length");
    assert("min_length"@.len() == 10);
    assert("min_length"@[1] == 'i');
    reveal_strlit("max_length");
    assert("max_length"@.len() == 10);
    assert("max_length"@[1] == 'a');
    reveal_strlit("min_items");
    assert("min_items"@.len() == 9);
    assert("min_items"@[0] == 'm');
    assert("min_items"@[1] == 'i');
    reveal_strlit("max_items");
    assert("max_items"@.len() == 9);
    assert("max_items"@[0] == 'm');
    assert("max_items"@[1] == 'a');
    reveal_strlit("minimum");
    assert("minimum"@.len() == 7);
    assert("minimum"@[0] == 'm');
    assert("minimum"@[1] == 'i');
    reveal_strlit("maximum");
    assert("maximum"@.len() == 7);
    assert("maximum"@[0] == 'm');
    assert("maximum"@[1] == 'a');
    reveal_strlit("exclusive_minimum");
    assert("exclusive_minimum"@.len() == 17);
    assert("exclusive_minimum"@[11] == 'i');
    reveal_strlit("exclusive_maximum");
    assert("exclusive_maximum"@.len() == 17);
    assert("exclusive_maximum"@[11] == 'a');
    reveal_strlit("multiple_of");
    assert("multiple_of"@.len() == 11);
    reveal_strlit("range");
    assert("range"@.len() == 5);
    reveal_strlit("pattern");
    assert("pattern"@.len() == 7);
    assert("pattern"@[0] == 'p');
    assert("pattern"@[1] == 'a');
    reveal_strlit("format");
    assert("format"@.len() == 6);
    assert("format"@[0] == 'f');
    reveal_strlit("non_blank");
    assert("non_blank"@.len() == 9);
    assert("non_blank"@[0] == 'n');
    assert("non_blank"@[1] == 'o');
    reveal_strlit("nested");
    assert("nested"@.len() == 6);
    assert("nested"@[0] == 'n');
    reveal_strlit("custom");
    assert("custom"@.len() == 6);
    assert("custom"@[0] == 'c');
    let r = RulesModel { format: Some(t@), ..f.rules };
    assert(decl::rule_step(f.rules, m) == Ok::<RulesModel, Seq<char>>(r));
    lemma_validate(f, a, m, r);
    let after = FieldModel { rules: r, ..f };
    let schema = fields::field_model(after, inner);
    a_schema_is_written_under_its_names(schema);
    reveal(checks::plus);
    assert(checks::checks_of(r) =~= seq![CheckModel::Format(t@)]);
    lemma_single_check(after, g, pointer, CheckModel::Format(t@));
    assert(schema =~= SchemaModel { format: Some(t@), ..fields::field_model(f, inner) });
    let faults = checks::field_faults(after, g, pointer);
    assert(faults =~= Seq::empty() || faults =~= one_failure(pointer, "format"@, "must be a valid "@ + t@));
}

/// `non_blank` is documented as at least one character, and is broken exactly by
/// a text of which nothing is left without the blanks around it.
pub proof fn non_blank_is_documented_and_enforced(
    f: FieldModel,
    a: Attr,
    m: Meta,
    inner: SchemaModel,
    g: GivenModel,
    pointer: Seq<char>,
)
    requires
        f.rules == RulesModel::none(),
        inner.reference is None,
        says_alone(a, "validate"@, m),
        m.path@ == "non_blank"@,
        m.value is None,
        m.group is None,
    ensures
        decl::field_attr(f, a) matches Ok(after) && {
            let schema = fields::field_model(after, inner);
            &&& after == FieldModel { rules: after.rules, ..f }
            &&& schema == SchemaModel { min_length: Some(1), ..fields::field_model(f, inner) }
            &&& checks::field_faults(after, g, pointer) == if g.present && text::trim(g.text).len()
                == 0 {
                one_failure(pointer, "non_blank"@, "must not be blank"@)
            } else {
                Seq::empty()
            }
        },
{
    reveal_strlit("min_length");
    assert("min_length"@.len() == 10);
    assert("min_length"@[1] == 'i');
    reveal_strlit("max_length");
    assert("max_length"@.len() == 10);
    assert("max_length"@[1] == 'a');
    reveal_strlit("min_items");
    assert("min_items"@.len() == 9);
    assert("min_items"@[0] == 'm');
    assert("min_items"@[1] == 'i');
    reveal_strlit("max_items");
    assert("max_items"@.len() == 9);
    assert("max_items"@[0] == 'm');
    assert("max_items"@[1] == 'a');
    reveal_strlit("minimum");
    assert("minimum"@.len() == 7);
    assert("minimum"@[0] == 'm');
    assert("minimum"@[1] == 'i');
    reveal_strlit("maximum");
    assert("maximum"@.len() == 7);
    assert("maximum"@[0] == 'm');
    assert("maximum"@[1] == 'a');
    reveal_strlit("exclusive_minimum");
    assert("exclusive_minimum"@.len() == 17);
    assert("exclusive_minimum"@[11] == 'i');
    reveal_strlit("exclusive_maximum");
    assert("exclusive_maximum"@.len() == 17);
    assert("exclusive_maximum"@[11] == 'a');
    reveal_strlit("multiple_of");
    assert("multiple_of"@.len() == 11);
    reveal_strlit("range");
    assert("range"@.len() == 5);
    reveal_strlit("pattern");
    assert("pattern"@.len() == 7);
    assert("pattern"@[0] == 'p');
    assert("pattern"@[1] == 'a');
    reveal_strlit("format");
    assert("format"@.len() == 6);
    assert("format"@[0] == 'f');
    reveal_strlit("non_blank");
    assert("non_blank"@.len() == 9);
    assert("non_blank"@[0] == 'n');
    assert("non_blank"@[1] == 'o');
    reveal_strlit("nested");
    assert("nested"@.len() == 6);
    assert("nested"@[0] == 'n');
    reveal_strlit("custom");
    assert("custom"@.len() == 6);
    assert("custom"@[0] == 'c');
    let r = RulesModel { non_blank: true, ..f.rules };
    assert(decl::rule_step(f.rules, m) == Ok::<RulesModel, Seq<char>>(r));
    lemma_validate(f, a, m, r);
    let after = FieldModel { rules: r, ..f };
    let schema = fields::field_model(after, inner);
    reveal(checks::plus);
    assert(checks::checks_of(r) =~= seq![CheckModel::NonBlank]);
    lemma_single_check(after, g, pointer, CheckModel::NonBlank);
    assert(schema =~= SchemaModel { min_length: Some(1), ..fields::field_model(f, inner) });
    let faults = checks::field_faults(after, g, pointer);
    assert(faults =~= Seq::empty() || faults =~= one_failure(
        pointer,
        "non_blank"@,
        "must not be blank"@,
    ));
}

/// `nested` documents nothing by itself; what is wrong with the value is
/// reported under the field's pointer.
pub proof fn nested_failures_are_reported_under_the_field(
    f: FieldModel,
    a: Attr,
    m: Meta,
    inner: SchemaModel,
    g: GivenModel,
    pointer: Seq<char>,
    i: int,
)
    requires
        f.rules == RulesModel::none(),
        inner.reference is None,
        says_alone(a, "validate"@, m),
        m.path@ == "nested"@,
        m.value is None,
        m.group is None,
        g.present,
    ensures
        decl::field_attr(f, a) matches Ok(after) && {
            let faults = checks::field_faults(after, g, pointer);
            &&& after == FieldModel { rules: after.rules, ..f }
            &&& fields::field_model(after, inner) == fields::field_model(f, inner)
            &&& faults.len() == g.nested.len()
            &&& 0 <= i < faults.len() ==> faults[i] == FieldFailure {
                pointer: pointer + g.nested[i].pointer,
                code: g.nested[i].code,
                message: g.nested[i].message,
            }
        },
{
    reveal_strlit("min_length");
    assert("min_length"@.len() == 10);
    assert("min_length"@[1] == 'i');
    reveal_strlit("max_length");
    assert("max_length"@.len() == 10);
    assert("max_length"@[1] == 'a');
    reveal_strlit("min_items");
    assert("min_items"@.len() == 9);
    assert("min_items"@[0] == 'm');
    assert("min_items"@[1] == 'i');
    reveal_strlit("max_items");
    assert("max_items"@.len() == 9);
    assert("max_items"@[0] == 'm');
    assert("max_items"@[1] == 'a');
    reveal_strlit("minimum");
    assert("minimum"@.len() == 7);
    assert("minimum"@[0] == 'm');
    assert("minimum"@[1] == 'i');
    reveal_strlit("maximum");
    assert("maximum"@.len() == 7);
    assert("maximum"@[0] == 'm');
    assert("maximum"@[1] == 'a');
    reveal_strlit("exclusive_minimum");
    assert("exclusive_minimum"@.len() == 17);
    assert("exclusive_minimum"@[11] == 'i');
    reveal_strlit("exclusive_maximum");
    assert("exclusive_maximum"@.len() == 17);
    assert("exclusive_maximum"@[11] == 'a');
    reveal_strlit("multiple_of");
    assert("multiple_of"@.len() == 11);
    reveal_strlit("range");
    assert("range"@.len() == 5);
    reveal_strlit("pattern");
    assert("pattern"@.len() == 7);
    assert("pattern"@[0] == 'p');
    assert("pattern"@[1] == 'a');
    reveal_strlit("format");
    assert("format"@.len() == 6);
    assert("format"@[0] == 'f');
    reveal_strlit("non_blank");
    assert("non_blank"@.len() == 9);
    assert("non_blank"@[0] == 'n');
    assert("non_blank"@[1] == 'o');
    reveal_strlit("nested");
    assert("nested"@.len() == 6);
    assert("nested"@[0] == 'n');
    reveal_strlit("custom");
    assert("custom"@.len() == 6);
    assert("custom"@[0] == 'c');
    let r = RulesModel { nested: true, ..f.rules };
    assert(decl::rule_step(f.rules, m) == Ok::<RulesModel, Seq<char>>(r));
    lemma_validate(f, a, m, r);
    let after = FieldModel { rules: r, ..f };
    reveal(checks::plus);
    assert(checks::checks_of(r) =~= seq![CheckModel::Nested]);
    lemma_single_check(after, g, pointer, CheckModel::Nested);
    assert(fields::field_model(after, inner) =~= fields::field_model(f, inner));
    let faults = checks::field_faults(after, g, pointer);
    assert(faults =~= validate::prefixed(g.nested, pointer));
}

/// `custom = ".."` documents nothing; what the function says is reported.
pub proof fn a_custom_refusal_is_reported(
    f: FieldModel,
    a: Attr,
    m: Meta,
    t: String,
    inner: SchemaModel,
    g: GivenModel,
    pointer: Seq<char>,
)
    requires
        f.rules == RulesModel::none(),
        inner.reference is None,
        says_alone(a, "validate"@, m),
        m.path@ == "custom"@,
        m.value == Some(Lit::Text(t)),
        decl::path_refusal(t@) is None,
        g.custom.len() == 1,
    ensures
        decl::field_attr(f, a) matches Ok(after) && {
            &&& after == FieldModel { rules: after.rules, ..f }
            &&& fields::field_model(after, inner) == fields::field_model(f, inner)
            &&& checks::field_faults(after, g, pointer) == match g.custom[0] {
                Some(message) => if g.present {
                    one_failure(pointer, "custom"@, message)
                } else {
                    Seq::empty()
                },
                None => Seq::empty(),
            }
        },
{
    reveal_strlit("min_length");
    assert("min_length"@.len() == 10);
    assert("min_length"@[1] == 'i');
    reveal_strlit("max_length");
    assert("max_length"@.len() == 10);
    assert("max_length"@[1] == 'a');
    reveal_strlit("min_items");
    assert("min_items"@.len() == 9);
    assert("min_items"@[0] == 'm');
    assert("min_items"@[1] == 'i');
    reveal_strlit("max_items");
    assert("max_items"@.len() == 9);
    assert("max_items"@[0] == 'm');
    assert("max_items"@[1] == 'a');
    reveal_strlit("minimum");
    assert("minimum"@.len() == 7);
    assert("minimum"@[0] == 'm');
    assert("minimum"@[1] == 'i');
    reveal_strlit("maximum");
    assert("maximum"@.len() == 7);
    assert("maximum"@[0] == 'm');
    assert("maximum"@[1] == 'a');
    reveal_strlit("exclusive_minimum");
    assert("exclusive_minimum"@.len() == 17);
    assert("exclusive_minimum"@[11] == 'i');
    reveal_strlit("exclusive_maximum");
    assert("exclusive_maximum"@.len() == 17);
    assert("exclusive_maximum"@[11] == 'a');
    reveal_strlit("multiple_of");
    assert("multiple_of"@.len() == 11);
    reveal_strlit("range");
    assert("range"@.len() == 5);
    reveal_strlit("pattern");
    assert("pattern"@.len() == 7);
    assert("pattern"@[0] == 'p');
    assert("pattern"@[1] == 'a');
    reveal_strlit("format");
    assert("format"@.len() == 6);
    assert("format"@[0] == 'f');
    reveal_strlit("non_blank");
    assert("non_blank"@.len() == 9);
    assert("non_blank"@[0] == 'n');
    assert("non_blank"@[1] == 'o');
    reveal_strlit("nested");
    assert("nested"@.len() == 6);
    assert("nested"@[0] == 'n');
    reveal_strlit("custom");
    assert("custom"@.len() == 6);
    assert("custom"@[0] == 'c');
    let r = RulesModel { custom: f.rules.custom.push(t@), ..f.rules };
    assert(decl::rule_step(f.rules, m) == Ok::<RulesModel, Seq<char>>(r));
    lemma_validate(f, a, m, r);
    let after = FieldModel { rules: r, ..f };
    reveal(checks::plus);
    assert(checks::checks_of(r) =~= seq![CheckModel::Custom(t@)]);
    lemma_single_check(after, g, pointer, CheckModel::Custom(t@));
    assert(fields::field_model(after, inner) =~= fields::field_model(f, inner));
    let faults = checks::field_faults(after, g, pointer);
    if let Some(message) = g.custom[0] {
        assert(faults =~= Seq::empty() || faults =~= one_failure(pointer, "custom"@, message));
    } else {
        assert(faults =~= Seq::empty());
    }
}

/// The rules of several keys add up: a key replaces its own rule and keeps every
/// other, whatever was read before it.
pub proof fn a_rule_leaves_the_others(r: RulesModel, m: Meta)
    requires
        decl::rule_step(r, m) is Ok,
    ensures
        ({
            let after = decl::rule_step(r, m)->Ok_0;
            &&& m.path@ == "min_length"@ || after.min_length == r.min_length
            &&& m.path@ == "max_length"@ || after.max_length == r.max_length
            &&& m.path@ == "min_items"@ || after.min_items == r.min_items
            &&& m.path@ == "max_items"@ || after.max_items == r.max_items
            &&& m.path@ == "minimum"@ || m.path@ == "range"@ || after.minimum == r.minimum
            &&& m.path@ == "maximum"@ || m.path@ == "range"@ || after.maximum == r.maximum
            &&& m.path@ == "exclusive_minimum"@ || after.exclusive_minimum == r.exclusive_minimum
            &&& m.path@ == "exclusive_maximum"@ || after.exclusive_maximum == r.exclusive_maximum
            &&& m.path@ == "multiple_of"@ || after.multiple_of == r.multiple_of
            &&& m.path@ == "pattern"@ || after.pattern == r.pattern
            &&& m.path@ == "format"@ || after.format == r.format
            &&& m.path@ == "non_blank"@ || after.non_blank == r.non_blank
            &&& m.path@ == "nested"@ || after.nested == r.nested
            &&& m.path@ == "custom"@ || after.custom == r.custom
        }),
{
    reveal_strlit("min_length");
    assert("min_length"@.len() == 10);
    assert("min_length"@[1] == 'i');
    reveal_strlit("max_length");
    assert("max_length"@.len() == 10);
    assert("max_length"@[1] == 'a');
    reveal_strlit("min_items");
    assert("min_items"@.len() == 9);
    assert("min_items"@[0] == 'm');
    assert("min_items"@[1] == 'i');
    reveal_strlit("max_items");
    assert("max_items"@.len() == 9);
    assert("max_items"@[0] == 'm');
    assert("max_items"@[1] == 'a');
    reveal_strlit("minimum");
    assert("minimum"@.len() == 7);
    assert("minimum"@[0] == 'm');
    assert("minimum"@[1] == 'i');
    reveal_strlit("maximum");
    assert("maximum"@.len() == 7);
    assert("maximum"@[0] == 'm');
    assert("maximum"@[1] == 'a');
    reveal_strlit("exclusive_minimum");
    assert("exclusive_minimum"@.len() == 17);
    assert("exclusive_minimum"@[11] == 'i');
    reveal_strlit("exclusive_maximum");
    assert("exclusive_maximum"@.len() == 17);
    assert("exclusive_maximum"@[11] == 'a');
    reveal_strlit("multiple_of");
    assert("multiple_of"@.len() == 11);
    reveal_strlit("range");
    assert("range"@.len() == 5);
    reveal_strlit("pattern");
    assert("pattern"@.len() == 7);
    assert("pattern"@[0] == 'p');
    assert("pattern"@[1] == 'a');
    reveal_strlit("format");
    assert("format"@.len() == 6);
    assert("format"@[0] == 'f');
    reveal_strlit("non_blank");
    assert("non_blank"@.len() == 9);
    assert("non_blank"@[0] == 'n');
    assert("non_blank"@[1] == 'o');
    reveal_strlit("nested");
    assert("nested"@.len() == 6);
    assert("nested"@[0] == 'n');
    reveal_strlit("custom");
    assert("custom"@.len() == 6);
    assert("custom"@[0] == 'c');
    if m.path@ == "range"@ {
        lemma_range_leaves(r, m.group->0@);
    }
}

proof fn lemma_range_leaves(r: RulesModel, metas: Seq<Meta>)
    requires
        decl::range_all(r, metas) is Ok,
    ensures
        ({
            let after = decl::range_all(r, metas)->Ok_0;
            after == RulesModel { minimum: after.minimum, maximum: after.maximum, ..r }
        }),
    decreases metas.len(),
{
    if metas.len() > 0 {
        lemma_range_leaves(r, metas.drop_last());
    }
}

/// `range(min = a, max = b)` is `minimum = a` and `maximum = b`.
pub proof fn a_range_is_a_minimum_and_a_maximum(
    r: RulesModel,
    m: Meta,
    group: Vec<Meta>,
    low: Meta,
    high: Meta,
)
    requires
        m.path@ == "range"@,
        m.group == Some(group),
        group@ == seq![low, high],
        low.path@ == "min"@,
        high.path@ == "max"@,
        low.value matches Some(Lit::Number { .. }),
        high.value matches Some(Lit::Number { .. }),
    ensures
        decl::rule_step(r, m) == Ok::<RulesModel, Seq<char>>(
            RulesModel {
                minimum: Some(low.value->0->text@),
                maximum: Some(high.value->0->text@),
                ..r
            },
        ),
{
    reveal_strlit("min_length");
    assert("min_length"@.len() == 10);
    assert("min_length"@[1] == 'i');
    reveal_strlit("max_length");
    assert("max_length"@.len() == 10);
    assert("max_length"@[1] == 'a');
    reveal_strlit("min_items");
    assert("min_items"@.len() == 9);
    assert("min_items"@[0] == 'm');
    assert("min_items"@[1] == 'i');
    reveal_strlit("max_items");
    assert("max_items"@.len() == 9);
    assert("max_items"@[0] == 'm');
    assert("max_items"@[1] == 'a');
    reveal_strlit("minimum");
    assert("minimum"@.len() == 7);
    assert("minimum"@[0] == 'm');
    assert("minimum"@[1] == 'i');
    reveal_strlit("maximum");
    assert("maximum"@.len() == 7);
    assert("maximum"@[0] == 'm');
    assert("maximum"@[1] == 'a');
    reveal_strlit("exclusive_minimum");
    assert("exclusive_minimum"@.len() == 17);
    assert("exclusive_minimum"@[11] == 'i');
    reveal_strlit("exclusive_maximum");
    assert("exclusive_maximum"@.len() == 17);
    assert("exclusive_maximum"@[11] == 'a');
    reveal_strlit("multiple_of");
    assert("multiple_of"@.len() == 11);
    reveal_strlit("range");
    assert("range"@.len() == 5);
    reveal_strlit("pattern");
    assert("pattern"@.len() == 7);
    assert("pattern"@[0] == 'p');
    assert("pattern"@[1] == 'a');
    reveal_strlit("format");
    assert("format"@.len() == 6);
    assert("format"@[0] == 'f');
    reveal_strlit("non_blank");
    assert("non_blank"@.len() == 9);
    assert("non_blank"@[0] == 'n');
    assert("non_blank"@[1] == 'o');
    reveal_strlit("nested");
    assert("nested"@.len() == 6);
    assert("nested"@[0] == 'n');
    reveal_strlit("custom");
    assert("custom"@.len() == 6);
    assert("custom"@[0] == 'c');
    reveal_strlit("min");
    assert("min"@.len() == 3);
    assert("min"@[1] == 'i');
    reveal_strlit("max");
    assert("max"@.len() == 3);
    assert("max"@[1] == 'a');
    let list = group@;
    assert(list.drop_last() =~= seq![low]);
    assert(seq![low].drop_last() =~= Seq::empty());
    reveal_with_fuel(decl::range_all, 3);
}

// ---------------------------------------------------------------------------
// what else a field says
// ---------------------------------------------------------------------------

proof fn lemma_schema_attr(f: FieldModel, a: Attr, m: Meta)
    requires
        says_alone(a, "schema"@, m),
    ensures
        decl::field_attr(f, a) == decl::field_schema(f, m),
{
    lemma_attributes_differ();
    reveal_with_fuel(decl::field_schema_all, 2);
    assert(seq![m].drop_last() =~= Seq::empty());
    assert(seq![m].last() == m);
}

proof fn lemma_serde_attr(f: FieldModel, a: Attr, m: Meta)
    requires
        says_alone(a, "serde"@, m),
    ensures
        decl::field_attr(f, a) == decl::field_serde(f, m),
{
    lemma_attributes_differ();
    reveal_with_fuel(decl::field_serde_all, 2);
    assert(seq![m].drop_last() =~= Seq::empty());
    assert(seq![m].last() == m);
}

/// The written schema of a field whose type has the schema `inner`.
pub open spec fn field_written(f: FieldModel, inner: SchemaModel) -> ValueModel {
    schema_json(fields::field_model(f, inner))
}

/// `schema(description = "..")` is the description of the field.
pub proof fn a_field_description_is_written(
    f: FieldModel,
    a: Attr,
    m: Meta,
    t: String,
    inner: SchemaModel,
)
    requires
        inner.reference is None,
        says_alone(a, "schema"@, m),
        m.path@ == "description"@,
        m.value == Some(Lit::Text(t)),
    ensures
        decl::field_attr(f, a) matches Ok(after) && {
            &&& after == FieldModel { description: Some(t@), ..f }
            &&& read(field_written(after, inner), "description"@) == or(
                held(inner.extensions, "description"@),
                Some(ValueModel::String(t@)),
            )
        },
{
    reveal_strlit("description");
    assert("description"@.len() == 11);
    reveal_strlit("example");
    assert("example"@.len() == 7);
    assert("example"@[0] == 'e');
    reveal_strlit("example_json");
    assert("example_json"@.len() == 12);
    reveal_strlit("default");
    assert("default"@.len() == 7);
    assert("default"@[0] == 'd');
    reveal_strlit("read_only");
    assert("read_only"@.len() == 9);
    reveal_strlit("write_only");
    assert("write_only"@.len() == 10);
    assert("write_only"@[0] == 'w');
    reveal_strlit("deprecated");
    assert("deprecated"@.len() == 10);
    assert("deprecated"@[0] == 'd');
    reveal_strlit("rename");
    assert("rename"@.len() == 6);
    lemma_schema_attr(f, a, m);
    let after = FieldModel { description: Some(t@), ..f };
    a_schema_is_written_under_its_names(fields::field_model(after, inner));
}

/// `schema(rename = "..")` and `serde(rename = "..")` name the field.
pub proof fn a_field_is_renamed(f: FieldModel, a: Attr, m: Meta, t: String)
    requires
        says_alone(a, "schema"@, m) || says_alone(a, "serde"@, m),
        m.path@ == "rename"@,
        m.value == Some(Lit::Text(t)),
    ensures
        decl::field_attr(f, a) == Ok::<FieldModel, Seq<char>>(FieldModel { name: t@, ..f }),
{
    reveal_strlit("description");
    assert("description"@.len() == 11);
    reveal_strlit("example");
    assert("example"@.len() == 7);
    assert("example"@[0] == 'e');
    reveal_strlit("example_json");
    assert("example_json"@.len() == 12);
    reveal_strlit("default");
    assert("default"@.len() == 7);
    assert("default"@[0] == 'd');
    reveal_strlit("read_only");
    assert("read_only"@.len() == 9);
    reveal_strlit("write_only");
    assert("write_only"@.len() == 10);
    assert("write_only"@[0] == 'w');
    reveal_strlit("deprecated");
    assert("deprecated"@.len() == 10);
    assert("deprecated"@[0] == 'd');
    reveal_strlit("rename");
    assert("rename"@.len() == 6);
    if says_alone(a, "schema"@, m) {
        lemma_schema_attr(f, a, m);
    } else {
        lemma_serde_attr(f, a, m);
    }
}

/// `schema(example = ..)` and `schema(default = ..)` stand in the schema as the
/// values they are.
pub proof fn an_example_and_a_default_are_written(
    f: FieldModel,
    a: Attr,
    m: Meta,
    v: Lit,
    inner: SchemaModel,
)
    requires
        inner.reference is None,
        says_alone(a, "schema"@, m),
        m.value == Some(v),
    ensures
        m.path@ == "example"@ ==> (decl::field_attr(f, a) matches Ok(after) && {
            &&& after == FieldModel { example: after.example, ..f }
            &&& fields::field_model(after, inner).examples == inner.examples.push(attr::json_of(v))
        }),
        m.path@ == "default"@ ==> (decl::field_attr(f, a) matches Ok(after) && {
            &&& after == FieldModel { default_value: after.default_value, ..f }
            &&& read(field_written(after, inner), "default"@) == or(
                held(inner.extensions, "default"@),
                Some(attr::json_of(v)),
            )
        }),
        v matches Lit::Text(t) ==> attr::json_of(v) == ValueModel::String(t@),
        v matches Lit::Number { text, .. } ==> attr::json_of(v) == ValueModel::Number(text@),
{
    reveal_strlit("description");
    assert("description"@.len() == 11);
    reveal_strlit("example");
    assert("example"@.len() == 7);
    assert("example"@[0] == 'e');
    reveal_strlit("example_json");
    assert("example_json"@.len() == 12);
    reveal_strlit("default");
    assert("default"@.len() == 7);
    assert("default"@[0] == 'd');
    reveal_strlit("read_only");
    assert("read_only"@.len() == 9);
    reveal_strlit("write_only");
    assert("write_only"@.len() == 10);
    assert("write_only"@[0] == 'w');
    reveal_strlit("deprecated");
    assert("deprecated"@.len() == 10);
    assert("deprecated"@[0] == 'd');
    reveal_strlit("rename");
    assert("rename"@.len() == 6);
    lemma_schema_attr(f, a, m);
    if m.path@ == "default"@ {
        let after = FieldModel { default_value: Some(attr::json_of(v)), ..f };
        a_schema_is_written_under_its_names(fields::field_model(after, inner));
    }
}

/// `schema(read_only)` is written as `readOnly: true`.
pub proof fn read_only_is_written(f: FieldModel, a: Attr, m: Meta, inner: SchemaModel)
    requires
        inner.reference is None,
        says_alone(a, "schema"@, m),
        m.path@ == "read_only"@,
        m.value is None,
        m.group is None,
    ensures
        decl::field_attr(f, a) matches Ok(after) && {
            &&& after == FieldModel { read_only: true, ..f }
            &&& read(field_written(after, inner), "readOnly"@) == or(
                held(inner.extensions, "readOnly"@),
                Some(ValueModel::Bool(true)),
            )
        },
{
    reveal_strlit("description");
    assert("description"@.len() == 11);
    reveal_strlit("example");
    assert("example"@.len() == 7);
    assert("example"@[0] == 'e');
    reveal_strlit("example_json");
    assert("example_json"@.len() == 12);
    reveal_strlit("default");
    assert("default"@.len() == 7);
    assert("default"@[0] == 'd');
    reveal_strlit("read_only");
    assert("read_only"@.len() == 9);
    reveal_strlit("write_only");
    assert("write_only"@.len() == 10);
    assert("write_only"@[0] == 'w');
    reveal_strlit("deprecated");
    assert("deprecated"@.len() == 10);
    assert("deprecated"@[0] == 'd');
    reveal_strlit("rename");
    assert("rename"@.len() == 6);
    lemma_schema_attr(f, a, m);
    let after = FieldModel { read_only: true, ..f };
    a_schema_is_written_under_its_names(fields::field_model(after, inner));
}

/// `schema(write_only)` is written as `writeOnly: true`.
pub proof fn write_only_is_written(f: FieldModel, a: Attr, m: Meta, inner: SchemaModel)
    requires
        inner.reference is None,
        says_alone(a, "schema"@, m),
        m.path@ == "write_only"@,
        m.value is None,
        m.group is None,
    ensures
        decl::field_attr(f, a) matches Ok(after) && {
            &&& after == FieldModel { write_only: true, ..f }
            &&& read(field_written(after, inner), "writeOnly"@) == or(
                held(inner.extensions, "writeOnly"@),
                Some(ValueModel::Bool(true)),
            )
        },
{
    reveal_strlit("description");
    assert("description"@.len() == 11);
    reveal_strlit("example");
    assert("example"@.len() == 7);
    assert("example"@[0] == 'e');
    reveal_strlit("example_json");
    assert("example_json"@.len() == 12);
    reveal_strlit("default");
    assert("default"@.len() == 7);
    assert("default"@[0] == 'd');
    reveal_strlit("read_only");
    assert("read_only"@.len() == 9);
    reveal_strlit("write_only");
    assert("write_only"@.len() == 10);
    assert("write_only"@[0] == 'w');
    reveal_strlit("deprecated");
    assert("deprecated"@.len() == 10);
    assert("deprecated"@[0] == 'd');
    reveal_strlit("rename");
    assert("rename"@.len() == 6);
    lemma_schema_attr(f, a, m);
    let after = FieldModel { write_only: true, ..f };
    a_schema_is_written_under_its_names(fields::field_model(after, inner));
}

/// `schema(deprecated)` is written as `deprecated: true`.
pub proof fn deprecated_is_written(f: FieldModel, a: Attr, m: Meta, inner: SchemaModel)
    requires
        inner.reference is None,
        says_alone(a, "schema"@, m),
        m.path@ == "deprecated"@,
        m.value is None,
        m.group is None,
    ensures
        decl::field_attr(f, a) matches Ok(after) && {
            &&& after == FieldModel { deprecated: true, ..f }
            &&& read(field_written(after, inner), "deprecated"@) == or(
                held(inner.extensions, "deprecated"@),
                Some(ValueModel::Bool(true)),
            )
        },
{
    reveal_strlit("description");
    assert("description"@.len() == 11);
    reveal_strlit("example");
    assert("example"@.len() == 7);
    assert("example"@[0] == 'e');
    reveal_strlit("example_json");
    assert("example_json"@.len() == 12);
    reveal_strlit("default");
    assert("default"@.len() == 7);
    assert("default"@[0] == 'd');
    reveal_strlit("read_only");
    assert("read_only"@.len() == 9);
    reveal_strlit("write_only");
    assert("write_only"@.len() == 10);
    assert("write_only"@[0] == 'w');
    reveal_strlit("deprecated");
    assert("deprecated"@.len() == 10);
    assert("deprecated"@[0] == 'd');
    reveal_strlit("rename");
    assert("rename"@.len() == 6);
    lemma_schema_attr(f, a, m);
    let after = FieldModel { deprecated: true, ..f };
    a_schema_is_written_under_its_names(fields::field_model(after, inner));
}

/// `serde(skip)` leaves the field out, `serde(flatten)` merges it, and
/// `serde(default)` makes it optional; nothing else of the field changes.
pub proof fn serde_flags_are_read(f: FieldModel, a: Attr, m: Meta)
    requires
        says_alone(a, "serde"@, m),
        m.value is None,
        m.group is None,
    ensures
        m.path@ == "skip"@ || m.path@ == "skip_serializing"@ || m.path@ == "skip_deserializing"@
            ==> decl::field_attr(f, a) == Ok::<FieldModel, Seq<char>>(
            FieldModel { skip: true, ..f },
        ),
        m.path@ == "flatten"@ ==> decl::field_attr(f, a) == Ok::<FieldModel, Seq<char>>(
            FieldModel { flatten: true, ..f },
        ),
        m.path@ == "default"@ ==> decl::field_attr(f, a) == Ok::<FieldModel, Seq<char>>(
            FieldModel { has_default: true, ..f },
        ),
        m.path@ != "skip"@ && m.path@ != "skip_serializing"@ && m.path@ != "skip_deserializing"@
            && m.path@ != "flatten"@ && m.path@ != "default"@ && m.path@ != "rename"@
            ==> decl::field_attr(f, a) == Ok::<FieldModel, Seq<char>>(f),
{
    reveal_strlit("rename");
    assert("rename"@.len() == 6);
    reveal_strlit("skip");
    assert("skip"@.len() == 4);
    reveal_strlit("skip_serializing");
    assert("skip_serializing"@.len() == 16);
    reveal_strlit("skip_deserializing");
    assert("skip_deserializing"@.len() == 18);
    reveal_strlit("flatten");
    assert("flatten"@.len() == 7);
    assert("flatten"@[0] == 'f');
    reveal_strlit("default");
    assert("default"@.len() == 7);
    assert("default"@[0] == 'd');
    lemma_serde_attr(f, a, m);
}

/// A skipped field is not among the fields of its type, and any other is, in
/// declaration order.
pub proof fn only_skipped_fields_are_left_out(
    decls: Seq<FieldDecl>,
    last: FieldDecl,
    rule: RenameRule,
)
    requires
        decl::fields_of(decls, rule) is Ok,
        decl::field_of(decls.len() as usize, last, rule) is Ok,
    ensures
        ({
            let before = decl::fields_of(decls, rule)->Ok_0;
            let f = decl::field_of(decls.len() as usize, last, rule)->Ok_0;
            decl::fields_of(decls.push(last), rule) == Ok::<Seq<FieldModel>, Seq<char>>(
                if f.skip {
                    before
                } else {
                    before + seq![f]
                },
            )
        }),
{
    let all = decls.push(last);
    assert(all.drop_last() =~= decls);
    let before = decl::fields_of(decls, rule)->Ok_0;
    let f = decl::field_of(decls.len() as usize, last, rule)->Ok_0;
    assert(before.push(f) =~= before + seq![f]);
}

// ---------------------------------------------------------------------------
// structs
// ---------------------------------------------------------------------------

/// No two fields have the same name.
pub open spec fn names_differ(list: Seq<FieldModel>) -> bool {
    forall|i: int, j: int|
        0 <= i < j < list.len() ==> (#[trigger] list[i]).name != (#[trigger] list[j]).name
}

/// No field is merged into the struct.
pub open spec fn none_flattened(list: Seq<FieldModel>) -> bool {
    forall|i: int| 0 <= i < list.len() ==> !(#[trigger] list[i]).flatten
}

proof fn lemma_object(list: Seq<FieldModel>, inner: Seq<InnerModel>)
    requires
        inner.len() == list.len(),
        names_differ(list),
        none_flattened(list),
    ensures
        ({
            let s = fields::object_model(list, inner);
            &&& ordered::distinct(s.properties)
            &&& s.schema_type == Some(TypeModel::Single("object"@))
            &&& forall|i: int|
                0 <= i < list.len() ==> ordered::lookup(s.properties, (#[trigger] list[i]).name)
                    == Some(fields::field_model(list[i], inner[i].schema))
            &&& forall|name: Seq<char>| #[trigger]
                s.required.contains(name) <==> exists|i: int|
                    0 <= i < list.len() && (#[trigger] list[i]).name == name && !(
                    list[i].has_default || inner[i].optional)
            &&& forall|name: Seq<char>|
                (#[trigger] ordered::lookup(s.properties, name)) is Some ==> exists|i: int|
                    0 <= i < list.len() && (#[trigger] list[i]).name == name
        }),
    decreases list.len(),
{
    let s = fields::object_model(list, inner);
    if list.len() > 0 {
        let front = list.drop_last();
        let rest = inner.drop_last();
        assert forall|i: int, j: int| 0 <= i < j < front.len() implies (#[trigger] front[i]).name
            != (#[trigger] front[j]).name by {
            assert(list[i].name != list[j].name);
        }
        assert forall|i: int| 0 <= i < front.len() implies !(#[trigger] front[i]).flatten by {
            assert(!list[i].flatten);
        }
        lemma_object(front, rest);
        let before = fields::object_model(front, rest);
        let n = list.len() - 1;
        let f = list[n];
        let x = inner[n];
        assert(!f.flatten);
        let value = fields::field_model(f, x.schema);
        assert(s.properties == ordered::inserted(before.properties, f.name, value));
        ordered::insertion_is_remembered(before.properties, f.name, value, f.name);
        assert forall|i: int| 0 <= i < list.len() implies ordered::lookup(
            s.properties,
            (#[trigger] list[i]).name,
        ) == Some(fields::field_model(list[i], inner[i].schema)) by {
            if i < n {
                assert(front[i] == list[i] && rest[i] == inner[i]);
                ordered::insertion_is_remembered(before.properties, f.name, value, list[i].name);
            }
        }
        assert forall|name: Seq<char>|
            (#[trigger] ordered::lookup(s.properties, name)) is Some implies exists|i: int|
            0 <= i < list.len() && (#[trigger] list[i]).name == name by {
            if name != f.name {
                ordered::insertion_is_remembered(before.properties, f.name, value, name);
                let i = choose|i: int| 0 <= i < front.len() && (#[trigger] front[i]).name == name;
                assert(list[i] == front[i]);
            } else {
                assert(list[n].name == name);
            }
        }
        assert forall|name: Seq<char>| #[trigger] s.required.contains(name) <==> exists|i: int|
            0 <= i < list.len() && (#[trigger] list[i]).name == name && !(list[i].has_default
                || inner[i].optional) by {
            if s.required.contains(name) {
                let k = choose|k: int| 0 <= k < s.required.len() && s.required[k] == name;
                if k < before.required.len() {
                    assert(before.required[k] == name);
                    assert(before.required.contains(name));
                    let i = choose|i: int|
                        0 <= i < front.len() && (#[trigger] front[i]).name == name && !(
                        front[i].has_default || rest[i].optional);
                    assert(list[i] == front[i] && inner[i] == rest[i]);
                } else {
                    assert(list[n].name == name);
                }
            }
            if exists|i: int|
                0 <= i < list.len() && (#[trigger] list[i]).name == name && !(list[i].has_default
                    || inner[i].optional) {
                let i = choose|i: int|
                    0 <= i < list.len() && (#[trigger] list[i]).name == name && !(
                    list[i].has_default || inner[i].optional);
                if i < n {
                    assert(front[i] == list[i] && rest[i] == inner[i]);
                    assert(before.required.contains(name));
                    let k = choose|k: int|
                        0 <= k < before.required.len() && before.required[k] == name;
                    assert(s.required[k] == name);
                } else {
                    assert(s.required[s.required.len() - 1] == name);
                }
            }
        }
    }
}

/// A struct is documented as an object with a property for each of its fields,
/// under the field's name and with the field's schema, and no other; and those
/// are required that have no default and are not optional.
pub proof fn a_struct_documents_its_fields(
    list: Seq<FieldModel>,
    inner: Seq<InnerModel>,
    i: int,
    name: Seq<char>,
)
    requires
        inner.len() == list.len(),
        names_differ(list),
        none_flattened(list),
        0 <= i < list.len(),
    ensures
        ({
            let s = fields::object_model(list, inner);
            &&& s.schema_type == Some(TypeModel::Single("object"@))
            &&& ordered::lookup(s.properties, list[i].name) == Some(
                fields::field_model(list[i], inner[i].schema),
            )
            &&& s.required.contains(list[i].name) <==> !list[i].has_default && !inner[i].optional
            &&& (ordered::lookup(s.properties, name) is Some || s.required.contains(name))
                ==> exists|j: int| 0 <= j < list.len() && (#[trigger] list[j]).name == name
        }),
{
    lemma_object(list, inner);
    let s = fields::object_model(list, inner);
    if s.required.contains(list[i].name) {
        let j = choose|j: int|
            0 <= j < list.len() && (#[trigger] list[j]).name == list[i].name && !(
            list[j].has_default || inner[j].optional);
        if i < j {
            assert(list[i].name != list[j].name);
        } else if j < i {
            assert(list[j].name != list[i].name);
        }
    }
    if !list[i].has_default && !inner[i].optional {
        assert(s.required.contains(list[i].name));
    }
}

// ---------------------------------------------------------------------------
// types
// ---------------------------------------------------------------------------

proof fn lemma_container_serde(c: ContainerModel, a: Attr, m: Meta)
    requires
        says_alone(a, "serde"@, m),
    ensures
        decl::container_attr(c, a) == decl::container_serde(c, m),
{
    lemma_attributes_differ();
    reveal_with_fuel(decl::container_serde_all, 2);
    assert(seq![m].drop_last() =~= Seq::empty());
    assert(seq![m].last() == m);
}

proof fn lemma_container_schema(c: ContainerModel, a: Attr, m: Meta)
    requires
        says_alone(a, "schema"@, m),
    ensures
        decl::container_attr(c, a) == decl::container_schema(c, m),
{
    lemma_attributes_differ();
    reveal_with_fuel(decl::container_schema_all, 2);
    assert(seq![m].drop_last() =~= Seq::empty());
    assert(seq![m].last() == m);
}

/// What `serde(..)` on a type says of it.
pub proof fn serde_on_a_type_is_read(c: ContainerModel, a: Attr, m: Meta)
    requires
        says_alone(a, "serde"@, m),
    ensures
        m.value matches Some(Lit::Text(t)) ==> {
            &&& m.path@ == "rename"@ ==> decl::container_attr(c, a) == Ok::<
                ContainerModel,
                Seq<char>,
            >(ContainerModel { rename: Some(t@), ..c })
            &&& m.path@ == "tag"@ ==> decl::container_attr(c, a) == Ok::<
                ContainerModel,
                Seq<char>,
            >(ContainerModel { tag: Some(t@), ..c })
            &&& m.path@ == "content"@ ==> decl::container_attr(c, a) == Ok::<
                ContainerModel,
                Seq<char>,
            >(ContainerModel { content: Some(t@), ..c })
        },
        m.value is None && m.group is None ==> {
            &&& m.path@ == "untagged"@ ==> decl::container_attr(c, a) == Ok::<
                ContainerModel,
                Seq<char>,
            >(ContainerModel { untagged: true, ..c })
            &&& m.path@ == "transparent"@ ==> decl::container_attr(c, a) == Ok::<
                ContainerModel,
                Seq<char>,
            >(ContainerModel { transparent: true, ..c })
            &&& m.path@ == "deny_unknown_fields"@ ==> decl::container_attr(c, a) == Ok::<
                ContainerModel,
                Seq<char>,
            >(ContainerModel { deny_unknown_fields: true, ..c })
        },
{
    reveal_strlit("rename_all");
    assert("rename_all"@.len() == 10);
    reveal_strlit("rename_all_fields");
    assert("rename_all_fields"@.len() == 17);
    reveal_strlit("rename");
    assert("rename"@.len() == 6);
    reveal_strlit("deny_unknown_fields");
    assert("deny_unknown_fields"@.len() == 19);
    reveal_strlit("transparent");
    assert("transparent"@.len() == 11);
    reveal_strlit("tag");
    assert("tag"@.len() == 3);
    reveal_strlit("content");
    assert("content"@.len() == 7);
    reveal_strlit("untagged");
    assert("untagged"@.len() == 8);
    lemma_container_serde(c, a, m);
}

/// What `schema(..)` on a type says of it.
pub proof fn schema_on_a_type_is_read(c: ContainerModel, a: Attr, m: Meta)
    requires
        says_alone(a, "schema"@, m),
    ensures
        m.value matches Some(Lit::Text(t)) ==> {
            &&& m.path@ == "rename"@ ==> decl::container_attr(c, a) == Ok::<
                ContainerModel,
                Seq<char>,
            >(ContainerModel { rename: Some(t@), ..c })
            &&& m.path@ == "title"@ ==> decl::container_attr(c, a) == Ok::<
                ContainerModel,
                Seq<char>,
            >(ContainerModel { title: Some(t@), ..c })
            &&& m.path@ == "description"@ ==> decl::container_attr(c, a) == Ok::<
                ContainerModel,
                Seq<char>,
            >(ContainerModel { description: Some(t@), ..c })
        },
        m.value matches Some(v) && m.path@ == "example"@ ==> decl::container_attr(c, a) == Ok::<
            ContainerModel,
            Seq<char>,
        >(ContainerModel { example: Some(attr::json_of(m.value->0)), ..c }),
        m.value is None && m.group is None ==> {
            &&& m.path@ == "inline"@ ==> decl::container_attr(c, a) == Ok::<
                ContainerModel,
                Seq<char>,
            >(ContainerModel { inlined: true, ..c })
            &&& m.path@ == "deny_unknown_fields"@ ==> decl::container_attr(c, a) == Ok::<
                ContainerModel,
                Seq<char>,
            >(ContainerModel { deny_unknown_fields: true, ..c })
        },
{
    reveal_strlit("rename");
    assert("rename"@.len() == 6);
    assert("rename"@[0] == 'r');
    reveal_strlit("inline");
    assert("inline"@.len() == 6);
    assert("inline"@[0] == 'i');
    reveal_strlit("title");
    assert("title"@.len() == 5);
    reveal_strlit("description");
    assert("description"@.len() == 11);
    reveal_strlit("example");
    assert("example"@.len() == 7);
    reveal_strlit("example_json");
    assert("example_json"@.len() == 12);
    reveal_strlit("deny_unknown_fields");
    assert("deny_unknown_fields"@.len() == 19);
    lemma_container_schema(c, a, m);
}

/// What a type says of itself stands in its schema: the title and the
/// description under their names, and a type that denies unknown fields allows
/// no further properties.
pub proof fn a_type_says_what_it_is(c: ContainerModel, s: SchemaModel)
    requires
        s.description is None,
        s.extensions.len() == 0,
    ensures
        ({
            let written = schema_json(fields::with_annotations(c, s));
            &&& c.title matches Some(t) ==> read(written, "title"@) == Some(ValueModel::String(t))
            &&& c.description matches Some(t) ==> read(written, "description"@) == Some(
                ValueModel::String(t),
            )
            &&& c.deny_unknown_fields ==> read(written, "additionalProperties"@) == Some(
                ValueModel::Bool(false),
            )
            &&& !c.deny_unknown_fields ==> fields::with_annotations(c, s).additional_properties
                == s.additional_properties
        }),
{
    reveal(held);
    a_schema_is_written_under_its_names(fields::with_annotations(c, s));
}

// ---------------------------------------------------------------------------
// enums
// ---------------------------------------------------------------------------

/// A property of a schema that admits one text alone.
pub open spec fn names_variant(s: SchemaModel, property: Seq<char>, name: Seq<char>) -> bool {
    &&& s.schema_type == Some(TypeModel::Single("object"@))
    &&& s.required.contains(property)
    &&& ordered::lookup(s.properties, property) matches Some(p) && p.const_value == Some(
        ValueModel::String(name),
    )
}

/// How serde writes a variant is how it is documented: without a tag as an
/// object with one member, named after the variant, or for a unit as the bare
/// name; with a tag as an object that names the variant under the tag, beside
/// the payload's own members or with the payload under the content's name; and
/// untagged as the payload alone.
pub proof fn a_variant_is_documented_as_it_is_written(
    c: ContainerModel,
    v: VariantModel,
    inner: Seq<InnerModel>,
)
    ensures
        ({
            let arm = variants::arm_model(variants::tagging_of(c), v, inner);
            let payload = variants::payload_model(v, inner);
            let unit = v.shape == Shape::Unit;
            &&& c.untagged ==> arm == payload
            &&& !c.untagged && c.tag is None ==> {
                &&& unit ==> arm.const_value == Some(ValueModel::String(v.name))
                    && arm.schema_type == Some(TypeModel::Single("string"@))
                &&& !unit ==> {
                    &&& arm.schema_type == Some(TypeModel::Single("object"@))
                    &&& arm.required == seq![v.name]
                    &&& ordered::lookup(arm.properties, v.name) == Some(payload)
                }
            }
            &&& !c.untagged && c.tag is Some && c.content is None ==> {
                &&& unit ==> names_variant(arm, c.tag->0, v.name)
                &&& !unit ==> arm.all_of.len() == 2 && names_variant(
                    arm.all_of[0],
                    c.tag->0,
                    v.name,
                ) && arm.all_of[1] == payload
            }
            &&& !c.untagged && c.tag is Some && c.content is Some && c.tag != c.content ==> {
                &&& names_variant(arm, c.tag->0, v.name)
                &&& !unit ==> ordered::lookup(arm.properties, c.content->0) == Some(payload)
                    && arm.required.contains(c.content->0)
            }
        }),
{
    reveal_with_fuel(ordered::position, 3);
    let arm = variants::arm_model(variants::tagging_of(c), v, inner);
    let payload = variants::payload_model(v, inner);
    if !c.untagged && c.tag is Some {
        let tag = c.tag->0;
        let one = seq![(tag, variants::const_model(v.name))];
        assert(seq![tag][0] == tag);
        assert(one.drop_last() =~= Seq::empty());
        ordered::lemma_position(one, tag);
        if let Some(content) = c.content {
            let both = ordered::inserted(one, content, payload);
            assert(ordered::distinct(one));
            ordered::insertion_is_remembered(one, content, payload, tag);
            assert(seq![tag, content][0] == tag && seq![tag, content][1] == content);
        }
    } else if !c.untagged {
        let one = seq![(v.name, payload)];
        ordered::lemma_position(one, v.name);
    }
}

/// An enum of units alone, without a tag, is the closed set of its names, in
/// order; any other is one schema for each variant, in order, of which exactly
/// one holds, or for an untagged enum any.
pub proof fn an_enum_documents_its_variants(
    c: ContainerModel,
    list: Seq<VariantModel>,
    inner: Seq<Seq<InnerModel>>,
    i: int,
)
    requires
        0 <= i < list.len(),
        inner.len() == list.len(),
    ensures
        ({
            let s = variants::enum_model(c, list, inner);
            let arm = variants::arm_model(variants::tagging_of(c), list[i], inner[i]);
            let units = forall|j: int|
                0 <= j < list.len() ==> (#[trigger] list[j]).shape == Shape::Unit;
            &&& units && !c.untagged && c.tag is None ==> {
                &&& s.schema_type == Some(TypeModel::Single("string"@))
                &&& s.enum_values.len() == list.len()
                &&& s.enum_values[i] == ValueModel::String(list[i].name)
            }
            &&& c.untagged ==> s.any_of.len() == list.len() && s.any_of[i] == arm
                && s.one_of.len() == 0
            &&& !c.untagged && (c.tag is Some || !units) ==> s.one_of.len() == list.len()
                && s.one_of[i] == arm && s.any_of.len() == 0
            &&& !c.untagged && c.tag is Some ==> s.discriminator is Some
                && s.discriminator->0.property_name == c.tag->0
        }),
{
}

} // verus!
