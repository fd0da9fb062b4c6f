//! The run-time checks a declaration stands for.

use crate::derive::decl;
use crate::derive::decl::{Field, FieldModel, Rules, RulesModel};
use crate::derive::schema as fields;
use crate::derive::schema::Shape;
use crate::derive::variants::{Variant, VariantModel};
use crate::error;
use crate::error::{FieldError, FieldFailure};
use crate::openapi::schema::SchemaModel;
use crate::text;
use crate::validate;
use crate::validate::rules;
use crate::validate::ValidationErrors;
use vstd::prelude::*;
use vstd::string::*;

verus! {

/// One check on the value of a field.
pub enum Check {
    MinLength(u64),
    MaxLength(u64),
    MinItems(u64),
    MaxItems(u64),
    Minimum(String),
    Maximum(String),
    ExclusiveMinimum(String),
    ExclusiveMaximum(String),
    MultipleOf(String),
    NonBlank,
    Format(String),
    Pattern(String),
    /// The value checks itself.
    Nested,
    /// A function of the user's, by its path.
    Custom(String),
}

/// One check, as a value.
pub enum CheckModel {
    MinLength(u64),
    MaxLength(u64),
    MinItems(u64),
    MaxItems(u64),
    Minimum(Seq<char>),
    Maximum(Seq<char>),
    ExclusiveMinimum(Seq<char>),
    ExclusiveMaximum(Seq<char>),
    MultipleOf(Seq<char>),
    NonBlank,
    Format(Seq<char>),
    Pattern(Seq<char>),
    Nested,
    Custom(Seq<char>),
}

impl View for Check {
    type V = CheckModel;

    open spec fn view(&self) -> CheckModel {
        match self {
            Check::MinLength(n) => CheckModel::MinLength(*n),
            Check::MaxLength(n) => CheckModel::MaxLength(*n),
            Check::MinItems(n) => CheckModel::MinItems(*n),
            Check::MaxItems(n) => CheckModel::MaxItems(*n),
            Check::Minimum(t) => CheckModel::Minimum(t@),
            Check::Maximum(t) => CheckModel::Maximum(t@),
            Check::ExclusiveMinimum(t) => CheckModel::ExclusiveMinimum(t@),
            Check::ExclusiveMaximum(t) => CheckModel::ExclusiveMaximum(t@),
            Check::MultipleOf(t) => CheckModel::MultipleOf(t@),
            Check::NonBlank => CheckModel::NonBlank,
            Check::Format(t) => CheckModel::Format(t@),
            Check::Pattern(t) => CheckModel::Pattern(t@),
            Check::Nested => CheckModel::Nested,
            Check::Custom(t) => CheckModel::Custom(t@),
        }
    }
}

/// The checks of a list.
pub open spec fn check_models(list: Seq<Check>) -> Seq<CheckModel> {
    list.map_values(|c: Check| c@)
}

/// A list with one more check, if there is one.
#[verifier::opaque]
pub open spec fn plus(list: Seq<CheckModel>, c: Option<CheckModel>) -> Seq<CheckModel> {
    match c {
        Some(c) => list.push(c),
        None => list,
    }
}

/// The user's own checks.
pub open spec fn custom_checks(paths: Seq<Seq<char>>) -> Seq<CheckModel> {
    paths.map_values(|p: Seq<char>| CheckModel::Custom(p))
}

/// The checks that rules imply, in the order they run.
pub open spec fn checks_of(r: RulesModel) -> Seq<CheckModel> {
    let c0 = Seq::<CheckModel>::empty();
    let c1 = plus(
        c0,
        match r.min_length {
            Some(x) => Some(CheckModel::MinLength(x)),
            None => None,
        },
    );
    let c2 = plus(
        c1,
        match r.max_length {
            Some(x) => Some(CheckModel::MaxLength(x)),
            None => None,
        },
    );
    let c3 = plus(
        c2,
        match r.min_items {
            Some(x) => Some(CheckModel::MinItems(x)),
            None => None,
        },
    );
    let c4 = plus(
        c3,
        match r.max_items {
            Some(x) => Some(CheckModel::MaxItems(x)),
            None => None,
        },
    );
    let c5 = plus(
        c4,
        match r.minimum {
            Some(x) => Some(CheckModel::Minimum(x)),
            None => None,
        },
    );
    let c6 = plus(
        c5,
        match r.maximum {
            Some(x) => Some(CheckModel::Maximum(x)),
            None => None,
        },
    );
    let c7 = plus(
        c6,
        match r.exclusive_minimum {
            Some(x) => Some(CheckModel::ExclusiveMinimum(x)),
            None => None,
        },
    );
    let c8 = plus(
        c7,
        match r.exclusive_maximum {
            Some(x) => Some(CheckModel::ExclusiveMaximum(x)),
            None => None,
        },
    );
    let c9 = plus(
        c8,
        match r.multiple_of {
            Some(x) => Some(CheckModel::MultipleOf(x)),
            None => None,
        },
    );
    let c10 = plus(
        c9,
        if r.non_blank {
            Some(CheckModel::NonBlank)
        } else {
            None
        },
    );
    let c11 = plus(
        c10,
        match r.format {
            Some(x) => Some(CheckModel::Format(x)),
            None => None,
        },
    );
    let c12 = plus(
        c11,
        match r.pattern {
            Some(x) => Some(CheckModel::Pattern(x)),
            None => None,
        },
    );
    let c13 = plus(
        c12,
        if r.nested {
            Some(CheckModel::Nested)
        } else {
            None
        },
    );
    c13 + custom_checks(r.custom)
}

/// An optional check, as a value.
pub open spec fn opt_check(c: Option<Check>) -> Option<CheckModel> {
    match c {
        Some(c) => Some(c@),
        None => None,
    }
}

fn add_check(list: &mut Vec<Check>, c: Option<Check>)
    ensures
        check_models(final(list)@) == plus(check_models(old(list)@), opt_check(c)),
{
    proof {
        reveal(plus);
    }
    if let Some(c) = c {
        assert(check_models(list@.push(c)) =~= check_models(list@).push(c@));
        list.push(c);
    }
}

impl Rules {
    /// The run-time checks these rules imply, in the order they run.
    pub fn checks(&self) -> (out: Vec<Check>)
        ensures
            check_models(out@) == checks_of(self@),
    {
        let mut out: Vec<Check> = Vec::new();
        assert(check_models(out@) =~= Seq::<CheckModel>::empty());
        add_check(
            &mut out,
            match self.min_length {
                Some(n) => Some(Check::MinLength(n)),
                None => None,
            },
        );
        add_check(
            &mut out,
            match self.max_length {
                Some(n) => Some(Check::MaxLength(n)),
                None => None,
            },
        );
        add_check(
            &mut out,
            match self.min_items {
                Some(n) => Some(Check::MinItems(n)),
                None => None,
            },
        );
        add_check(
            &mut out,
            match self.max_items {
                Some(n) => Some(Check::MaxItems(n)),
                None => None,
            },
        );
        add_check(
            &mut out,
            match &self.minimum {
                Some(t) => Some(Check::Minimum(t.clone())),
                None => None,
            },
        );
        add_check(
            &mut out,
            match &self.maximum {
                Some(t) => Some(Check::Maximum(t.clone())),
                None => None,
            },
        );
        add_check(
            &mut out,
            match &self.exclusive_minimum {
                Some(t) => Some(Check::ExclusiveMinimum(t.clone())),
                None => None,
            },
        );
        add_check(
            &mut out,
            match &self.exclusive_maximum {
                Some(t) => Some(Check::ExclusiveMaximum(t.clone())),
                None => None,
            },
        );
        add_check(
            &mut out,
            match &self.multiple_of {
                Some(t) => Some(Check::MultipleOf(t.clone())),
                None => None,
            },
        );
        add_check(
            &mut out,
            if self.non_blank {
                Some(Check::NonBlank)
            } else {
                None
            },
        );
        add_check(
            &mut out,
            match &self.format {
                Some(t) => Some(Check::Format(t.clone())),
                None => None,
            },
        );
        add_check(
            &mut out,
            match &self.pattern {
                Some(t) => Some(Check::Pattern(t.clone())),
                None => None,
            },
        );
        add_check(
            &mut out,
            if self.nested {
                Some(Check::Nested)
            } else {
                None
            },
        );
        let ghost before = check_models(out@);
        let ghost paths = text::views(self.custom@);
        assert(before + custom_checks(paths.take(0)) =~= before);
        for i in 0..self.custom.len()
            invariant
                paths == text::views(self.custom@),
                check_models(out@) == before + custom_checks(paths.take(i as int)),
        {
            assert(paths[i as int] == self.custom@[i as int]@);
            let own = Check::Custom(self.custom[i].clone());
            assert(check_models(out@.push(own)) =~= check_models(out@).push(own@));
            out.push(own);
            assert(before + custom_checks(paths.take(i + 1)) =~= (before + custom_checks(
                paths.take(i as int),
            )).push(CheckModel::Custom(paths[i as int])));
        }
        assert(paths.take(paths.len() as int) =~= paths);
        out
    }
}

/// What checks read of the value of a field.
///
/// Floating-point bounds and network addresses are compared and read by the
/// caller, and so are the verdicts of nested values and of the user's own
/// functions.
pub struct Given {
    /// `false` for an `Option` that is `None`.
    pub present: bool,
    pub length: usize,
    /// What the length counts.
    pub unit: String,
    /// The value as text.
    pub text: String,
    pub above_minimum: bool,
    pub below_maximum: bool,
    pub above_exclusive_minimum: bool,
    pub below_exclusive_maximum: bool,
    pub is_multiple: bool,
    pub is_address: bool,
    /// What is wrong with the value itself.
    pub nested: Vec<FieldError>,
    /// What each of the user's functions objects to, in the order of the rules.
    pub custom: Vec<Option<String>>,
}

/// What checks read of a value, as a value.
pub struct GivenModel {
    pub present: bool,
    pub length: usize,
    pub unit: Seq<char>,
    pub text: Seq<char>,
    pub above_minimum: bool,
    pub below_maximum: bool,
    pub above_exclusive_minimum: bool,
    pub below_exclusive_maximum: bool,
    pub is_multiple: bool,
    pub is_address: bool,
    pub nested: Seq<FieldFailure>,
    pub custom: Seq<Option<Seq<char>>>,
}

impl View for Given {
    type V = GivenModel;

    open spec fn view(&self) -> GivenModel {
        GivenModel {
            present: self.present,
            length: self.length,
            unit: self.unit@,
            text: self.text@,
            above_minimum: self.above_minimum,
            below_maximum: self.below_maximum,
            above_exclusive_minimum: self.above_exclusive_minimum,
            below_exclusive_maximum: self.below_exclusive_maximum,
            is_multiple: self.is_multiple,
            is_address: self.is_address,
            nested: error::failures(self.nested@),
            custom: self.custom@.map_values(|m: Option<String>| text::opt(m)),
        }
    }
}

/// The values of a list.
pub open spec fn given_models(list: Seq<Given>) -> Seq<GivenModel> {
    list.map_values(|g: Given| g@)
}

/// How many of the checks are the user's own.
pub open spec fn custom_count(list: Seq<CheckModel>) -> nat
    decreases list.len(),
{
    if list.len() == 0 {
        0
    } else {
        custom_count(list.drop_last()) + if list.last() is Custom {
            1nat
        } else {
            0nat
        }
    }
}

/// The failures after one check; `n` is how many of the user's ran before.
pub open spec fn run_one(
    before: Seq<FieldFailure>,
    c: CheckModel,
    g: GivenModel,
    pointer: Seq<char>,
    n: nat,
) -> Seq<FieldFailure> {
    match c {
        CheckModel::MinLength(min) => rules::checked(
            before,
            g.length >= min,
            pointer,
            "min_length"@,
            rules::min_length_text(min as nat, g.unit, g.length as nat),
        ),
        CheckModel::MaxLength(max) => rules::checked(
            before,
            g.length <= max,
            pointer,
            "max_length"@,
            rules::max_length_text(max as nat, g.unit, g.length as nat),
        ),
        CheckModel::MinItems(min) => rules::checked(
            before,
            g.length >= min,
            pointer,
            "min_items"@,
            rules::min_items_text(min as nat),
        ),
        CheckModel::MaxItems(max) => rules::checked(
            before,
            g.length <= max,
            pointer,
            "max_items"@,
            rules::max_items_text(max as nat),
        ),
        CheckModel::Minimum(b) => rules::checked(
            before,
            g.above_minimum,
            pointer,
            "minimum"@,
            "must be >= "@ + b,
        ),
        CheckModel::Maximum(b) => rules::checked(
            before,
            g.below_maximum,
            pointer,
            "maximum"@,
            "must be <= "@ + b,
        ),
        CheckModel::ExclusiveMinimum(b) => rules::checked(
            before,
            g.above_exclusive_minimum,
            pointer,
            "exclusive_minimum"@,
            "must be > "@ + b,
        ),
        CheckModel::ExclusiveMaximum(b) => rules::checked(
            before,
            g.below_exclusive_maximum,
            pointer,
            "exclusive_maximum"@,
            "must be < "@ + b,
        ),
        CheckModel::MultipleOf(b) => rules::checked(
            before,
            g.is_multiple,
            pointer,
            "multiple_of"@,
            "must be a multiple of "@ + b,
        ),
        CheckModel::NonBlank => rules::checked(
            before,
            text::trim(g.text).len() > 0,
            pointer,
            "non_blank"@,
            "must not be blank"@,
        ),
        CheckModel::Format(f) => rules::checked(
            before,
            rules::has_format(g.text, f, g.is_address),
            pointer,
            "format"@,
            "must be a valid "@ + f,
        ),
        CheckModel::Pattern(p) => rules::checked(
            before,
            rules::regex_verdict(p, g.text) == Some(true),
            pointer,
            "pattern"@,
            "must match /"@ + p + "/"@,
        ),
        CheckModel::Nested => before + validate::prefixed(g.nested, pointer),
        CheckModel::Custom(_) => if n < g.custom.len() && g.custom[n as int] is Some {
            before.push(
                FieldFailure { pointer, code: "custom"@, message: g.custom[n as int]->0 },
            )
        } else {
            before
        },
    }
}

/// The failures after a list of checks.
pub open spec fn run_all(
    before: Seq<FieldFailure>,
    list: Seq<CheckModel>,
    g: GivenModel,
    pointer: Seq<char>,
) -> Seq<FieldFailure>
    decreases list.len(),
{
    if list.len() == 0 {
        before
    } else {
        run_one(
            run_all(before, list.drop_last(), g, pointer),
            list.last(),
            g,
            pointer,
            custom_count(list.drop_last()),
        )
    }
}

fn copy_errors(list: &Vec<FieldError>) -> (out: ValidationErrors)
    ensures
        out@ == error::failures(list@),
{
    let mut out = ValidationErrors::new();
    assert(error::failures(list@).take(0) =~= Seq::<FieldFailure>::empty());
    for i in 0..list.len()
        invariant
            out@ == error::failures(list@).take(i as int),
    {
        out.push(list[i].pointer.as_str(), list[i].code.as_str(), list[i].message.as_str());
        assert(error::failures(list@).take(i + 1) =~= error::failures(list@).take(i as int).push(
            list@[i as int]@,
        ));
    }
    assert(error::failures(list@).take(list@.len() as int) =~= error::failures(list@));
    out
}

/// The pattern of a check, if it is one, compiles.
pub open spec fn runs(c: CheckModel, g: GivenModel) -> bool {
    c matches CheckModel::Pattern(p) ==> rules::regex_verdict(p, g.text) is Some
}

/// Runs one check on a value.
fn run_check(
    c: &Check,
    g: &Given,
    pointer: &str,
    n: usize,
    errors: &mut ValidationErrors,
)
    requires
        runs(c@, g@),
    ensures
        final(errors)@ == run_one(old(errors)@, c@, g@, pointer@, n as nat),
{
    match c {
        Check::MinLength(min) => rules::min_length_of(
            g.length,
            g.unit.as_str(),
            *min,
            pointer,
            errors,
        ),
        Check::MaxLength(max) => rules::max_length_of(
            g.length,
            g.unit.as_str(),
            *max,
            pointer,
            errors,
        ),
        Check::MinItems(min) => rules::min_items_of(g.length, *min, pointer, errors),
        Check::MaxItems(max) => rules::max_items_of(g.length, *max, pointer, errors),
        Check::Minimum(b) => rules::minimum(g.above_minimum, b.as_str(), pointer, errors),
        Check::Maximum(b) => rules::maximum(g.below_maximum, b.as_str(), pointer, errors),
        Check::ExclusiveMinimum(b) => rules::exclusive_minimum(
            g.above_exclusive_minimum,
            b.as_str(),
            pointer,
            errors,
        ),
        Check::ExclusiveMaximum(b) => rules::exclusive_maximum(
            g.below_exclusive_maximum,
            b.as_str(),
            pointer,
            errors,
        ),
        Check::MultipleOf(b) => rules::multiple_of(g.is_multiple, b.as_str(), pointer, errors),
        Check::NonBlank => rules::non_blank(g.text.as_str(), pointer, errors),
        Check::Format(f) => rules::format(
            g.text.as_str(),
            f.as_str(),
            g.is_address,
            pointer,
            errors,
        ),
        Check::Pattern(p) => rules::pattern(g.text.as_str(), p.as_str(), pointer, errors),
        Check::Nested => {
            let nested = copy_errors(&g.nested);
            errors.merge_at(pointer, nested);
        },
        Check::Custom(_) => {
            if n < g.custom.len() {
                assert(g@.custom[n as int] == text::opt(g.custom@[n as int]));
                if let Some(message) = &g.custom[n] {
                    errors.push(pointer, "custom", message.as_str());
                }
            }
        },
    }
}

/// Runs a list of checks on a value.
fn run_checks(list: &Vec<Check>, g: &Given, pointer: &str, errors: &mut ValidationErrors)
    requires
        forall|i: int| 0 <= i < list@.len() ==> runs((#[trigger] list@[i])@, g@),
    ensures
        final(errors)@ == run_all(old(errors)@, check_models(list@), g@, pointer@),
{
    let ghost before = errors@;
    let ghost all = check_models(list@);
    let mut n: usize = 0;
    assert(all.take(0) =~= Seq::<CheckModel>::empty());
    for i in 0..list.len()
        invariant
            all == check_models(list@),
            forall|j: int| 0 <= j < list@.len() ==> runs((#[trigger] list@[j])@, g@),
            n <= i,
            n == custom_count(all.take(i as int)),
            errors@ == run_all(before, all.take(i as int), g@, pointer@),
    {
        assert(all.take(i + 1).drop_last() =~= all.take(i as int));
        assert(all[i as int] == list@[i as int]@);
        run_check(&list[i], g, pointer, n, errors);
        if let Check::Custom(_) = &list[i] {
            n += 1;
        }
    }
    assert(all.take(all.len() as int) =~= all);
}

// ---------------------------------------------------------------------------
// fields
// ---------------------------------------------------------------------------

/// Where a field's failures point.
pub open spec fn pointer_of(f: FieldModel) -> Seq<char> {
    "/"@ + validate::escaped(f.name)
}

/// Where the failures of a field of a variant point: by name, or by position
/// where there are no names.
pub open spec fn variant_pointer(v: VariantModel, f: FieldModel) -> Seq<char> {
    if v.shape == Shape::Unnamed {
        "/"@ + text::decimal(f.index as nat)
    } else {
        pointer_of(f)
    }
}

/// What is wrong with the value of one field. An absent value is valid: a
/// constraint describes the value when one is present.
pub open spec fn field_faults(
    f: FieldModel,
    g: GivenModel,
    pointer: Seq<char>,
) -> Seq<FieldFailure> {
    if g.present {
        run_all(Seq::empty(), checks_of(f.rules), g, pointer)
    } else {
        Seq::empty()
    }
}

/// The pattern of a field, where there is one and a value for it, compiles.
pub open spec fn compiles(f: FieldModel, g: GivenModel) -> bool {
    g.present && f.rules.pattern is Some ==> rules::regex_verdict(
        f.rules.pattern->0,
        g.text,
    ) is Some
}

/// Every pattern that the values reach compiles.
pub open spec fn all_compile(list: Seq<FieldModel>, given: Seq<GivenModel>) -> bool {
    forall|i: int| 0 <= i < list.len() ==> compiles(#[trigger] list[i], given[i])
}

/// Every pattern that the values of a variant reach compiles.
pub open spec fn variant_compiles(v: VariantModel, given: Seq<GivenModel>) -> bool {
    v.shape == Shape::Unit || all_compile(v.fields, given)
}

/// What is wrong with a struct: what is wrong with each field, in order.
pub open spec fn struct_faults(
    list: Seq<FieldModel>,
    given: Seq<GivenModel>,
) -> Seq<FieldFailure>
    decreases list.len(),
{
    if list.len() == 0 {
        Seq::empty()
    } else {
        struct_faults(list.drop_last(), given.drop_last()) + field_faults(
            list.last(),
            given.last(),
            pointer_of(list.last()),
        )
    }
}

/// What is wrong with a variant's fields, in order.
pub open spec fn fields_faults(
    v: VariantModel,
    list: Seq<FieldModel>,
    given: Seq<GivenModel>,
) -> Seq<FieldFailure>
    decreases list.len(),
{
    if list.len() == 0 {
        Seq::empty()
    } else {
        fields_faults(v, list.drop_last(), given.drop_last()) + field_faults(
            list.last(),
            given.last(),
            variant_pointer(v, list.last()),
        )
    }
}

/// What is wrong with an enum value of this variant.
pub open spec fn enum_faults(v: VariantModel, given: Seq<GivenModel>) -> Seq<FieldFailure> {
    if v.shape == Shape::Unit {
        Seq::empty()
    } else {
        fields_faults(v, v.fields, given)
    }
}

proof fn lemma_run_one_appends(
    before: Seq<FieldFailure>,
    more: Seq<FieldFailure>,
    c: CheckModel,
    g: GivenModel,
    pointer: Seq<char>,
    n: nat,
)
    ensures
        run_one(before + more, c, g, pointer, n) == before + run_one(more, c, g, pointer, n),
{
    assert forall|e: FieldFailure| #[trigger] (before + more).push(e) == before + more.push(e) by {
        assert((before + more).push(e) =~= before + more.push(e));
    }
    let nested = validate::prefixed(g.nested, pointer);
    assert(before + more + nested =~= before + (more + nested));
}

/// Checks only add failures after those that are there.
proof fn lemma_run_all_appends(
    before: Seq<FieldFailure>,
    list: Seq<CheckModel>,
    g: GivenModel,
    pointer: Seq<char>,
)
    ensures
        run_all(before, list, g, pointer) == before + run_all(Seq::empty(), list, g, pointer),
    decreases list.len(),
{
    if list.len() == 0 {
        assert(before + Seq::<FieldFailure>::empty() =~= before);
    } else {
        lemma_run_all_appends(before, list.drop_last(), g, pointer);
        lemma_run_one_appends(
            before,
            run_all(Seq::empty(), list.drop_last(), g, pointer),
            list.last(),
            g,
            pointer,
            custom_count(list.drop_last()),
        );
    }
}

proof fn lemma_no_checks()
    ensures
        checks_of(RulesModel::none()) == Seq::<CheckModel>::empty(),
{
    reveal(plus);
    assert(checks_of(RulesModel::none()) =~= Seq::<CheckModel>::empty());
}

impl Field {
    /// Where failures of this field point.
    pub fn pointer(&self) -> (out: String)
        ensures
            out@ == pointer_of(self@),
    {
        let mut out = "/".to_owned();
        out.append(validate::escape_pointer(self.name.as_str()).as_str());
        out
    }

    /// Checks the value of this field.
    fn check(&self, g: &Given, pointer: &str, errors: &mut ValidationErrors)
        requires
            compiles(self@, g@),
        ensures
            final(errors)@ == old(errors)@ + field_faults(self@, g@, pointer@),
    {
        let ghost before = errors@;
        proof {
            assert(before + Seq::<FieldFailure>::empty() =~= before);
            lemma_no_checks();
            lemma_run_all_appends(before, checks_of(self@.rules), g@, pointer@);
        }
        if self.rules.is_empty() || !g.present {
            return;
        }
        let list = self.rules.checks();
        proof {
            assert forall|i: int| 0 <= i < list@.len() implies runs(
                (#[trigger] list@[i])@,
                g@,
            ) by {
                assert(check_models(list@)[i] == list@[i]@);
                lemma_enforced(self@.rules, list@[i]@);
            }
        }
        run_checks(&list, g, pointer, errors);
    }
}

/// Whether every pattern that the values reach compiles.
fn patterns_compile(list: &Vec<Field>, given: &Vec<Given>) -> (ok: bool)
    requires
        given@.len() == list@.len(),
    ensures
        ok == all_compile(decl::field_models(list@), given_models(given@)),
{
    let ghost fs = decl::field_models(list@);
    let ghost gs = given_models(given@);
    for i in 0..list.len()
        invariant
            given@.len() == list@.len(),
            fs == decl::field_models(list@),
            gs == given_models(given@),
            forall|j: int| 0 <= j < i ==> compiles(#[trigger] fs[j], gs[j]),
    {
        assert(fs[i as int] == list@[i as int]@ && gs[i as int] == given@[i as int]@);
        if given[i].present {
            if let Some(p) = &list[i].rules.pattern {
                if rules::regex_match(p.as_str(), given[i].text.as_str()).is_none() {
                    assert(!compiles(fs[i as int], gs[i as int]));
                    return false;
                }
            }
        }
    }
    true
}

/// Checks the values of a struct's fields. A pattern that a value reaches is to
/// compile.
pub fn struct_validate(list: &Vec<Field>, given: &Vec<Given>) -> (r: Result<
    (),
    ValidationErrors,
>)
    requires
        given@.len() == list@.len(),
        all_compile(decl::field_models(list@), given_models(given@)),
    ensures
        match r {
            Ok(_) => struct_faults(decl::field_models(list@), given_models(given@)).len() == 0,
            Err(e) => {
                &&& e@ == struct_faults(decl::field_models(list@), given_models(given@))
                &&& e@.len() > 0
            },
        },
{
    let ghost fs = decl::field_models(list@);
    let ghost gs = given_models(given@);
    let mut errors = ValidationErrors::new();
    assert(fs.take(0) =~= Seq::<FieldModel>::empty());
    for i in 0..list.len()
        invariant
            given@.len() == list@.len(),
            fs == decl::field_models(list@),
            gs == given_models(given@),
            all_compile(fs, gs),
            errors@ == struct_faults(fs.take(i as int), gs.take(i as int)),
    {
        assert(fs.take(i + 1).drop_last() =~= fs.take(i as int));
        assert(gs.take(i + 1).drop_last() =~= gs.take(i as int));
        let pointer = list[i].pointer();
        assert(compiles(fs[i as int], gs[i as int]));
        list[i].check(&given[i], pointer.as_str(), &mut errors);
    }
    assert(fs.take(fs.len() as int) =~= fs);
    assert(gs.take(gs.len() as int) =~= gs);
    errors.into_result()
}

/// Checks the values of a struct's fields; nothing where a pattern that a value
/// reaches does not compile.
pub fn try_struct_validate(list: &Vec<Field>, given: &Vec<Given>) -> (out: Option<
    Result<(), ValidationErrors>,
>)
    requires
        given@.len() == list@.len(),
    ensures
        match out {
            None => !all_compile(decl::field_models(list@), given_models(given@)),
            Some(r) => {
                &&& all_compile(decl::field_models(list@), given_models(given@))
                &&& match r {
                    Ok(_) => struct_faults(
                        decl::field_models(list@),
                        given_models(given@),
                    ).len() == 0,
                    Err(e) => {
                        &&& e@ == struct_faults(decl::field_models(list@), given_models(given@))
                        &&& e@.len() > 0
                    },
                }
            },
        },
{
    if patterns_compile(list, given) {
        Some(struct_validate(list, given))
    } else {
        None
    }
}

/// Checks the values of the fields of a variant. A pattern that a value reaches
/// is to compile.
pub fn enum_validate(variant: &Variant, given: &Vec<Given>) -> (r: Result<(), ValidationErrors>)
    requires
        given@.len() == variant@.fields.len(),
        variant_compiles(variant@, given_models(given@)),
    ensures
        match r {
            Ok(_) => enum_faults(variant@, given_models(given@)).len() == 0,
            Err(e) => {
                &&& e@ == enum_faults(variant@, given_models(given@))
                &&& e@.len() > 0
            },
        },
{
    if variant.shape == Shape::Unit {
        return Ok(());
    }
    let list = &variant.fields;
    let ghost v = variant@;
    let ghost fs = decl::field_models(list@);
    let ghost gs = given_models(given@);
    let mut errors = ValidationErrors::new();
    assert(fs.take(0) =~= Seq::<FieldModel>::empty());
    for i in 0..list.len()
        invariant
            v == variant@,
            given@.len() == list@.len(),
            fs == decl::field_models(list@),
            gs == given_models(given@),
            all_compile(fs, gs),
            errors@ == fields_faults(v, fs.take(i as int), gs.take(i as int)),
    {
        assert(fs.take(i + 1).drop_last() =~= fs.take(i as int));
        assert(gs.take(i + 1).drop_last() =~= gs.take(i as int));
        let pointer = if variant.shape == Shape::Unnamed {
            let mut p = "/".to_owned();
            p.append(text::decimal_text(list[i].index as u64).as_str());
            p
        } else {
            list[i].pointer()
        };
        assert(compiles(fs[i as int], gs[i as int]));
        list[i].check(&given[i], pointer.as_str(), &mut errors);
    }
    assert(fs.take(fs.len() as int) =~= fs);
    assert(gs.take(gs.len() as int) =~= gs);
    errors.into_result()
}

/// Checks the values of the fields of a variant; nothing where a pattern that a
/// value reaches does not compile.
pub fn try_enum_validate(variant: &Variant, given: &Vec<Given>) -> (out: Option<
    Result<(), ValidationErrors>,
>)
    requires
        given@.len() == variant@.fields.len(),
    ensures
        match out {
            None => !variant_compiles(variant@, given_models(given@)),
            Some(r) => {
                &&& variant_compiles(variant@, given_models(given@))
                &&& match r {
                    Ok(_) => enum_faults(variant@, given_models(given@)).len() == 0,
                    Err(e) => {
                        &&& e@ == enum_faults(variant@, given_models(given@))
                        &&& e@.len() > 0
                    },
                }
            },
        },
{
    if variant.shape == Shape::Unit || patterns_compile(&variant.fields, given) {
        Some(enum_validate(variant, given))
    } else {
        None
    }
}

// ---------------------------------------------------------------------------
// What holds of rules as a whole
// ---------------------------------------------------------------------------

/// What is documented is what is enforced: a keyword stands in the schema with a
/// bound exactly where the check with that bound is run. A `non_blank` text is
/// documented as one of at least one character.
pub proof fn documented_and_enforced_constraints_agree(r: RulesModel)
    ensures
        forall|x: u64| #[trigger]
            checks_of(r).contains(CheckModel::MinLength(x)) || (r.min_length is None && r.non_blank && x == 1) <==> fields::with_keywords(
                r,
                SchemaModel::any(),
            ).min_length == Some(x),
        forall|x: u64| #[trigger]
            checks_of(r).contains(CheckModel::MaxLength(x)) <==> fields::with_keywords(
                r,
                SchemaModel::any(),
            ).max_length == Some(x),
        forall|x: u64| #[trigger]
            checks_of(r).contains(CheckModel::MinItems(x)) <==> fields::with_keywords(
                r,
                SchemaModel::any(),
            ).min_items == Some(x),
        forall|x: u64| #[trigger]
            checks_of(r).contains(CheckModel::MaxItems(x)) <==> fields::with_keywords(
                r,
                SchemaModel::any(),
            ).max_items == Some(x),
        forall|x: Seq<char>| #[trigger]
            checks_of(r).contains(CheckModel::Minimum(x)) <==> fields::with_keywords(
                r,
                SchemaModel::any(),
            ).minimum == Some(x),
        forall|x: Seq<char>| #[trigger]
            checks_of(r).contains(CheckModel::Maximum(x)) <==> fields::with_keywords(
                r,
                SchemaModel::any(),
            ).maximum == Some(x),
        forall|x: Seq<char>| #[trigger]
            checks_of(r).contains(CheckModel::ExclusiveMinimum(x)) <==> fields::with_keywords(
                r,
                SchemaModel::any(),
            ).exclusive_minimum == Some(x),
        forall|x: Seq<char>| #[trigger]
            checks_of(r).contains(CheckModel::ExclusiveMaximum(x)) <==> fields::with_keywords(
                r,
                SchemaModel::any(),
            ).exclusive_maximum == Some(x),
        forall|x: Seq<char>| #[trigger]
            checks_of(r).contains(CheckModel::MultipleOf(x)) <==> fields::with_keywords(
                r,
                SchemaModel::any(),
            ).multiple_of == Some(x),
        forall|x: Seq<char>| #[trigger]
            checks_of(r).contains(CheckModel::Format(x)) <==> fields::with_keywords(
                r,
                SchemaModel::any(),
            ).format == Some(x),
        forall|x: Seq<char>| #[trigger]
            checks_of(r).contains(CheckModel::Pattern(x)) <==> fields::with_keywords(
                r,
                SchemaModel::any(),
            ).pattern == Some(x),
{
    assert forall|x: CheckModel| #[trigger] checks_of(r).contains(x) <==> enforced(r, x) by {
        lemma_enforced(r, x);
    }
}

/// An absent value breaks no rule.
pub proof fn an_absent_value_breaks_no_rule(f: FieldModel, g: GivenModel, pointer: Seq<char>)
    requires
        !g.present,
    ensures
        field_faults(f, g, pointer).len() == 0,
{
}

/// Every broken field is reported: the failures of a struct hold those of each
/// of its fields.
pub proof fn every_broken_field_is_reported(
    list: Seq<FieldModel>,
    given: Seq<GivenModel>,
    i: int,
    e: FieldFailure,
)
    requires
        given.len() == list.len(),
        0 <= i < list.len(),
        field_faults(list[i], given[i], pointer_of(list[i])).contains(e),
    ensures
        struct_faults(list, given).contains(e),
    decreases list.len(),
{
    let a = struct_faults(list.drop_last(), given.drop_last());
    let b = field_faults(list.last(), given.last(), pointer_of(list.last()));
    if i == list.len() - 1 {
        let k = choose|k: int| 0 <= k < b.len() && b[k] == e;
        assert((a + b)[a.len() + k] == e);
    } else {
        every_broken_field_is_reported(list.drop_last(), given.drop_last(), i, e);
        let k = choose|k: int| 0 <= k < a.len() && a[k] == e;
        assert((a + b)[k] == e);
    }
}

/// Whether rules ask for a check.
spec fn enforced(r: RulesModel, c: CheckModel) -> bool {
    match c {
        CheckModel::MinLength(x) => r.min_length == Some(x),
        CheckModel::MaxLength(x) => r.max_length == Some(x),
        CheckModel::MinItems(x) => r.min_items == Some(x),
        CheckModel::MaxItems(x) => r.max_items == Some(x),
        CheckModel::Minimum(x) => r.minimum == Some(x),
        CheckModel::Maximum(x) => r.maximum == Some(x),
        CheckModel::ExclusiveMinimum(x) => r.exclusive_minimum == Some(x),
        CheckModel::ExclusiveMaximum(x) => r.exclusive_maximum == Some(x),
        CheckModel::MultipleOf(x) => r.multiple_of == Some(x),
        CheckModel::Format(x) => r.format == Some(x),
        CheckModel::Pattern(x) => r.pattern == Some(x),
        CheckModel::NonBlank => r.non_blank,
        CheckModel::Nested => r.nested,
        CheckModel::Custom(p) => r.custom.contains(p),
    }
}

#[verifier::rlimit(60)]
proof fn lemma_enforced(r: RulesModel, x: CheckModel)
    ensures
        checks_of(r).contains(x) <==> enforced(r, x),
{
    let c0 = Seq::<CheckModel>::empty();
    let k1 = match r.min_length {
        Some(y) => Some(CheckModel::MinLength(y)),
        None => None,
    };
    lemma_plus(c0, k1, x);
    let c1 = plus(c0, k1);
    let k2 = match r.max_length {
        Some(y) => Some(CheckModel::MaxLength(y)),
        None => None,
    };
    lemma_plus(c1, k2, x);
    let c2 = plus(c1, k2);
    let k3 = match r.min_items {
        Some(y) => Some(CheckModel::MinItems(y)),
        None => None,
    };
    lemma_plus(c2, k3, x);
    let c3 = plus(c2, k3);
    let k4 = match r.max_items {
        Some(y) => Some(CheckModel::MaxItems(y)),
        None => None,
    };
    lemma_plus(c3, k4, x);
    let c4 = plus(c3, k4);
    let k5 = match r.minimum {
        Some(y) => Some(CheckModel::Minimum(y)),
        None => None,
    };
    lemma_plus(c4, k5, x);
    let c5 = plus(c4, k5);
    let k6 = match r.maximum {
        Some(y) => Some(CheckModel::Maximum(y)),
        None => None,
    };
    lemma_plus(c5, k6, x);
    let c6 = plus(c5, k6);
    let k7 = match r.exclusive_minimum {
        Some(y) => Some(CheckModel::ExclusiveMinimum(y)),
        None => None,
    };
    lemma_plus(c6, k7, x);
    let c7 = plus(c6, k7);
    let k8 = match r.exclusive_maximum {
        Some(y) => Some(CheckModel::ExclusiveMaximum(y)),
        None => None,
    };
    lemma_plus(c7, k8, x);
    let c8 = plus(c7, k8);
    let k9 = match r.multiple_of {
        Some(y) => Some(CheckModel::MultipleOf(y)),
        None => None,
    };
    lemma_plus(c8, k9, x);
    let c9 = plus(c8, k9);
    let k10 = if r.non_blank {
        Some(CheckModel::NonBlank)
    } else {
        None
    };
    lemma_plus(c9, k10, x);
    let c10 = plus(c9, k10);
    let k11 = match r.format {
        Some(y) => Some(CheckModel::Format(y)),
        None => None,
    };
    lemma_plus(c10, k11, x);
    let c11 = plus(c10, k11);
    let k12 = match r.pattern {
        Some(y) => Some(CheckModel::Pattern(y)),
        None => None,
    };
    lemma_plus(c11, k12, x);
    let c12 = plus(c11, k12);
    let k13 = if r.nested {
        Some(CheckModel::Nested)
    } else {
        None
    };
    lemma_plus(c12, k13, x);
    let c13 = plus(c12, k13);
    lemma_either(c13, custom_checks(r.custom), x);
    lemma_own(r.custom, x);
}

proof fn lemma_either(a: Seq<CheckModel>, b: Seq<CheckModel>, x: CheckModel)
    ensures
        (a + b).contains(x) <==> a.contains(x) || b.contains(x),
{
    if a.contains(x) {
        let i = choose|i: int| 0 <= i < a.len() && a[i] == x;
        assert((a + b)[i] == x);
    }
    if b.contains(x) {
        let i = choose|i: int| 0 <= i < b.len() && b[i] == x;
        assert((a + b)[a.len() + i] == x);
    }
    if (a + b).contains(x) {
        let i = choose|i: int| 0 <= i < (a + b).len() && (a + b)[i] == x;
        if i < a.len() {
            assert(a[i] == x);
        } else {
            assert(b[i - a.len()] == x);
        }
    }
}

proof fn lemma_own(paths: Seq<Seq<char>>, x: CheckModel)
    ensures
        custom_checks(paths).contains(x) <==> (x matches CheckModel::Custom(p) && paths.contains(
            p,
        )),
{
    let own = custom_checks(paths);
    if own.contains(x) {
        let i = choose|i: int| 0 <= i < own.len() && own[i] == x;
        assert(x == CheckModel::Custom(paths[i]));
    }
    if let CheckModel::Custom(p) = x {
        if paths.contains(p) {
            let i = choose|i: int| 0 <= i < paths.len() && paths[i] == p;
            assert(own[i] == x);
        }
    }
}

/// A check is among those of a list with one more exactly if it was there or is
/// the one added.
proof fn lemma_plus(list: Seq<CheckModel>, c: Option<CheckModel>, x: CheckModel)
    ensures
        plus(list, c).contains(x) <==> list.contains(x) || c == Some(x),
{
    reveal(plus);
    match c {
        Some(y) => {
            let more = list.push(y);
            if list.contains(x) {
                let i = choose|i: int| 0 <= i < list.len() && list[i] == x;
                assert(more[i] == x);
            }
            assert(more[list.len() as int] == y);
            if more.contains(x) {
                let i = choose|i: int| 0 <= i < more.len() && more[i] == x;
                if i < list.len() {
                    assert(list[i] == x);
                }
            }
        },
        None => {},
    }
}

} // verus!
