//! The schema an enum declaration stands for.

use crate::derive::attr;
use crate::derive::attr::{Attr, Meta, RenameRule, SyntaxError};
use crate::derive::decl;
use crate::derive::decl::{Container, ContainerModel, Field, FieldDecl, FieldModel};
use crate::derive::schema::{Inner, InnerModel, Shape};
use crate::derive::schema as fields;
use crate::json;
use crate::json::{Value, ValueModel};
use crate::openapi::gen;
use crate::openapi::impls;
use crate::openapi::ordered;
use crate::openapi::ordered::OrderedMap;
use crate::openapi::schema;
use crate::openapi::schema::{Discriminator, DiscriminatorModel, Schema, SchemaModel};
use crate::text;
use vstd::prelude::*;
use vstd::string::*;

verus! {

/// A variant as it was declared.
pub struct VariantDecl {
    pub ident: String,
    pub attrs: Vec<Attr>,
    pub shape: Shape,
    pub fields: Vec<FieldDecl>,
}

/// A variant, with what its attributes say of it.
pub struct Variant {
    pub name: String,
    pub summary: Option<String>,
    pub shape: Shape,
    /// How many fields were declared, skipped ones among them.
    pub declared: usize,
    pub fields: Vec<Field>,
}

/// A variant, as a value.
#[verifier::ext_equal]
pub struct VariantModel {
    pub name: Seq<char>,
    pub summary: Option<Seq<char>>,
    pub shape: Shape,
    pub declared: usize,
    pub fields: Seq<FieldModel>,
}

impl View for Variant {
    type V = VariantModel;

    open spec fn view(&self) -> VariantModel {
        VariantModel {
            name: self.name@,
            summary: text::opt(self.summary),
            shape: self.shape,
            declared: self.declared,
            fields: decl::field_models(self.fields@),
        }
    }
}

/// The variants of a list.
pub open spec fn variant_models(list: Seq<Variant>) -> Seq<VariantModel> {
    list.map_values(|v: Variant| v@)
}

/// How an enum is represented on the wire.
pub enum Tagging {
    External,
    Internal(String),
    Adjacent(String, String),
    Untagged,
}

/// How an enum is represented on the wire, as a value.
pub enum TaggingModel {
    External,
    Internal(Seq<char>),
    Adjacent(Seq<char>, Seq<char>),
    Untagged,
}

impl View for Tagging {
    type V = TaggingModel;

    open spec fn view(&self) -> TaggingModel {
        match self {
            Tagging::External => TaggingModel::External,
            Tagging::Internal(tag) => TaggingModel::Internal(tag@),
            Tagging::Adjacent(tag, content) => TaggingModel::Adjacent(tag@, content@),
            Tagging::Untagged => TaggingModel::Untagged,
        }
    }
}

pub open spec fn tagging_of(c: ContainerModel) -> TaggingModel {
    if c.untagged {
        TaggingModel::Untagged
    } else {
        match (c.tag, c.content) {
            (Some(tag), Some(content)) => TaggingModel::Adjacent(tag, content),
            (Some(tag), None) => TaggingModel::Internal(tag),
            _ => TaggingModel::External,
        }
    }
}

// ---------------------------------------------------------------------------
// names
// ---------------------------------------------------------------------------

/// The last `rename = ".."` of one `serde(..)`.
pub open spec fn renamed_in(metas: Seq<Meta>) -> Result<Option<Seq<char>>, Seq<char>>
    decreases metas.len(),
{
    if metas.len() == 0 {
        Ok(None)
    } else {
        match renamed_in(metas.drop_last()) {
            Err(e) => Err(e),
            Ok(before) => if metas.last().path@ == "rename"@ {
                match decl::str_value(metas.last()) {
                    Ok(s) => Ok(Some(s)),
                    Err(e) => Err(e),
                }
            } else {
                Ok(before)
            },
        }
    }
}

proof fn lemma_renamed_stops(metas: Seq<Meta>, i: int)
    requires
        0 <= i <= metas.len(),
        renamed_in(metas.take(i)) is Err,
    ensures
        renamed_in(metas) == renamed_in(metas.take(i)),
    decreases metas.len() - i,
{
    if i == metas.len() {
        assert(metas.take(i) =~= metas);
    } else {
        assert(metas.take(i + 1).drop_last() =~= metas.take(i));
        lemma_renamed_stops(metas, i + 1);
    }
}

/// The name of a variant on the wire, from attribute `i` on: what the first
/// `serde(..)` that renames it says, or else what the container's rule makes of
/// its identifier.
pub open spec fn name_from(
    c: ContainerModel,
    ident: Seq<char>,
    attrs: Seq<Attr>,
    i: int,
) -> Result<Seq<char>, Seq<char>>
    decreases attrs.len() - i,
{
    if i < 0 || i >= attrs.len() {
        Ok(c.rename_all.variant(ident))
    } else if attrs[i].path@ == "serde"@ {
        match renamed_in(attrs[i].metas@) {
            Err(e) => Err(e),
            Ok(Some(name)) => Ok(name),
            Ok(None) => name_from(c, ident, attrs, i + 1),
        }
    } else {
        name_from(c, ident, attrs, i + 1)
    }
}

fn find_rename(metas: &Vec<Meta>) -> (r: Result<Option<String>, SyntaxError>)
    ensures
        match r {
            Ok(name) => renamed_in(metas@) == Ok::<Option<Seq<char>>, Seq<char>>(text::opt(name)),
            Err(e) => renamed_in(metas@) == Err::<Option<Seq<char>>, Seq<char>>(e.message@),
        },
{
    let mut out: Option<String> = None;
    assert(metas@.take(0) =~= Seq::<Meta>::empty());
    for i in 0..metas.len()
        invariant
            renamed_in(metas@.take(i as int)) == Ok::<Option<Seq<char>>, Seq<char>>(
                text::opt(out),
            ),
    {
        assert(metas@.take(i + 1).drop_last() =~= metas@.take(i as int));
        if text::same(metas[i].path.as_str(), "rename") {
            match decl::get_str(&metas[i]) {
                Ok(s) => {
                    out = Some(s);
                },
                Err(e) => {
                    proof {
                        lemma_renamed_stops(metas@, i + 1);
                    }
                    return Err(e);
                },
            }
        }
    }
    assert(metas@.take(metas@.len() as int) =~= metas@);
    Ok(out)
}

impl Container {
    /// How serde will represent this enum on the wire.
    pub fn tagging(&self) -> (t: Tagging)
        ensures
            t@ == tagging_of(self@),
    {
        if self.untagged {
            return Tagging::Untagged;
        }
        match &self.tag {
            Some(tag) => match &self.content {
                Some(content) => Tagging::Adjacent(tag.clone(), content.clone()),
                None => Tagging::Internal(tag.clone()),
            },
            None => Tagging::External,
        }
    }

    /// The name of a variant on the wire.
    pub fn variant_name(&self, ident: &str, attrs: &Vec<Attr>) -> (r: Result<
        String,
        SyntaxError,
    >)
        ensures
            match r {
                Ok(s) => name_from(self@, ident@, attrs@, 0) == Ok::<Seq<char>, Seq<char>>(s@),
                Err(e) => name_from(self@, ident@, attrs@, 0) == Err::<Seq<char>, Seq<char>>(
                    e.message@,
                ),
            },
    {
        for i in 0..attrs.len()
            invariant
                name_from(self@, ident@, attrs@, 0) == name_from(
                    self@,
                    ident@,
                    attrs@,
                    i as int,
                ),
        {
            if text::same(attrs[i].path.as_str(), "serde") {
                match find_rename(&attrs[i].metas) {
                    Err(e) => {
                        return Err(e);
                    },
                    Ok(Some(name)) => {
                        return Ok(name);
                    },
                    Ok(None) => {},
                }
            }
        }
        Ok(self.rename_all.apply_to_variant(ident))
    }

    /// The component name, or `None` when the schema should be inlined. The
    /// names of the type arguments are appended, so `Page<User>` registers as
    /// `Page_User` and two instantiations do not collide under one name.
    pub fn component_name(&self, ident: &str, arguments: &Vec<String>) -> (out: Option<String>)
        ensures
            text::opt(out) == component_of(self@, ident@, text::views(arguments@)),
    {
        if self.inlined {
            return None;
        }
        let mut name = match &self.rename {
            Some(n) => n.clone(),
            None => ident.to_owned(),
        };
        let ghost base = name@;
        let ghost all = text::views(arguments@);
        if arguments.len() == 1 {
            name.push('_');
            name.append(arguments[0].as_str());
            assert(all[0] == arguments@[0]@);
            assert(name@ =~= with_arguments(base, all));
            return Some(name);
        }
        assert(all.take(0) =~= Seq::<Seq<char>>::empty());
        for i in 0..arguments.len()
            invariant
                all == text::views(arguments@),
                name@ == joined(base, all.take(i as int)),
        {
            assert(all.take(i + 1).drop_last() =~= all.take(i as int));
            assert(all[i as int] == arguments@[i as int]@);
            name.push('_');
            name.append(argument_text(arguments[i].as_str()).as_str());
        }
        assert(all.take(all.len() as int) =~= all);
        Some(name)
    }
}

/// A character of an argument's name where several names are joined: the
/// underscore is left to stand between them.
pub open spec fn argument_code(c: char) -> Seq<char> {
    if c == '_' {
        seq!['-', '.']
    } else if c == '.' {
        seq!['.', '.']
    } else {
        seq![c]
    }
}

/// The name of an argument where several names are joined.
pub open spec fn argument_spelled(s: Seq<char>) -> Seq<char> {
    text::coded(s, |c: char| argument_code(c))
}

fn argument_text(s: &str) -> (out: String)
    ensures
        out@ == argument_spelled(s@),
{
    let v = text::chars(s);
    let ghost code = |c: char| argument_code(c);
    let mut out = String::new();
    assert(v@.take(0) =~= Seq::<char>::empty());
    for i in 0..v.len()
        invariant
            v@ == s@,
            code == (|c: char| argument_code(c)),
            out@ == text::coded(v@.take(i as int), code),
    {
        assert(v@.take(i + 1).drop_last() =~= v@.take(i as int));
        let ghost before = out@;
        if v[i] == '_' {
            out.push('-');
            out.push('.');
        } else if v[i] == '.' {
            out.push('.');
            out.push('.');
        } else {
            out.push(v[i]);
        }
        assert(out@ =~= before + argument_code(v@[i as int]));
    }
    assert(v@.take(v@.len() as int) =~= v@);
    out
}

/// A name with the names of type arguments joined to it by underscores.
pub open spec fn joined(base: Seq<char>, arguments: Seq<Seq<char>>) -> Seq<char>
    decreases arguments.len(),
{
    if arguments.len() == 0 {
        base
    } else {
        joined(base, arguments.drop_last()).push('_') + argument_spelled(arguments.last())
    }
}

/// A name with the names of type arguments appended: a single one as it is,
/// several so that each can be told from the next.
pub open spec fn with_arguments(base: Seq<char>, arguments: Seq<Seq<char>>) -> Seq<char> {
    if arguments.len() == 1 {
        base.push('_') + arguments[0]
    } else {
        joined(base, arguments)
    }
}

proof fn lemma_no_underscore(s: Seq<char>)
    ensures
        forall|i: int| 0 <= i < argument_spelled(s).len() ==> #[trigger] argument_spelled(s)[i]
            != '_',
    decreases s.len(),
{
    let out = argument_spelled(s);
    if s.len() > 0 {
        let before = argument_spelled(s.drop_last());
        lemma_no_underscore(s.drop_last());
        assert(out == before + argument_code(s.last()));
        assert forall|i: int| 0 <= i < out.len() implies #[trigger] out[i] != '_' by {
            if i < before.len() {
                assert(out[i] == before[i]);
            } else {
                assert(out[i] == argument_code(s.last())[i - before.len()]);
            }
        }
    }
}

proof fn lemma_argument_injective(a: Seq<char>, b: Seq<char>)
    requires
        argument_spelled(a) == argument_spelled(b),
    ensures
        a == b,
{
    let code = |c: char| argument_code(c);
    assert forall|x: Seq<char>, y: Seq<char>, c: char, d: char|
        #![trigger x + code(c), y + code(d)]
        x + code(c) == y + code(d) implies c == d by {
        let z = x + code(c);
        assert(z.last() == code(c).last());
        assert(z.last() == code(d).last());
        if z.last() == '.' {
            assert(z[z.len() - 2] == code(c)[0]);
            assert(z == y + code(d));
            assert(z[z.len() - 2] == code(d)[0]);
        }
    }
    text::lemma_coded_injective(a, b, code);
}

proof fn lemma_joined_injective(base: Seq<char>, a: Seq<Seq<char>>, b: Seq<Seq<char>>)
    requires
        a.len() == b.len(),
        joined(base, a) == joined(base, b),
    ensures
        a == b,
    decreases a.len(),
{
    if a.len() == 0 {
        assert(a =~= b);
    } else {
        let z = joined(base, a);
        let n = z.len();
        let p = joined(base, a.drop_last());
        let q = joined(base, b.drop_last());
        let t = argument_spelled(a.last());
        let u = argument_spelled(b.last());
        lemma_no_underscore(a.last());
        lemma_no_underscore(b.last());
        assert(z == p.push('_') + t);
        assert(z == q.push('_') + u);
        assert(z[p.len() as int] == '_');
        assert(z[q.len() as int] == '_');
        if p.len() < q.len() {
            assert(z[q.len() as int] == t[q.len() - p.len() - 1]);
        } else if q.len() < p.len() {
            assert(z[p.len() as int] == u[p.len() - q.len() - 1]);
        }
        assert(p =~= z.take(p.len() as int));
        assert(q =~= z.take(q.len() as int));
        assert(t =~= z.skip(p.len() as int + 1));
        assert(u =~= z.skip(q.len() as int + 1));
        lemma_argument_injective(a.last(), b.last());
        lemma_joined_injective(base, a.drop_last(), b.drop_last());
        assert(a =~= a.drop_last().push(a.last()));
        assert(b =~= b.drop_last().push(b.last()));
    }
}

/// Two instantiations of a declared type register under one name only where
/// the names of their type arguments are the same.
pub proof fn instantiations_never_share_a_name(
    c: ContainerModel,
    ident: Seq<char>,
    a: Seq<Seq<char>>,
    b: Seq<Seq<char>>,
)
    requires
        !c.inlined,
        a.len() == b.len(),
        component_of(c, ident, a) == component_of(c, ident, b),
    ensures
        a == b,
{
    let base = match c.rename {
        Some(n) => n,
        None => ident,
    };
    if a.len() == 1 {
        let z = with_arguments(base, a);
        assert(a[0] =~= z.skip(base.len() as int + 1));
        assert(b[0] =~= with_arguments(base, b).skip(base.len() as int + 1));
        assert(a =~= b);
    } else {
        lemma_joined_injective(base, a, b);
    }
}

/// Two instantiations of a declared type whose arguments are not registered
/// types share a name only where those arguments are the same types, module
/// paths aside.
pub proof fn instantiations_are_told_apart_by_their_arguments(
    c: ContainerModel,
    ident: Seq<char>,
    a: Seq<Seq<char>>,
    b: Seq<Seq<char>>,
)
    requires
        !c.inlined,
        a.len() == b.len(),
        forall|i: int| 0 <= i < a.len() ==> gen::unqualified(#[trigger] a[i]).len() > 0,
        forall|i: int| 0 <= i < b.len() ==> gen::unqualified(#[trigger] b[i]).len() > 0,
        component_of(c, ident, a.map_values(|full: Seq<char>| gen::identifier(full)))
            == component_of(c, ident, b.map_values(|full: Seq<char>| gen::identifier(full))),
    ensures
        forall|i: int|
            0 <= i < a.len() ==> gen::unqualified(#[trigger] a[i]) == gen::unqualified(b[i]),
{
    let x = a.map_values(|full: Seq<char>| gen::identifier(full));
    let y = b.map_values(|full: Seq<char>| gen::identifier(full));
    instantiations_never_share_a_name(c, ident, x, y);
    assert forall|i: int| 0 <= i < a.len() implies gen::unqualified(#[trigger] a[i])
        == gen::unqualified(b[i]) by {
        assert(x[i] == y[i]);
        gen::distinct_names_have_distinct_identifiers(a[i], b[i]);
    }
}

/// The name a type is registered under.
pub open spec fn component_of(
    c: ContainerModel,
    ident: Seq<char>,
    arguments: Seq<Seq<char>>,
) -> Option<Seq<char>> {
    if c.inlined {
        None
    } else {
        Some(
            with_arguments(
                match c.rename {
                    Some(n) => n,
                    None => ident,
                },
                arguments,
            ),
        )
    }
}

// ---------------------------------------------------------------------------
// variants
// ---------------------------------------------------------------------------

/// The rule for the fields of variants.
pub open spec fn fields_rule(c: ContainerModel) -> RenameRule {
    match c.rename_all_variants {
        Some(rule) => rule,
        None => RenameRule::AsIs,
    }
}

/// What a variant's declaration says.
pub open spec fn variant_of(c: ContainerModel, d: VariantDecl) -> Result<VariantModel, Seq<char>> {
    match name_from(c, d.ident@, d.attrs@, 0) {
        Err(e) => Err(e),
        Ok(name) => match decl::fields_of(d.fields@, fields_rule(c)) {
            Err(e) => Err(e),
            Ok(list) => Ok(
                VariantModel {
                    name,
                    summary: attr::docs_of(attr::doc_lines(d.attrs@)).summary,
                    shape: d.shape,
                    declared: d.fields@.len() as usize,
                    fields: list,
                },
            ),
        },
    }
}

impl Variant {
    /// Reads a variant's declaration.
    pub fn parse(container: &Container, d: &VariantDecl) -> (r: Result<Self, SyntaxError>)
        ensures
            match r {
                Ok(v) => variant_of(container@, *d) == Ok::<VariantModel, Seq<char>>(v@),
                Err(e) => variant_of(container@, *d) == Err::<VariantModel, Seq<char>>(e.message@),
            },
    {
        match container.variant_name(d.ident.as_str(), &d.attrs) {
            Err(e) => Err(e),
            Ok(name) => {
                let rule = match container.rename_all_variants {
                    Some(rule) => rule,
                    None => RenameRule::AsIs,
                };
                match decl::collect_fields(&d.fields, rule) {
                    Err(e) => Err(e),
                    Ok(list) => {
                        let docs = attr::doc_comment(&d.attrs);
                        Ok(
                            Variant {
                                name,
                                summary: docs.summary,
                                shape: d.shape,
                                declared: d.fields.len(),
                                fields: list,
                            },
                        )
                    },
                }
            },
        }
    }
}

/// The object schema of a variant's named fields.
pub open spec fn record_model(list: Seq<FieldModel>, inner: Seq<InnerModel>) -> SchemaModel
    decreases list.len(),
{
    if list.len() == 0 {
        SchemaModel::of_type("object"@)
    } else {
        let before = record_model(list.drop_last(), inner.drop_last());
        let f = list.last();
        let x = inner.last();
        SchemaModel {
            properties: ordered::inserted(
                before.properties,
                f.name,
                fields::field_model(f, x.schema),
            ),
            required: if x.optional {
                before.required
            } else {
                before.required.push(f.name)
            },
            ..before
        }
    }
}

/// The schema of a variant's payload, ignoring how it is tagged.
pub open spec fn payload_model(v: VariantModel, inner: Seq<InnerModel>) -> SchemaModel {
    match v.shape {
        Shape::Unit => SchemaModel::of_type("null"@),
        Shape::Unnamed => if v.declared == 1 {
            fields::field_model(v.fields[0], inner[0].schema)
        } else {
            impls::tuple_model(fields::items_model(v.fields, inner))
        },
        Shape::Named => record_model(v.fields, inner),
    }
}

/// A schema matching exactly one string.
pub open spec fn const_model(value: Seq<char>) -> SchemaModel {
    SchemaModel {
        const_value: Some(ValueModel::String(value)),
        ..SchemaModel::of_type("string"@)
    }
}

/// An object that names its variant under `tag`.
pub open spec fn tagged_model(tag: Seq<char>, name: Seq<char>) -> SchemaModel {
    SchemaModel {
        properties: seq![(tag, const_model(name))],
        required: seq![tag],
        ..SchemaModel::of_type("object"@)
    }
}

/// The schema of one variant, tagged.
pub open spec fn arm_model(
    t: TaggingModel,
    v: VariantModel,
    inner: Seq<InnerModel>,
) -> SchemaModel {
    let payload = payload_model(v, inner);
    match t {
        TaggingModel::Untagged => payload,
        TaggingModel::External => if v.shape == Shape::Unit {
            const_model(v.name)
        } else {
            SchemaModel {
                properties: seq![(v.name, payload)],
                required: seq![v.name],
                ..SchemaModel::of_type("object"@)
            }
        },
        TaggingModel::Internal(tag) => if v.shape == Shape::Unit {
            tagged_model(tag, v.name)
        } else {
            SchemaModel {
                all_of: seq![tagged_model(tag, v.name), payload],
                ..SchemaModel::any()
            }
        },
        TaggingModel::Adjacent(tag, content) => if v.shape == Shape::Unit {
            tagged_model(tag, v.name)
        } else {
            SchemaModel {
                properties: ordered::inserted(
                    seq![(tag, const_model(v.name))],
                    content,
                    payload,
                ),
                required: seq![tag, content],
                ..SchemaModel::of_type("object"@)
            }
        },
    }
}

/// Whether every variant is a unit.
pub open spec fn all_unit(list: Seq<VariantModel>) -> bool {
    forall|i: int| 0 <= i < list.len() ==> (#[trigger] list[i]).shape == Shape::Unit
}

/// Whether some variant has prose of its own.
pub open spec fn any_summary(list: Seq<VariantModel>) -> bool {
    exists|i: int| 0 <= i < list.len() && (#[trigger] list[i]).summary is Some
}

/// A summary as JSON.
pub open spec fn summary_json(v: VariantModel) -> ValueModel {
    match v.summary {
        Some(t) => ValueModel::String(t),
        None => ValueModel::Null,
    }
}

/// A closed set of string values. Per-variant prose has nowhere to live in a
/// plain string enum, so it is emitted as an extension.
pub open spec fn closed_set(list: Seq<VariantModel>) -> SchemaModel {
    SchemaModel {
        enum_values: list.map_values(|v: VariantModel| ValueModel::String(v.name)),
        extensions: if any_summary(list) {
            seq![
                (
                    "x-enum-descriptions"@,
                    ValueModel::Array(list.map_values(|v: VariantModel| summary_json(v))),
                ),
            ]
        } else {
            Seq::empty()
        },
        ..SchemaModel::of_type("string"@)
    }
}

/// The schemas of all variants.
pub open spec fn arms_model(
    t: TaggingModel,
    list: Seq<VariantModel>,
    inner: Seq<Seq<InnerModel>>,
) -> Seq<SchemaModel> {
    Seq::new(list.len(), |i: int| arm_model(t, list[i], inner[i]))
}

/// The property that tells variants apart, if there is one.
pub open spec fn discriminator_of(t: TaggingModel) -> Option<DiscriminatorModel> {
    match t {
        TaggingModel::Internal(tag) => Some(
            DiscriminatorModel { property_name: tag, mapping: Seq::empty() },
        ),
        TaggingModel::Adjacent(tag, _) => Some(
            DiscriminatorModel { property_name: tag, mapping: Seq::empty() },
        ),
        _ => None,
    }
}

/// The schema of an enum, given the schemas of its field types. Units without
/// a tag are written as bare strings; a tag makes an object even of a unit.
/// Untagged variants are genuinely ambiguous, so `anyOf` is honest where `oneOf` would
/// claim exactly one matches.
pub open spec fn enum_model(
    c: ContainerModel,
    list: Seq<VariantModel>,
    inner: Seq<Seq<InnerModel>>,
) -> SchemaModel {
    let t = tagging_of(c);
    let body = if all_unit(list) && t is External {
        closed_set(list)
    } else if t is Untagged {
        SchemaModel { any_of: arms_model(t, list, inner), ..SchemaModel::any() }
    } else {
        SchemaModel {
            one_of: arms_model(t, list, inner),
            discriminator: discriminator_of(t),
            ..SchemaModel::any()
        }
    };
    fields::with_annotations(c, body)
}

/// The schemas for a variant's fields fit it: one for each field, and a single
/// unnamed field is not skipped.
pub open spec fn fits(v: VariantModel, n: nat) -> bool {
    &&& n == v.fields.len()
    &&& v.shape == Shape::Unnamed && v.declared == 1 ==> v.fields.len() >= 1
}

/// A schema matching exactly one string, used for enum discriminants.
pub fn const_string(value: &str) -> (out: Schema)
    ensures
        out@ == const_model(value@),
{
    Schema {
        const_value: Some(Value::String(value.to_owned())),
        ..Schema::of_type("string")
    }
}

/// An object schema with a single required property.
fn single(name: &str, property: Schema) -> (out: Schema)
    ensures
        out@ == (SchemaModel {
            properties: seq![(name@, property@)],
            required: seq![name@],
            ..SchemaModel::of_type("object"@)
        }),
{
    let mut out = Schema::of_type("object");
    fields::put_property(&mut out, name, property);
    fields::put_required(&mut out, name);
    proof {
        let none = Seq::<(Seq<char>, SchemaModel)>::empty();
        assert(ordered::position(none, name@) is None);
        assert(none.push((name@, property@)) =~= seq![(name@, property@)]);
        assert(Seq::<Seq<char>>::empty().push(name@) =~= seq![name@]);
    }
    out
}

fn record_schema(list: &Vec<Field>, inner: Vec<Inner>) -> (out: Schema)
    requires
        inner@.len() == list@.len(),
    ensures
        out@ == record_model(decl::field_models(list@), fields::inner_models(inner@)),
{
    let ghost given = inner@;
    let ghost fs = decl::field_models(list@);
    let ghost xs = fields::inner_models(given);
    let mut out = Schema::of_type("object");
    let mut i: usize = 0;
    let n: usize = list.len();
    assert(fs.take(0) =~= Seq::<FieldModel>::empty());
    for x in it: inner
        invariant
            it.seq() == given,
            i == it.index(),
            n == list@.len() == given.len(),
            fs == decl::field_models(list@),
            xs == fields::inner_models(given),
            out@ == record_model(fs.take(i as int), xs.take(i as int)),
    {
        assert(x == given[i as int]);
        assert(fs.take(i + 1).drop_last() =~= fs.take(i as int));
        assert(xs.take(i + 1).drop_last() =~= xs.take(i as int));
        let field = &list[i];
        let optional = x.optional;
        fields::put_property(&mut out, field.name.as_str(), field.schema(x.schema));
        if !optional {
            fields::put_required(&mut out, field.name.as_str());
        }
        i = if i < n {
            i + 1
        } else {
            i
        };
    }
    assert(fs.take(n as int) =~= fs);
    assert(xs.take(n as int) =~= xs);
    out
}

/// The schema for a variant's payload, ignoring how it is tagged.
pub fn variant_payload_schema(variant: &Variant, inner: Vec<Inner>) -> (out: Schema)
    requires
        fits(variant@, inner@.len()),
    ensures
        out@ == payload_model(variant@, fields::inner_models(inner@)),
{
    match variant.shape {
        Shape::Unit => Schema::of_type("null"),
        Shape::Unnamed => {
            if variant.declared == 1 {
                let mut inner = inner;
                assert(variant@.fields[0] == variant.fields@[0]@);
                let first = inner.remove(0);
                variant.fields[0].schema(first.schema)
            } else {
                impls::tuple(fields::field_schemas(&variant.fields, inner))
            }
        },
        Shape::Named => record_schema(&variant.fields, inner),
    }
}

/// The schema of one variant, tagged.
pub fn variant_arm(tagging: &Tagging, variant: &Variant, inner: Vec<Inner>) -> (out: Schema)
    requires
        fits(variant@, inner@.len()),
    ensures
        out@ == arm_model(tagging@, variant@, fields::inner_models(inner@)),
{
    let unit = variant.shape == Shape::Unit;
    let ghost models = fields::inner_models(inner@);
    let payload = variant_payload_schema(variant, inner);
    let ghost p = payload@;
    let name = variant.name.as_str();
    match tagging {
        Tagging::Untagged => payload,
        Tagging::External => {
            if unit {
                const_string(name)
            } else {
                single(name, payload)
            }
        },
        Tagging::Internal(tag) => {
            let discriminant = single(tag.as_str(), const_string(name));
            if unit {
                discriminant
            } else {
                let ghost d = discriminant@;
                let mut list: Vec<Schema> = Vec::new();
                list.push(discriminant);
                list.push(payload);
                proof {
                    schema::lemma_list_model(list@);
                    assert(schema::list_model(list@) =~= seq![d, p]);
                }
                Schema { all_of: list, ..Schema::any() }
            }
        },
        Tagging::Adjacent(tag, content) => {
            let mut out = single(tag.as_str(), const_string(name));
            if !unit {
                fields::put_property(&mut out, content.as_str(), payload);
                fields::put_required(&mut out, content.as_str());
                assert(seq![tag@].push(content@) =~= seq![tag@, content@]);
            }
            out
        },
    }
}

fn closed_set_schema(variants: &Vec<Variant>) -> (out: Schema)
    ensures
        out@ == closed_set(variant_models(variants@)),
{
    let ghost list = variant_models(variants@);
    let mut values: Vec<Value> = Vec::new();
    let mut docs: Vec<Value> = Vec::new();
    let mut any = false;
    for i in 0..variants.len()
        invariant
            list == variant_models(variants@),
            values@.len() == i,
            docs@.len() == i,
            any == (exists|j: int| 0 <= j < i && (#[trigger] list[j]).summary is Some),
            forall|j: int|
                0 <= j < i ==> (#[trigger] values@[j])@ == ValueModel::String(list[j].name),
            forall|j: int| 0 <= j < i ==> (#[trigger] docs@[j])@ == summary_json(list[j]),
    {
        assert(list[i as int] == variants@[i as int]@);
        values.push(Value::String(variants[i].name.clone()));
        match &variants[i].summary {
            Some(t) => {
                docs.push(Value::String(t.clone()));
                any = true;
            },
            None => {
                docs.push(Value::Null);
            },
        }
    }
    proof {
        json::lemma_list_model(values@);
        json::lemma_list_model(docs@);
        assert(json::list_model(values@) =~= list.map_values(
            |v: VariantModel| ValueModel::String(v.name),
        ));
        assert(json::list_model(docs@) =~= list.map_values(|v: VariantModel| summary_json(v)));
    }
    let mut out = Schema::of_type("string");
    out.enum_values = values;
    if any {
        let ghost before = out.extensions;
        let prose = Value::Array(docs);
        let ghost entry = ("x-enum-descriptions"@, prose@);
        out.extensions.insert("x-enum-descriptions".to_owned(), prose);
        proof {
            schema::lemma_values_inserted(
                before,
                out.extensions,
                "x-enum-descriptions"@,
                prose,
            );
            let none = Seq::<(Seq<char>, ValueModel)>::empty();
            assert(schema::values_model(before) =~= none);
            assert(none.push(entry) =~= seq![entry]);
        }
    }
    out
}

/// The types of each variant's fields, as values.
pub open spec fn inner_lists(list: Seq<Vec<Inner>>) -> Seq<Seq<InnerModel>> {
    list.map_values(|x: Vec<Inner>| fields::inner_models(x@))
}

/// Builds the schema of an enum from those of its field types.
pub fn enum_schema(
    container: &Container,
    variants: &Vec<Variant>,
    inner: Vec<Vec<Inner>>,
) -> (out: Schema)
    requires
        inner@.len() == variants@.len(),
        forall|i: int|
            0 <= i < variants@.len() ==> fits((#[trigger] variants@[i])@, inner@[i]@.len()),
    ensures
        out@ == enum_model(container@, variant_models(variants@), inner_lists(inner@)),
{
    let tagging = container.tagging();
    let ghost list = variant_models(variants@);
    let ghost given = inner@;
    let mut units = true;
    for i in 0..variants.len()
        invariant
            list == variant_models(variants@),
            units == (forall|j: int| 0 <= j < i ==> (#[trigger] list[j]).shape == Shape::Unit),
    {
        assert(list[i as int] == variants@[i as int]@);
        if variants[i].shape != Shape::Unit {
            units = false;
        }
    }
    let external = match &tagging {
        Tagging::External => true,
        _ => false,
    };
    // The common case by far: a closed set of string values.
    if units && external {
        return container.annotations(closed_set_schema(variants));
    }
    let ghost arms_spec = arms_model(tagging@, list, inner_lists(given));
    let mut arms: Vec<Schema> = Vec::new();
    for x in it: inner
        invariant
            it.seq() == given,
            list == variant_models(variants@),
            given.len() == variants@.len(),
            arms_spec == arms_model(tagging@, list, inner_lists(given)),
            forall|i: int|
                0 <= i < variants@.len() ==> fits((#[trigger] variants@[i])@, given[i]@.len()),
            arms@.len() == it.index(),
            forall|j: int| 0 <= j < it.index() ==> (#[trigger] arms@[j])@ == arms_spec[j],
    {
        let i: usize = arms.len();
        assert(x == given[i as int]);
        assert(list[i as int] == variants@[i as int]@);
        arms.push(variant_arm(&tagging, &variants[i], x));
    }
    proof {
        schema::lemma_list_model(arms@);
        assert(schema::list_model(arms@) =~= arms_spec);
    }
    let mut out = Schema::any();
    match &tagging {
        Tagging::Untagged => {
            out.any_of = arms;
        },
        _ => {
            out.one_of = arms;
        },
    }
    let tag = match &tagging {
        Tagging::Internal(tag) => Some(tag),
        Tagging::Adjacent(tag, _) => Some(tag),
        _ => None,
    };
    if let Some(tag) = tag {
        let d = Discriminator { property_name: tag.clone(), mapping: OrderedMap::new() };
        assert(d@.mapping =~= Seq::empty());
        out.discriminator = Some(d);
    }
    container.annotations(out)
}

} // verus!
