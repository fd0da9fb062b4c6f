//! The schema a declaration stands for.

use crate::derive::decl;
use crate::derive::decl::{Container, ContainerModel, Field, FieldModel, Rules, RulesModel};
use crate::json;
use crate::json::{Number, Value};
use crate::openapi::gen;
use crate::openapi::impls;
use crate::openapi::ordered;
use crate::openapi::schema;
use crate::openapi::schema::{AdditionalModel, AdditionalProperties, Schema, SchemaModel};
use crate::text;
use vstd::prelude::*;
use vstd::string::*;

verus! {

/// What kind of fields a struct or variant has.
#[derive(Clone, Copy, Debug, PartialEq, Eq, Structural)]
pub enum Shape {
    /// None.
    Unit,
    /// Fields with names.
    Named,
    /// Fields by position.
    Unnamed,
}

/// The type of a field: its schema, and whether it is an `Option`.
pub struct Inner {
    pub schema: Schema,
    pub optional: bool,
}

/// The type of a field, as a value.
pub struct InnerModel {
    pub schema: SchemaModel,
    pub optional: bool,
}

impl View for Inner {
    type V = InnerModel;

    open spec fn view(&self) -> InnerModel {
        InnerModel { schema: self.schema@, optional: self.optional }
    }
}

/// The types of a list of fields.
pub open spec fn inner_models(list: Seq<Inner>) -> Seq<InnerModel> {
    list.map_values(|x: Inner| x@)
}

// ---------------------------------------------------------------------------
// one field
// ---------------------------------------------------------------------------

/// `a` if there is one, otherwise `b`.
pub open spec fn or<T>(a: Option<T>, b: Option<T>) -> Option<T> {
    if a is Some {
        a
    } else {
        b
    }
}

/// Whether rules imply any JSON Schema keyword.
pub open spec fn has_keywords(r: RulesModel) -> bool {
    ||| r.min_length is Some
    ||| r.max_length is Some
    ||| r.min_items is Some
    ||| r.max_items is Some
    ||| r.minimum is Some
    ||| r.maximum is Some
    ||| r.exclusive_minimum is Some
    ||| r.exclusive_maximum is Some
    ||| r.multiple_of is Some
    ||| r.pattern is Some
    ||| r.format is Some
    ||| r.non_blank
}

/// A schema with the keywords that rules imply.
pub open spec fn with_keywords(r: RulesModel, s: SchemaModel) -> SchemaModel {
    SchemaModel {
        min_length: if r.min_length is Some {
            r.min_length
        } else if r.non_blank {
            Some(1)
        } else {
            s.min_length
        },
        max_length: or(r.max_length, s.max_length),
        min_items: or(r.min_items, s.min_items),
        max_items: or(r.max_items, s.max_items),
        minimum: or(r.minimum, s.minimum),
        maximum: or(r.maximum, s.maximum),
        exclusive_minimum: or(r.exclusive_minimum, s.exclusive_minimum),
        exclusive_maximum: or(r.exclusive_maximum, s.exclusive_maximum),
        multiple_of: or(r.multiple_of, s.multiple_of),
        pattern: or(r.pattern, s.pattern),
        format: or(r.format, s.format),
        ..s
    }
}

/// Whether a field carries anything beside its type.
pub open spec fn annotated(f: FieldModel) -> bool {
    ||| has_keywords(f.rules)
    ||| f.description is Some
    ||| f.example is Some
    ||| f.default_value is Some
    ||| f.read_only
    ||| f.write_only
    ||| f.deprecated
}

/// The schema of a field whose type has the schema `inner`. Keywords cannot sit
/// beside a `$ref`, so a referenced type is wrapped in `allOf` and the
/// annotations go on the wrapper; a plain reference stays a plain `$ref`.
pub open spec fn field_model(f: FieldModel, inner: SchemaModel) -> SchemaModel {
    let base = if annotated(f) && inner.reference is Some {
        SchemaModel { all_of: seq![inner], ..SchemaModel::any() }
    } else {
        inner
    };
    let s = with_keywords(f.rules, base);
    SchemaModel {
        description: or(f.description, s.description),
        default: or(f.default_value, s.default),
        examples: match f.example {
            Some(v) => s.examples.push(v),
            None => s.examples,
        },
        read_only: f.read_only || s.read_only,
        write_only: f.write_only || s.write_only,
        deprecated: f.deprecated || s.deprecated,
        ..s
    }
}

fn put_number(slot: Option<Number>, rule: &Option<String>) -> (out: Option<Number>)
    ensures
        schema::number(out) == or(text::opt(*rule), schema::number(slot)),
{
    match rule {
        Some(t) => Some(Number { text: t.clone() }),
        None => slot,
    }
}

fn put_count(slot: Option<u64>, rule: Option<u64>) -> (out: Option<u64>)
    ensures
        out == or(rule, slot),
{
    match rule {
        Some(n) => Some(n),
        None => slot,
    }
}

fn put_text(slot: Option<String>, rule: &Option<String>) -> (out: Option<String>)
    ensures
        text::opt(out) == or(text::opt(*rule), text::opt(slot)),
{
    match rule {
        Some(t) => Some(t.clone()),
        None => slot,
    }
}

impl Rules {
    /// Whether the rules imply any JSON Schema keyword.
    pub fn has_keywords(&self) -> (r: bool)
        ensures
            r == has_keywords(self@),
    {
        self.min_length.is_some() || self.max_length.is_some() || self.min_items.is_some()
            || self.max_items.is_some() || self.minimum.is_some() || self.maximum.is_some()
            || self.exclusive_minimum.is_some() || self.exclusive_maximum.is_some()
            || self.multiple_of.is_some() || self.pattern.is_some() || self.format.is_some()
            || self.non_blank
    }

    /// Sets the JSON Schema keywords these rules imply.
    pub fn keywords(&self, field_schema: Schema) -> (out: Schema)
        ensures
            out@ == with_keywords(self@, field_schema@),
    {
        let mut out = field_schema;
        out.min_length = put_count(out.min_length, self.min_length);
        out.max_length = put_count(out.max_length, self.max_length);
        out.min_items = put_count(out.min_items, self.min_items);
        out.max_items = put_count(out.max_items, self.max_items);
        let slot = out.minimum.take();
        out.minimum = put_number(slot, &self.minimum);
        let slot = out.maximum.take();
        out.maximum = put_number(slot, &self.maximum);
        let slot = out.exclusive_minimum.take();
        out.exclusive_minimum = put_number(slot, &self.exclusive_minimum);
        let slot = out.exclusive_maximum.take();
        out.exclusive_maximum = put_number(slot, &self.exclusive_maximum);
        let slot = out.multiple_of.take();
        out.multiple_of = put_number(slot, &self.multiple_of);
        let slot = out.pattern.take();
        out.pattern = put_text(slot, &self.pattern);
        let slot = out.format.take();
        out.format = put_text(slot, &self.format);
        if self.non_blank && self.min_length.is_none() {
            out.min_length = Some(1);
        }
        out
    }
}

/// Adds an example to a list.
fn add_example(examples: &mut Vec<Value>, example: &Option<Value>)
    ensures
        json::list_model(final(examples)@) == match *example {
            Some(v) => json::list_model(old(examples)@).push(v@),
            None => json::list_model(old(examples)@),
        },
{
    if let Some(v) = example {
        let copy = v.copy();
        assert(examples@.push(copy).drop_last() =~= examples@);
        examples.push(copy);
    }
}

impl Field {
    /// Builds the property schema for this field from that of its type.
    pub fn schema(&self, inner: Schema) -> (out: Schema)
        ensures
            out@ == field_model(self@, inner@),
    {
        let has_annotations = self.rules.has_keywords() || self.description.is_some()
            || self.example.is_some() || self.default_value.is_some() || self.read_only
            || self.write_only || self.deprecated;
        let ghost model = inner@;
        let base = if has_annotations && inner.is_pure_ref() {
            let mut list: Vec<Schema> = Vec::new();
            list.push(inner);
            proof {
                schema::lemma_list_model(list@);
                assert(schema::list_model(list@) =~= seq![model]);
            }
            Schema { all_of: list, ..Schema::any() }
        } else {
            inner
        };
        let mut out = self.rules.keywords(base);
        if let Some(t) = &self.description {
            out.description = Some(t.clone());
        }
        if let Some(v) = &self.default_value {
            out.default = Some(v.copy());
        }
        add_example(&mut out.examples, &self.example);
        if self.read_only {
            out.read_only = true;
        }
        if self.write_only {
            out.write_only = true;
        }
        if self.deprecated {
            out.deprecated = true;
        }
        out
    }
}

// ---------------------------------------------------------------------------
// structs
// ---------------------------------------------------------------------------

/// A schema with what the container adds to it.
pub open spec fn with_annotations(c: ContainerModel, s: SchemaModel) -> SchemaModel {
    SchemaModel {
        title: c.title,
        description: or(s.description, c.description),
        examples: match c.example {
            Some(v) => s.examples.push(v),
            None => s.examples,
        },
        additional_properties: if c.deny_unknown_fields {
            Some(AdditionalModel::Bool(false))
        } else {
            s.additional_properties
        },
        ..s
    }
}

/// A map after all of `extra` are inserted, in order.
pub open spec fn with_entries(
    entries: Seq<(Seq<char>, SchemaModel)>,
    extra: Seq<(Seq<char>, SchemaModel)>,
) -> Seq<(Seq<char>, SchemaModel)>
    decreases extra.len(),
{
    if extra.len() == 0 {
        entries
    } else {
        ordered::inserted(
            with_entries(entries, extra.drop_last()),
            extra.last().0,
            extra.last().1,
        )
    }
}

/// An object schema after one more field. A flattened field contributes its own
/// properties.
pub open spec fn object_step(s: SchemaModel, f: FieldModel, x: InnerModel) -> SchemaModel {
    if f.flatten {
        SchemaModel {
            properties: with_entries(s.properties, x.schema.properties),
            required: s.required + x.schema.required,
            ..s
        }
    } else {
        SchemaModel {
            properties: ordered::inserted(s.properties, f.name, field_model(f, x.schema)),
            required: if f.has_default || x.optional {
                s.required
            } else {
                s.required.push(f.name)
            },
            ..s
        }
    }
}

/// The object schema of a list of fields.
pub open spec fn object_model(fields: Seq<FieldModel>, inner: Seq<InnerModel>) -> SchemaModel
    decreases fields.len(),
{
    if fields.len() == 0 {
        SchemaModel::of_type("object"@)
    } else {
        object_step(
            object_model(fields.drop_last(), inner.drop_last()),
            fields.last(),
            inner.last(),
        )
    }
}

/// The schemas of a list of fields.
pub open spec fn items_model(
    fields: Seq<FieldModel>,
    inner: Seq<InnerModel>,
) -> Seq<SchemaModel> {
    Seq::new(fields.len(), |i: int| field_model(fields[i], inner[i].schema))
}

/// A struct documents as its first field: one without names and with a single
/// field, or one marked transparent.
pub open spec fn is_transparent(
    c: ContainerModel,
    shape: Shape,
    declared: usize,
    fields: Seq<FieldModel>,
) -> bool {
    ((shape == Shape::Unnamed && declared == 1) || c.transparent) && fields.len() > 0
}

/// Which field types a struct's schema is built from, in order; `inlined` tells
/// those whose own properties are taken over.
#[derive(Clone, Copy, Debug, PartialEq, Eq, Structural)]
pub struct Usage {
    pub index: usize,
    pub inlined: bool,
}

/// Which field types a struct's schema is built from.
pub open spec fn struct_usage(
    c: ContainerModel,
    shape: Shape,
    declared: usize,
    fields: Seq<FieldModel>,
) -> Seq<Usage> {
    if is_transparent(c, shape, declared, fields) {
        seq![Usage { index: 0, inlined: false }]
    } else if shape == Shape::Unit {
        Seq::empty()
    } else {
        Seq::new(
            fields.len(),
            |i: int|
                Usage { index: i as usize, inlined: shape == Shape::Named && fields[i].flatten },
        )
    }
}

/// The schema of a struct, given the schemas of the field types it uses.
pub open spec fn struct_model(
    c: ContainerModel,
    shape: Shape,
    declared: usize,
    fields: Seq<FieldModel>,
    inner: Seq<InnerModel>,
) -> SchemaModel {
    let body = if is_transparent(c, shape, declared, fields) {
        field_model(fields[0], inner[0].schema)
    } else {
        match shape {
            Shape::Unit => SchemaModel::of_type("null"@),
            Shape::Unnamed => impls::tuple_model(items_model(fields, inner)),
            Shape::Named => object_model(fields, inner),
        }
    };
    with_annotations(c, body)
}

impl Container {
    /// Adds what the container says of itself.
    pub fn annotations(&self, schema: Schema) -> (out: Schema)
        ensures
            out@ == with_annotations(self@, schema@),
    {
        let mut out = schema;
        out.title = match &self.title {
            Some(t) => Some(t.clone()),
            None => None,
        };
        if out.description.is_none() {
            out.description = match &self.description {
                Some(t) => Some(t.clone()),
                None => None,
            };
        }
        add_example(&mut out.examples, &self.example);
        if self.deny_unknown_fields {
            out.additional_properties = Some(AdditionalProperties::Bool(false));
        }
        out
    }
}

/// Which field types a struct's schema is built from, in order.
pub fn struct_uses(
    container: &Container,
    shape: Shape,
    declared: usize,
    fields: &Vec<Field>,
) -> (out: Vec<Usage>)
    ensures
        out@ == struct_usage(container@, shape, declared, decl::field_models(fields@)),
{
    let ghost models = decl::field_models(fields@);
    let mut out: Vec<Usage> = Vec::new();
    if ((shape == Shape::Unnamed && declared == 1) || container.transparent) && fields.len() > 0 {
        out.push(Usage { index: 0, inlined: false });
        assert(out@ =~= struct_usage(container@, shape, declared, models));
        return out;
    }
    if shape == Shape::Unit {
        assert(out@ =~= Seq::<Usage>::empty());
        return out;
    }
    for i in 0..fields.len()
        invariant
            models == decl::field_models(fields@),
            out@.len() == i,
            forall|j: int|
                0 <= j < i ==> #[trigger] out@[j] == (Usage {
                    index: j as usize,
                    inlined: shape == Shape::Named && models[j].flatten,
                }),
    {
        assert(models[i as int] == fields@[i as int]@);
        out.push(Usage { index: i, inlined: shape == Shape::Named && fields[i].flatten });
    }
    assert(out@ =~= struct_usage(container@, shape, declared, models));
    out
}

/// Takes over the properties of `other`.
fn merge_properties(out: &mut Schema, other: &Schema)
    ensures
        final(out)@ == (SchemaModel {
            properties: with_entries(old(out)@.properties, other@.properties),
            required: old(out)@.required + other@.required,
            ..old(out)@
        }),
{
    let ghost start = out@;
    let extra = &other.properties;
    let n: usize = extra.len();
    proof {
        schema::lemma_schemas_model(*extra);
        assert(other@.properties.take(0) =~= Seq::<(Seq<char>, SchemaModel)>::empty());
    }
    for i in 0..n
        invariant
            n == extra@.len() == other@.properties.len(),
            extra == other.properties,
            forall|j: int|
                0 <= j < n ==> #[trigger] other@.properties[j] == (
                    extra@[j].0,
                    schema::schema_model(extra@[j].1),
                ),
            out@ == (SchemaModel {
                properties: with_entries(start.properties, other@.properties.take(i as int)),
                ..start
            }),
    {
        assert(other@.properties.take(i + 1).drop_last() =~= other@.properties.take(i as int));
        let key = extra.key_at(i).to_owned();
        let value = extra.value_at(i).copy();
        let ghost before = out.properties;
        let ghost k = key@;
        out.properties.insert(key, value);
        proof {
            gen::lemma_inserted(before, out.properties, k, value);
        }
    }
    assert(other@.properties.take(n as int) =~= other@.properties);
    let ghost middle = out@;
    let ghost names = text::views(out.required@);
    for i in 0..other.required.len()
        invariant
            names == middle.required,
            out@ == (SchemaModel {
                required: names + text::views(other.required@).take(i as int),
                ..middle
            }),
    {
        let name = other.required[i].clone();
        proof {
            text::lemma_views_push(out.required@, name);
            let v = text::views(other.required@);
            assert(v.take(i + 1) =~= v.take(i as int).push(name@));
            assert(names + v.take(i + 1) =~= (names + v.take(i as int)).push(name@));
        }
        out.required.push(name);
    }
    let ghost v = text::views(other.required@);
    assert(v.take(v.len() as int) =~= v);
}

/// Inserts a property.
pub(crate) fn put_property(out: &mut Schema, name: &str, property: Schema)
    ensures
        final(out)@ == (SchemaModel {
            properties: ordered::inserted(old(out)@.properties, name@, property@),
            ..old(out)@
        }),
{
    let ghost before = out.properties;
    out.properties.insert(name.to_owned(), property);
    proof {
        gen::lemma_inserted(before, out.properties, name@, property);
    }
}

/// Marks a property as required.
pub(crate) fn put_required(out: &mut Schema, name: &str)
    ensures
        final(out)@ == (SchemaModel {
            required: old(out)@.required.push(name@),
            ..old(out)@
        }),
{
    let entry = name.to_owned();
    proof {
        text::lemma_views_push(out.required@, entry);
    }
    out.required.push(entry);
}

/// Builds the schema of each field.
pub(crate) fn field_schemas(fields: &Vec<Field>, inner: Vec<Inner>) -> (out: Vec<Schema>)
    requires
        inner@.len() == fields@.len(),
    ensures
        schema::list_model(out@) == items_model(
            decl::field_models(fields@),
            inner_models(inner@),
        ),
{
    let ghost given = inner@;
    let ghost models = items_model(decl::field_models(fields@), inner_models(given));
    let mut out: Vec<Schema> = Vec::new();
    let n: usize = fields.len();
    for x in it: inner
        invariant
            it.seq() == given,
            n == fields@.len() == given.len(),
            models == items_model(decl::field_models(fields@), inner_models(given)),
            out@.len() == it.index(),
            forall|j: int| 0 <= j < it.index() ==> (#[trigger] out@[j])@ == models[j],
    {
        let i: usize = out.len();
        assert(x == given[i as int]);
        out.push(fields[i].schema(x.schema));
    }
    proof {
        schema::lemma_list_model(out@);
        assert(schema::list_model(out@) =~= models);
    }
    out
}

/// Builds the object schema of a struct with named fields.
fn object_schema(fields: &Vec<Field>, inner: Vec<Inner>) -> (out: Schema)
    requires
        inner@.len() == fields@.len(),
    ensures
        out@ == object_model(decl::field_models(fields@), inner_models(inner@)),
{
    let ghost given = inner@;
    let ghost fs = decl::field_models(fields@);
    let ghost xs = inner_models(given);
    let mut out = Schema::of_type("object");
    let mut i: usize = 0;
    let n: usize = fields.len();
    assert(fs.take(0) =~= Seq::<FieldModel>::empty());
    for x in it: inner
        invariant
            it.seq() == given,
            i == it.index(),
            n == fields@.len() == given.len(),
            fs == decl::field_models(fields@),
            xs == inner_models(given),
            out@ == object_model(fs.take(i as int), xs.take(i as int)),
    {
        assert(x == given[i as int]);
        assert(fs.take(i + 1).drop_last() =~= fs.take(i as int));
        assert(xs.take(i + 1).drop_last() =~= xs.take(i as int));
        let field = &fields[i];
        if field.flatten {
            merge_properties(&mut out, &x.schema);
        } else {
            let optional = x.optional;
            put_property(&mut out, field.name.as_str(), field.schema(x.schema));
            if !field.has_default && !optional {
                put_required(&mut out, field.name.as_str());
            }
        }
        i = if i < n {
            i + 1
        } else {
            i
        };
    }
    assert(fs.take(n as int) =~= fs);
    assert(xs.take(n as int) =~= xs);
    out
}

/// Builds the schema of a struct from those of the field types it uses.
pub fn struct_schema(
    container: &Container,
    shape: Shape,
    declared: usize,
    fields: &Vec<Field>,
    inner: Vec<Inner>,
) -> (out: Schema)
    requires
        inner@.len() == struct_usage(
            container@,
            shape,
            declared,
            decl::field_models(fields@),
        ).len(),
    ensures
        out@ == struct_model(
            container@,
            shape,
            declared,
            decl::field_models(fields@),
            inner_models(inner@),
        ),
{
    let ghost fs = decl::field_models(fields@);
    // A newtype is transparent by default: `struct UserId(u64)` should document
    // as an integer, not an object wrapping one.
    if ((shape == Shape::Unnamed && declared == 1) || container.transparent) && fields.len() > 0 {
        let mut inner = inner;
        let first = inner.remove(0);
        assert(fs[0] == fields@[0]@);
        return container.annotations(fields[0].schema(first.schema));
    }
    match shape {
        Shape::Unit => container.annotations(Schema::of_type("null")),
        Shape::Unnamed => container.annotations(impls::tuple(field_schemas(fields, inner))),
        Shape::Named => container.annotations(object_schema(fields, inner)),
    }
}

} // verus!
