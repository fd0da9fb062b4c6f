//! JSON Schema 2020-12 object model (the dialect OpenAPI 3.1 uses verbatim).

use crate::json::{Number, Value, ValueModel};
use crate::json;
use crate::openapi::ordered::OrderedMap;
use crate::openapi::ordered;
use crate::openapi::schema_map::SchemaMap;
use crate::openapi::schema_map;
use crate::text;
use vstd::prelude::*;
use vstd::string::*;

verus! {

/// The `type` keyword, which in 2020-12 may be a single value or a list.
pub enum SchemaType {
    Single(String),
    Multiple(Vec<String>),
}

/// `additionalProperties` accepts either a boolean or a subschema.
pub enum AdditionalProperties {
    Bool(bool),
    Schema(Box<Schema>),
}

/// OpenAPI's polymorphism hint, used with `oneOf`.
pub struct Discriminator {
    pub property_name: String,
    pub mapping: OrderedMap<String>,
}

/// A JSON Schema.
///
/// Every keyword is optional; an all-default `Schema` is the "accept anything"
/// schema.
pub struct Schema {
    pub reference: Option<String>,
    pub schema_type: Option<SchemaType>,
    pub format: Option<String>,
    pub title: Option<String>,
    pub description: Option<String>,
    pub default: Option<Value>,
    pub examples: Vec<Value>,
    pub deprecated: bool,
    pub read_only: bool,
    pub write_only: bool,
    // ---- object ----
    pub properties: SchemaMap,
    pub required: Vec<String>,
    pub additional_properties: Option<AdditionalProperties>,
    pub min_properties: Option<u64>,
    pub max_properties: Option<u64>,
    // ---- array ----
    pub items: Option<Box<Schema>>,
    pub prefix_items: Vec<Schema>,
    pub min_items: Option<u64>,
    pub max_items: Option<u64>,
    pub unique_items: Option<bool>,
    // ---- string ----
    pub min_length: Option<u64>,
    pub max_length: Option<u64>,
    pub pattern: Option<String>,
    // ---- number ----
    pub minimum: Option<Number>,
    pub maximum: Option<Number>,
    pub exclusive_minimum: Option<Number>,
    pub exclusive_maximum: Option<Number>,
    pub multiple_of: Option<Number>,
    // ---- enum / const ----
    pub enum_values: Vec<Value>,
    pub const_value: Option<Value>,
    // ---- composition ----
    pub one_of: Vec<Schema>,
    pub any_of: Vec<Schema>,
    pub all_of: Vec<Schema>,
    pub not: Option<Box<Schema>>,
    pub discriminator: Option<Discriminator>,
    /// `x-` prefixed vendor extensions, flattened into the emitted object.
    pub extensions: OrderedMap<Value>,
}

/// The `type` keyword, as a value.
pub enum TypeModel {
    Single(Seq<char>),
    Multiple(Seq<Seq<char>>),
}

/// `additionalProperties`, as a value.
pub enum AdditionalModel {
    Bool(bool),
    Schema(Box<SchemaModel>),
}

/// A discriminator, as a value.
pub struct DiscriminatorModel {
    pub property_name: Seq<char>,
    pub mapping: Seq<(Seq<char>, Seq<char>)>,
}

/// A JSON Schema, as a value.
#[verifier::ext_equal]
pub struct SchemaModel {
    pub reference: Option<Seq<char>>,
    pub schema_type: Option<TypeModel>,
    pub format: Option<Seq<char>>,
    pub title: Option<Seq<char>>,
    pub description: Option<Seq<char>>,
    pub default: Option<ValueModel>,
    pub examples: Seq<ValueModel>,
    pub deprecated: bool,
    pub read_only: bool,
    pub write_only: bool,
    pub properties: Seq<(Seq<char>, SchemaModel)>,
    pub required: Seq<Seq<char>>,
    pub additional_properties: Option<AdditionalModel>,
    pub min_properties: Option<u64>,
    pub max_properties: Option<u64>,
    pub items: Option<Box<SchemaModel>>,
    pub prefix_items: Seq<SchemaModel>,
    pub min_items: Option<u64>,
    pub max_items: Option<u64>,
    pub unique_items: Option<bool>,
    pub min_length: Option<u64>,
    pub max_length: Option<u64>,
    pub pattern: Option<Seq<char>>,
    pub minimum: Option<Seq<char>>,
    pub maximum: Option<Seq<char>>,
    pub exclusive_minimum: Option<Seq<char>>,
    pub exclusive_maximum: Option<Seq<char>>,
    pub multiple_of: Option<Seq<char>>,
    pub enum_values: Seq<ValueModel>,
    pub const_value: Option<ValueModel>,
    pub one_of: Seq<SchemaModel>,
    pub any_of: Seq<SchemaModel>,
    pub all_of: Seq<SchemaModel>,
    pub not: Option<Box<SchemaModel>>,
    pub discriminator: Option<DiscriminatorModel>,
    pub extensions: Seq<(Seq<char>, ValueModel)>,
}

impl View for SchemaType {
    type V = TypeModel;

    open spec fn view(&self) -> TypeModel {
        match self {
            SchemaType::Single(t) => TypeModel::Single(t@),
            SchemaType::Multiple(list) => TypeModel::Multiple(text::views(list@)),
        }
    }
}

impl View for Discriminator {
    type V = DiscriminatorModel;

    open spec fn view(&self) -> DiscriminatorModel {
        DiscriminatorModel {
            property_name: self.property_name@,
            mapping: texts_model(self.mapping),
        }
    }
}

/// A map of texts, as a value.
pub open spec fn texts_model(m: OrderedMap<String>) -> Seq<(Seq<char>, Seq<char>)> {
    Seq::new(m@.len(), |i: int| (m@[i].0, m@[i].1@))
}

/// A map of JSON values, as a value.
pub open spec fn values_model(m: OrderedMap<Value>) -> Seq<(Seq<char>, ValueModel)> {
    Seq::new(m@.len(), |i: int| (m@[i].0, m@[i].1@))
}

pub open spec fn number(n: Option<Number>) -> Option<Seq<char>> {
    match n {
        Some(n) => Some(n@),
        None => None,
    }
}

pub open spec fn value(v: Option<Value>) -> Option<ValueModel> {
    match v {
        Some(v) => Some(v@),
        None => None,
    }
}

/// A schema, as a value.
pub open spec fn schema_model(s: Schema) -> SchemaModel
    decreases s,
{
    SchemaModel {
        reference: text::opt(s.reference),
        schema_type: match s.schema_type {
            Some(t) => Some(t@),
            None => None,
        },
        format: text::opt(s.format),
        title: text::opt(s.title),
        description: text::opt(s.description),
        default: value(s.default),
        examples: json::list_model(s.examples@),
        deprecated: s.deprecated,
        read_only: s.read_only,
        write_only: s.write_only,
        properties: schemas_model(s.properties),
        required: text::views(s.required@),
        additional_properties: match s.additional_properties {
            Some(AdditionalProperties::Bool(b)) => Some(AdditionalModel::Bool(b)),
            Some(AdditionalProperties::Schema(inner)) => Some(
                AdditionalModel::Schema(Box::new(schema_model(*inner))),
            ),
            None => None,
        },
        min_properties: s.min_properties,
        max_properties: s.max_properties,
        items: match s.items {
            Some(inner) => Some(Box::new(schema_model(*inner))),
            None => None,
        },
        prefix_items: list_model(s.prefix_items@),
        min_items: s.min_items,
        max_items: s.max_items,
        unique_items: s.unique_items,
        min_length: s.min_length,
        max_length: s.max_length,
        pattern: text::opt(s.pattern),
        minimum: number(s.minimum),
        maximum: number(s.maximum),
        exclusive_minimum: number(s.exclusive_minimum),
        exclusive_maximum: number(s.exclusive_maximum),
        multiple_of: number(s.multiple_of),
        enum_values: json::list_model(s.enum_values@),
        const_value: value(s.const_value),
        one_of: list_model(s.one_of@),
        any_of: list_model(s.any_of@),
        all_of: list_model(s.all_of@),
        not: match s.not {
            Some(inner) => Some(Box::new(schema_model(*inner))),
            None => None,
        },
        discriminator: match s.discriminator {
            Some(d) => Some(d@),
            None => None,
        },
        extensions: values_model(s.extensions),
    }
}

/// The schemas of a list, as values.
pub open spec fn list_model(list: Seq<Schema>) -> Seq<SchemaModel>
    decreases list,
{
    if list.len() == 0 {
        Seq::empty()
    } else {
        list_model(list.drop_last()).push(schema_model(list.last()))
    }
}

/// A map of schemas, as a value.
pub open spec fn schemas_model(m: SchemaMap) -> Seq<(Seq<char>, SchemaModel)>
    decreases m,
{
    proof {
        schema_map::lemma_values_of(m);
    }
    let models = list_model(schema_map::values_of(m));
    Seq::new(m@.len(), |i: int| (m@[i].0, models[i]))
}

impl View for Schema {
    type V = SchemaModel;

    open spec fn view(&self) -> SchemaModel {
        schema_model(*self)
    }
}

pub proof fn lemma_list_model(list: Seq<Schema>)
    ensures
        list_model(list).len() == list.len(),
        forall|i: int|
            0 <= i < list.len() ==> #[trigger] list_model(list)[i] == schema_model(list[i]),
    decreases list.len(),
{
    if list.len() > 0 {
        lemma_list_model(list.drop_last());
    }
}

pub proof fn lemma_schemas_model(m: SchemaMap)
    ensures
        schemas_model(m).len() == m@.len(),
        forall|i: int|
            0 <= i < m@.len() ==> #[trigger] schemas_model(m)[i] == (
                m@[i].0,
                schema_model(m@[i].1),
            ),
{
    schema_map::lemma_values_of(m);
    lemma_list_model(schema_map::values_of(m));
}

impl TypeModel {
    /// The type with `"null"` added, unless it is there.
    pub open spec fn or_null(self) -> TypeModel {
        match self {
            TypeModel::Single(t) => if t == "null"@ {
                self
            } else {
                TypeModel::Multiple(seq![t, "null"@])
            },
            TypeModel::Multiple(list) => if list.contains("null"@) {
                self
            } else {
                TypeModel::Multiple(list.push("null"@))
            },
        }
    }
}

impl SchemaModel {
    /// The schema without keywords: it permits any value.
    pub open spec fn any() -> SchemaModel {
        SchemaModel {
            reference: None,
            schema_type: None,
            format: None,
            title: None,
            description: None,
            default: None,
            examples: Seq::empty(),
            deprecated: false,
            read_only: false,
            write_only: false,
            properties: Seq::empty(),
            required: Seq::empty(),
            additional_properties: None,
            min_properties: None,
            max_properties: None,
            items: None,
            prefix_items: Seq::empty(),
            min_items: None,
            max_items: None,
            unique_items: None,
            min_length: None,
            max_length: None,
            pattern: None,
            minimum: None,
            maximum: None,
            exclusive_minimum: None,
            exclusive_maximum: None,
            multiple_of: None,
            enum_values: Seq::empty(),
            const_value: None,
            one_of: Seq::empty(),
            any_of: Seq::empty(),
            all_of: Seq::empty(),
            not: None,
            discriminator: None,
            extensions: Seq::empty(),
        }
    }

    pub open spec fn reference(target: Seq<char>) -> SchemaModel {
        SchemaModel { reference: Some(target), ..SchemaModel::any() }
    }

    pub open spec fn of_type(ty: Seq<char>) -> SchemaModel {
        SchemaModel { schema_type: Some(TypeModel::Single(ty)), ..SchemaModel::any() }
    }

    pub open spec fn typed(ty: Seq<char>, format: Seq<char>) -> SchemaModel {
        SchemaModel { format: Some(format), ..SchemaModel::of_type(ty) }
    }

    pub open spec fn array(items: SchemaModel) -> SchemaModel {
        SchemaModel { items: Some(Box::new(items)), ..SchemaModel::of_type("array"@) }
    }

    pub open spec fn map_of(values: SchemaModel) -> SchemaModel {
        SchemaModel {
            additional_properties: Some(AdditionalModel::Schema(Box::new(values))),
            ..SchemaModel::of_type("object"@)
        }
    }

    /// A `$ref`, `oneOf` or `anyOf` cannot grow a `type` keyword.
    pub open spec fn is_composite(self) -> bool {
        self.reference is Some || self.one_of.len() > 0 || self.any_of.len() > 0
    }

    /// The schema that accepts `null` as well.
    pub open spec fn nullable(self) -> SchemaModel {
        if self.is_composite() {
            SchemaModel {
                any_of: seq![self, SchemaModel::of_type("null"@)],
                ..SchemaModel::any()
            }
        } else {
            match self.schema_type {
                Some(t) => SchemaModel { schema_type: Some(t.or_null()), ..self },
                None => self,
            }
        }
    }

    /// The schema with a description, wrapped in `allOf` if it is a bare `$ref`.
    pub open spec fn described(self, description: Seq<char>) -> SchemaModel {
        if self.reference is Some {
            SchemaModel {
                all_of: seq![self],
                description: Some(description),
                ..SchemaModel::any()
            }
        } else {
            SchemaModel { description: Some(description), ..self }
        }
    }

    /// The schema with an example added.
    pub open spec fn with_example(self, example: ValueModel) -> SchemaModel {
        SchemaModel { examples: self.examples.push(example), ..self }
    }

    /// The schema with a vendor extension set.
    pub open spec fn with_extension(self, key: Seq<char>, value: ValueModel) -> SchemaModel {
        SchemaModel {
            extensions: ordered::inserted(self.extensions, extension_key(key), value),
            ..self
        }
    }
}

/// The key of a vendor extension: prefixed with `x-` when missing.
pub open spec fn extension_key(key: Seq<char>) -> Seq<char> {
    if text::starts_with(key, "x-"@) {
        key
    } else {
        "x-"@ + key
    }
}

/// Adding `null` a second time changes nothing.
pub proof fn or_null_is_idempotent(t: TypeModel)
    ensures
        t.or_null().or_null() == t.or_null(),
{
    match t {
        TypeModel::Single(name) => {
            if name != "null"@ {
                assert(seq![name, "null"@][1] == "null"@);
            }
        },
        TypeModel::Multiple(list) => {
            if !list.contains("null"@) {
                assert(list.push("null"@)[list.len() as int] == "null"@);
            }
        },
    }
}

fn copy_text(s: &Option<String>) -> (out: Option<String>)
    ensures
        out == *s,
{
    match s {
        Some(t) => Some(t.clone()),
        None => None,
    }
}

fn copy_number(n: &Option<Number>) -> (out: Option<Number>)
    ensures
        out == *n,
{
    match n {
        Some(n) => Some(n.copy()),
        None => None,
    }
}

fn copy_value(v: &Option<Value>) -> (out: Option<Value>)
    ensures
        value(out) == value(*v),
{
    match v {
        Some(v) => Some(v.copy()),
        None => None,
    }
}

/// A copy of a map of JSON values.
pub fn copy_values(m: &OrderedMap<Value>) -> (out: OrderedMap<Value>)
    ensures
        values_model(out) == values_model(*m),
{
    let mut out: OrderedMap<Value> = OrderedMap::new();
    let n: usize = m.len();
    for i in 0..n
        invariant
            n == m@.len(),
            ordered::distinct(m@),
            out@.len() == i,
            forall|j: int|
                0 <= j < i ==> (#[trigger] out@[j]).0 == m@[j].0 && out@[j].1@ == m@[j].1@,
    {
        proof {
            ordered::lemma_position(out@, m@[i as int].0);
            if ordered::position(out@, m@[i as int].0) is Some {
                let j = ordered::position(out@, m@[i as int].0)->0;
                assert(m@[j].0 == m@[i as int].0);
            }
        }
        out.insert(m.key_at(i).to_owned(), m.value_at(i).copy());
    }
    assert(values_model(out) =~= values_model(*m));
    out
}

impl SchemaType {
    pub fn copy(&self) -> (out: SchemaType)
        ensures
            out@ == self@,
    {
        match self {
            SchemaType::Single(t) => SchemaType::Single(t.clone()),
            SchemaType::Multiple(list) => SchemaType::Multiple(text::copy_texts(list)),
        }
    }

    /// Adds `"null"` to this type, promoting a single type to a list.
    pub fn or_null(self) -> (out: SchemaType)
        ensures
            out@ == self@.or_null(),
    {
        match self {
            SchemaType::Single(t) => {
                if text::same(t.as_str(), "null") {
                    SchemaType::Single(t)
                } else {
                    let mut list: Vec<String> = Vec::new();
                    list.push(t);
                    list.push("null".to_owned());
                    assert(text::views(list@) =~= seq![t@, "null"@]);
                    SchemaType::Multiple(list)
                }
            },
            SchemaType::Multiple(list) => {
                let mut list = list;
                let found = text::has_text(&list, "null");
                if !found {
                    let null = "null".to_owned();
                    proof {
                        text::lemma_views_push(list@, null);
                    }
                    list.push(null);
                }
                SchemaType::Multiple(list)
            },
        }
    }
}

impl Discriminator {
    pub fn copy(&self) -> (out: Discriminator)
        ensures
            out@ == self@,
    {
        let m = &self.mapping;
        let mut out: OrderedMap<String> = OrderedMap::new();
        let n: usize = m.len();
        for i in 0..n
            invariant
                n == m@.len(),
                ordered::distinct(m@),
                out@.len() == i,
                forall|j: int|
                    0 <= j < i ==> (#[trigger] out@[j]).0 == m@[j].0 && out@[j].1@ == m@[j].1@,
        {
            proof {
                ordered::lemma_position(out@, m@[i as int].0);
                if ordered::position(out@, m@[i as int].0) is Some {
                    let j = ordered::position(out@, m@[i as int].0)->0;
                    assert(m@[j].0 == m@[i as int].0);
                }
            }
            out.insert(m.key_at(i).to_owned(), m.value_at(i).clone());
        }
        assert(texts_model(out) =~= texts_model(*m));
        Discriminator { property_name: self.property_name.clone(), mapping: out }
    }
}

/// A copy of a list of schemas.
pub fn copy_schemas(list: &Vec<Schema>) -> (out: Vec<Schema>)
    ensures
        list_model(out@) == list_model(list@),
    decreases list,
{
    let mut out: Vec<Schema> = Vec::new();
    let mut i: usize = 0;
    assert(list@.take(0) =~= Seq::<Schema>::empty());
    while i < list.len()
        invariant
            i <= list@.len(),
            list_model(out@) == list_model(list@.take(i as int)),
        decreases list@.len() - i,
    {
        proof {
            assert(decreases_to!(list => list@));
            assert(decreases_to!(list@ => list@[i as int]));
        }
        let item = list[i].copy();
        assert(list@.take(i + 1).drop_last() =~= list@.take(i as int));
        assert(out@.push(item).drop_last() =~= out@);
        out.push(item);
        i += 1;
    }
    assert(list@.take(i as int) =~= list@);
    out
}

/// A copy of a map of schemas.
pub fn copy_properties(m: &SchemaMap) -> (out: SchemaMap)
    ensures
        schemas_model(out) == schemas_model(*m),
    decreases m,
{
    let mut out = SchemaMap::new();
    let n: usize = m.len();
    for i in 0..n
        invariant
            n == m@.len(),
            ordered::distinct(m@),
            out@.len() == i,
            forall|j: int|
                0 <= j < i ==> (#[trigger] out@[j]).0 == m@[j].0 && schema_model(out@[j].1)
                    == schema_model(m@[j].1),
    {
        proof {
            ordered::lemma_position(out@, m@[i as int].0);
            if ordered::position(out@, m@[i as int].0) is Some {
                let j = ordered::position(out@, m@[i as int].0)->0;
                assert(m@[j].0 == m@[i as int].0);
            }
            schema_map::lemma_values_of(*m);
            assert(decreases_to!(schema_map::values_of(*m) => schema_map::values_of(*m)[i as int]));
        }
        out.insert(m.key_at(i).to_owned(), m.value_at(i).copy());
    }
    proof {
        lemma_schemas_model(out);
        lemma_schemas_model(*m);
    }
    assert(schemas_model(out) =~= schemas_model(*m));
    out
}

impl Schema {
    /// A schema that permits any value.
    pub fn any() -> (out: Self)
        ensures
            out@ == SchemaModel::any(),
    {
        let out = Schema {
            reference: None,
            schema_type: None,
            format: None,
            title: None,
            description: None,
            default: None,
            examples: Vec::new(),
            deprecated: false,
            read_only: false,
            write_only: false,
            properties: SchemaMap::new(),
            required: Vec::new(),
            additional_properties: None,
            min_properties: None,
            max_properties: None,
            items: None,
            prefix_items: Vec::new(),
            min_items: None,
            max_items: None,
            unique_items: None,
            min_length: None,
            max_length: None,
            pattern: None,
            minimum: None,
            maximum: None,
            exclusive_minimum: None,
            exclusive_maximum: None,
            multiple_of: None,
            enum_values: Vec::new(),
            const_value: None,
            one_of: Vec::new(),
            any_of: Vec::new(),
            all_of: Vec::new(),
            not: None,
            discriminator: None,
            extensions: OrderedMap::new(),
        };
        proof {
            lemma_schemas_model(out.properties);
            lemma_list_model(out.one_of@);
            json::lemma_list_model(out.examples@);
            assert(out@.properties =~= Seq::empty());
            assert(out@.extensions =~= Seq::empty());
            assert(out@.required =~= Seq::empty());
            assert(out@ =~= SchemaModel::any());
        }
        out
    }

    /// A copy of the schema.
    pub fn copy(&self) -> (out: Self)
        ensures
            out@ == self@,
        decreases self,
    {
        Schema {
            reference: copy_text(&self.reference),
            schema_type: match &self.schema_type {
                Some(t) => Some(t.copy()),
                None => None,
            },
            format: copy_text(&self.format),
            title: copy_text(&self.title),
            description: copy_text(&self.description),
            default: copy_value(&self.default),
            examples: json::copy_list(&self.examples),
            deprecated: self.deprecated,
            read_only: self.read_only,
            write_only: self.write_only,
            properties: copy_properties(&self.properties),
            required: text::copy_texts(&self.required),
            additional_properties: match &self.additional_properties {
                Some(AdditionalProperties::Bool(b)) => Some(AdditionalProperties::Bool(*b)),
                Some(AdditionalProperties::Schema(inner)) => Some(
                    AdditionalProperties::Schema(Box::new(inner.copy())),
                ),
                None => None,
            },
            min_properties: self.min_properties,
            max_properties: self.max_properties,
            items: match &self.items {
                Some(inner) => Some(Box::new(inner.copy())),
                None => None,
            },
            prefix_items: copy_schemas(&self.prefix_items),
            min_items: self.min_items,
            max_items: self.max_items,
            unique_items: self.unique_items,
            min_length: self.min_length,
            max_length: self.max_length,
            pattern: copy_text(&self.pattern),
            minimum: copy_number(&self.minimum),
            maximum: copy_number(&self.maximum),
            exclusive_minimum: copy_number(&self.exclusive_minimum),
            exclusive_maximum: copy_number(&self.exclusive_maximum),
            multiple_of: copy_number(&self.multiple_of),
            enum_values: json::copy_list(&self.enum_values),
            const_value: copy_value(&self.const_value),
            one_of: copy_schemas(&self.one_of),
            any_of: copy_schemas(&self.any_of),
            all_of: copy_schemas(&self.all_of),
            not: match &self.not {
                Some(inner) => Some(Box::new(inner.copy())),
                None => None,
            },
            discriminator: match &self.discriminator {
                Some(d) => Some(d.copy()),
                None => None,
            },
            extensions: copy_values(&self.extensions),
        }
    }

    /// `{"$ref": "..."}`.
    pub fn reference(target: &str) -> (out: Self)
        ensures
            out@ == SchemaModel::reference(target@),
    {
        Schema { reference: Some(target.to_owned()), ..Schema::any() }
    }

    /// A bare `{"type": "..."}` schema.
    pub fn of_type(ty: &str) -> (out: Self)
        ensures
            out@ == SchemaModel::of_type(ty@),
    {
        Schema { schema_type: Some(SchemaType::Single(ty.to_owned())), ..Schema::any() }
    }

    /// A `{"type": "...", "format": "..."}` schema.
    pub fn typed(ty: &str, format: &str) -> (out: Self)
        ensures
            out@ == SchemaModel::typed(ty@, format@),
    {
        Schema { format: Some(format.to_owned()), ..Schema::of_type(ty) }
    }

    /// An array schema whose items match `items`.
    pub fn array(items: Schema) -> (out: Self)
        ensures
            out@ == SchemaModel::array(items@),
    {
        Schema { items: Some(Box::new(items)), ..Schema::of_type("array") }
    }

    /// An object schema whose values match `values`.
    pub fn map_of(values: Schema) -> (out: Self)
        ensures
            out@ == SchemaModel::map_of(values@),
    {
        Schema {
            additional_properties: Some(AdditionalProperties::Schema(Box::new(values))),
            ..Schema::of_type("object")
        }
    }

    /// True when this schema is nothing but a `$ref`.
    ///
    /// Such a schema cannot carry sibling annotations in strict 3.0 tooling, so
    /// callers that need to attach a description wrap it in `allOf` instead.
    pub fn is_pure_ref(&self) -> (r: bool)
        ensures
            r == (self@.reference is Some),
    {
        self.reference.is_some()
    }

    /// Marks the schema as accepting `null` in addition to its current type.
    pub fn nullable(self) -> (out: Self)
        ensures
            out@ == self@.nullable(),
    {
        proof {
            lemma_list_model(self.one_of@);
            lemma_list_model(self.any_of@);
        }
        if self.reference.is_some() || self.one_of.len() > 0 || self.any_of.len() > 0 {
            let ghost before = self@;
            let mut list: Vec<Schema> = Vec::new();
            list.push(self);
            list.push(Schema::of_type("null"));
            proof {
                lemma_list_model(list@);
                assert(list_model(list@) =~= seq![before, SchemaModel::of_type("null"@)]);
            }
            return Schema { any_of: list, ..Schema::any() };
        }
        let mut out = self;
        let ty = out.schema_type.take();
        out.schema_type = match ty {
            Some(t) => Some(t.or_null()),
            None => None,
        };
        out
    }

    /// Attaches a description, wrapping in `allOf` when the schema is a bare
    /// `$ref` so the annotation is not silently dropped by consumers.
    pub fn with_description(self, description: &str) -> (out: Self)
        ensures
            out@ == self@.described(description@),
    {
        if self.is_pure_ref() {
            let ghost before = self@;
            let mut list: Vec<Schema> = Vec::new();
            list.push(self);
            proof {
                lemma_list_model(list@);
                assert(list_model(list@) =~= seq![before]);
            }
            return Schema {
                all_of: list,
                description: Some(description.to_owned()),
                ..Schema::any()
            };
        }
        let mut out = self;
        out.description = Some(description.to_owned());
        out
    }

    /// Adds an example value.
    pub fn with_example(self, example: Value) -> (out: Self)
        ensures
            out@ == self@.with_example(example@),
    {
        let mut out = self;
        assert(out.examples@.push(example).drop_last() =~= out.examples@);
        out.examples.push(example);
        out
    }

    /// Sets a vendor extension. Keys are prefixed with `x-` when missing.
    pub fn with_extension(self, key: &str, value: Value) -> (out: Self)
        ensures
            out@ == self@.with_extension(key@, value@),
    {
        let mut out = self;
        let key = if text::has_prefix(key, "x-") {
            key.to_owned()
        } else {
            let mut k = "x-".to_owned();
            k.append(key);
            k
        };
        let ghost before = out.extensions;
        let ghost k = key@;
        out.extensions.insert(key, value);
        proof {
            lemma_values_inserted(before, out.extensions, k, value);
        }
        out
    }
}

/// Two maps with the same keys in the same order have a key at the same place.
pub proof fn lemma_same_position<A, B>(
    entries: Seq<(Seq<char>, A)>,
    model: Seq<(Seq<char>, B)>,
    key: Seq<char>,
)
    requires
        entries.len() == model.len(),
        forall|i: int| 0 <= i < entries.len() ==> (#[trigger] entries[i]).0 == model[i].0,
    ensures
        ordered::position(entries, key) == ordered::position(model, key),
    decreases entries.len(),
{
    if entries.len() > 0 {
        assert(entries[entries.len() - 1].0 == model[model.len() - 1].0);
        lemma_same_position(entries.drop_last(), model.drop_last(), key);
    }
}

/// Inserting into a map of JSON values inserts into its model.
pub proof fn lemma_values_inserted(
    before: OrderedMap<Value>,
    after: OrderedMap<Value>,
    key: Seq<char>,
    value: Value,
)
    requires
        after@ == ordered::inserted(before@, key, value),
    ensures
        values_model(after) == ordered::inserted(values_model(before), key, value@),
{
    lemma_same_position(before@, values_model(before), key);
    ordered::lemma_position(before@, key);
    assert(values_model(after) =~= ordered::inserted(values_model(before), key, value@));
}

} // verus!
