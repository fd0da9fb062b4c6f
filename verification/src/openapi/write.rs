//! Documents as JSON.
//!
//! Every part of a document is written as an object that leaves out what was
//! not said of it, so a minimal document stays minimal.

use crate::json;
use crate::json::{Number, Value, ValueModel};
use crate::openapi::ordered::OrderedMap;
use crate::openapi::schema;
use crate::openapi::schema::{
    AdditionalModel, AdditionalProperties, Discriminator, DiscriminatorModel, Schema, SchemaModel,
    SchemaType, TypeModel,
};
use crate::openapi::schema_map;
use crate::openapi::schema_map::SchemaMap;
use crate::openapi::spec;
use crate::openapi::spec::{
    ApiKeyLocation, Components, ComponentsModel, Contact, ContactModel, Encoding, EncodingModel,
    Example, ExampleModel, ExternalDocs, ExternalDocsModel, Header, HeaderModel, Info, InfoModel,
    License, LicenseModel, Link, LinkModel, MediaType, MediaTypeModel, OAuthFlow, OAuthFlowModel,
    OAuthFlows, OAuthFlowsModel, OpenApi, OpenApiModel, Operation, OperationModel, Parameter,
    ParameterIn, ParameterModel, PathItem, PathItemModel, RequestBody, RequestBodyModel,
    RequirementModel, Response, ResponseModel, SecurityRequirement, SecurityScheme,
    SecuritySchemeModel, Server, ServerModel, ServerVariable, ServerVariableModel, Tag, TagModel,
};
use crate::text;
use vstd::prelude::*;
use vstd::string::*;

verus! {

// ---------------------------------------------------------------------------
// members
// ---------------------------------------------------------------------------

/// The members of an object.
pub type Members = Seq<(Seq<char>, ValueModel)>;

/// One member, or none where there is no value.
pub open spec fn member(key: Seq<char>, value: Option<ValueModel>) -> Members {
    match value {
        Some(v) => seq![(key, v)],
        None => Seq::empty(),
    }
}

pub open spec fn text_json(s: Seq<char>) -> Option<ValueModel> {
    Some(ValueModel::String(s))
}

pub open spec fn opt_text_json(s: Option<Seq<char>>) -> Option<ValueModel> {
    match s {
        Some(s) => text_json(s),
        None => None,
    }
}

pub open spec fn number_json(n: Option<Seq<char>>) -> Option<ValueModel> {
    match n {
        Some(n) => Some(ValueModel::Number(n)),
        None => None,
    }
}

pub open spec fn count_json(n: Option<u64>) -> Option<ValueModel> {
    match n {
        Some(n) => Some(ValueModel::Number(text::decimal(n as nat))),
        None => None,
    }
}

/// A flag is written only when it is set.
pub open spec fn flag_json(b: bool) -> Option<ValueModel> {
    if b {
        Some(ValueModel::Bool(true))
    } else {
        None
    }
}

pub open spec fn bool_json(b: Option<bool>) -> Option<ValueModel> {
    match b {
        Some(b) => Some(ValueModel::Bool(b)),
        None => None,
    }
}

/// A list is written only when it holds something.
pub open spec fn list_json(list: Seq<ValueModel>) -> Option<ValueModel> {
    if list.len() == 0 {
        None
    } else {
        Some(ValueModel::Array(list))
    }
}

/// A map is written only when it holds something.
pub open spec fn map_json(members: Members) -> Option<ValueModel> {
    if members.len() == 0 {
        None
    } else {
        Some(ValueModel::Object(members))
    }
}

pub open spec fn strings(list: Seq<Seq<char>>) -> Seq<ValueModel> {
    list.map_values(|s: Seq<char>| ValueModel::String(s))
}

pub open spec fn string_members(entries: Seq<(Seq<char>, Seq<char>)>) -> Members {
    entries.map_values(|e: (Seq<char>, Seq<char>)| (e.0, ValueModel::String(e.1)))
}

/// Adds a member to an object, where there is a value.
fn put(members: &mut Vec<(String, Value)>, key: &str, value: Option<Value>)
    ensures
        json::members_model(final(members)@) == json::members_model(old(members)@) + member(
            key@,
            schema::value(value),
        ),
{
    let ghost before = members@;
    match value {
        Some(v) => {
            let entry = (key.to_owned(), v);
            members.push(entry);
            assert(members@.drop_last() =~= before);
            assert(json::members_model(members@) =~= json::members_model(before) + member(
                key@,
                schema::value(Some(v)),
            ));
        },
        None => {
            assert(json::members_model(before) + Seq::empty() =~= json::members_model(before));
        },
    }
}

fn from_text(s: &String) -> (out: Option<Value>)
    ensures
        schema::value(out) == text_json(s@),
{
    Some(Value::String(s.clone()))
}

fn from_opt_text(s: &Option<String>) -> (out: Option<Value>)
    ensures
        schema::value(out) == opt_text_json(text::opt(*s)),
{
    match s {
        Some(s) => Some(Value::String(s.clone())),
        None => None,
    }
}

fn from_number(n: &Option<Number>) -> (out: Option<Value>)
    ensures
        schema::value(out) == number_json(schema::number(*n)),
{
    match n {
        Some(n) => Some(Value::Number(n.copy())),
        None => None,
    }
}

fn from_count(n: Option<u64>) -> (out: Option<Value>)
    ensures
        schema::value(out) == count_json(n),
{
    match n {
        Some(n) => Some(Value::Number(Number::from_u64(n))),
        None => None,
    }
}

fn from_flag(b: bool) -> (out: Option<Value>)
    ensures
        schema::value(out) == flag_json(b),
{
    if b {
        Some(Value::Bool(true))
    } else {
        None
    }
}

fn from_bool(b: Option<bool>) -> (out: Option<Value>)
    ensures
        schema::value(out) == bool_json(b),
{
    match b {
        Some(b) => Some(Value::Bool(b)),
        None => None,
    }
}

fn from_value(v: &Option<Value>) -> (out: Option<Value>)
    ensures
        schema::value(out) == schema::value(*v),
{
    match v {
        Some(v) => Some(v.copy()),
        None => None,
    }
}

fn from_list(list: Vec<Value>) -> (out: Option<Value>)
    ensures
        schema::value(out) == list_json(json::list_model(list@)),
{
    proof {
        json::lemma_list_model(list@);
    }
    if list.len() == 0 {
        None
    } else {
        Some(Value::Array(list))
    }
}

fn from_members(members: Vec<(String, Value)>) -> (out: Option<Value>)
    ensures
        schema::value(out) == map_json(json::members_model(members@)),
{
    proof {
        json::lemma_members_model(members@);
    }
    if members.len() == 0 {
        None
    } else {
        Some(Value::Object(members))
    }
}

fn string_list(list: &Vec<String>) -> (out: Vec<Value>)
    ensures
        json::list_model(out@) == strings(text::views(list@)),
{
    let mut out: Vec<Value> = Vec::new();
    for i in 0..list.len()
        invariant
            out@.len() == i,
            forall|j: int| 0 <= j < i ==> (#[trigger] out@[j])@ == ValueModel::String(list@[j]@),
    {
        out.push(Value::String(list[i].clone()));
    }
    proof {
        json::lemma_list_model(out@);
        assert forall|j: int| 0 <= j < out@.len() implies #[trigger] json::list_model(out@)[j]
            == strings(text::views(list@))[j] by {
            assert(json::list_model(out@)[j] == out@[j]@);
        }
    }
    assert(json::list_model(out@) =~= strings(text::views(list@)));
    out
}

fn from_texts(list: &Vec<String>) -> (out: Option<Value>)
    ensures
        schema::value(out) == list_json(strings(text::views(list@))),
{
    from_list(string_list(list))
}

fn value_members(m: &OrderedMap<Value>) -> (out: Vec<(String, Value)>)
    ensures
        json::members_model(out@) == schema::values_model(*m),
{
    let mut out: Vec<(String, Value)> = Vec::new();
    let n: usize = m.len();
    for i in 0..n
        invariant
            n == m@.len(),
            out@.len() == i,
            forall|j: int|
                0 <= j < i ==> (#[trigger] out@[j]).0@ == m@[j].0 && out@[j].1@ == m@[j].1@,
    {
        out.push((m.key_at(i).to_owned(), m.value_at(i).copy()));
    }
    proof {
        json::lemma_members_model(out@);
        assert forall|j: int| 0 <= j < out@.len() implies #[trigger] json::members_model(out@)[j]
            == schema::values_model(*m)[j] by {
            assert(json::members_model(out@)[j] == (out@[j].0@, out@[j].1@));
        }
    }
    assert(json::members_model(out@) =~= schema::values_model(*m));
    out
}

/// Adds the entries of a map to an object, as they are.
fn flatten(members: &mut Vec<(String, Value)>, m: &OrderedMap<Value>)
    ensures
        json::members_model(final(members)@) == json::members_model(old(members)@)
            + schema::values_model(*m),
{
    let ghost start = members@;
    let ghost all = schema::values_model(*m);
    let n: usize = m.len();
    assert(json::members_model(start) + all.take(0) =~= json::members_model(start));
    for i in 0..n
        invariant
            n == m@.len(),
            all == schema::values_model(*m),
            json::members_model(members@) == json::members_model(start) + all.take(i as int),
    {
        let ghost before = members@;
        let entry = (m.key_at(i).to_owned(), m.value_at(i).copy());
        members.push(entry);
        assert(members@.drop_last() =~= before);
        assert(all[i as int] == (entry.0@, entry.1@));
        assert(json::members_model(members@) =~= json::members_model(start) + all.take(i + 1));
    }
    assert(all.take(n as int) =~= all);
}

fn text_members(m: &OrderedMap<String>) -> (out: Vec<(String, Value)>)
    ensures
        json::members_model(out@) == string_members(spec::map_model(m@)),
{
    let mut out: Vec<(String, Value)> = Vec::new();
    let n: usize = m.len();
    for i in 0..n
        invariant
            n == m@.len(),
            out@.len() == i,
            forall|j: int|
                0 <= j < i ==> (#[trigger] out@[j]).0@ == m@[j].0 && out@[j].1@
                    == ValueModel::String(m@[j].1@),
    {
        out.push((m.key_at(i).to_owned(), Value::String(m.value_at(i).clone())));
    }
    let ghost expected = string_members(spec::map_model(m@));
    proof {
        json::lemma_members_model(out@);
        assert forall|j: int| 0 <= j < out@.len() implies #[trigger] json::members_model(out@)[j]
            == expected[j] by {
            assert(json::members_model(out@)[j] == (out@[j].0@, out@[j].1@));
        }
    }
    assert(json::members_model(out@) =~= expected);
    out
}

// ---------------------------------------------------------------------------
// schemas
// ---------------------------------------------------------------------------

impl TypeModel {
    pub open spec fn json(self) -> ValueModel {
        match self {
            TypeModel::Single(t) => ValueModel::String(t),
            TypeModel::Multiple(list) => ValueModel::Array(strings(list)),
        }
    }
}

impl DiscriminatorModel {
    pub open spec fn json(self) -> ValueModel {
        ValueModel::Object(
            member("propertyName"@, text_json(self.property_name)) + member(
                "mapping"@,
                map_json(string_members(self.mapping)),
            ),
        )
    }
}

/// The values of a list of schemas.
pub open spec fn schema_list(list: Seq<SchemaModel>) -> Seq<ValueModel>
    decreases list,
{
    Seq::new(
        list.len(),
        |i: int|
            if 0 <= i < list.len() {
                schema_json(list[i])
            } else {
                ValueModel::Null
            },
    )
}

/// The members of a map of schemas.
pub open spec fn schema_members(entries: Seq<(Seq<char>, SchemaModel)>) -> Members
    decreases entries,
{
    Seq::new(
        entries.len(),
        |i: int|
            if 0 <= i < entries.len() {
                (entries[i].0, schema_json(entries[i].1))
            } else {
                (Seq::empty(), ValueModel::Null)
            },
    )
}

/// A schema, written out. Extension keywords are members of their own.
pub open spec fn schema_json(s: SchemaModel) -> ValueModel
    decreases s,
{
    ValueModel::Object(
        Seq::<(Seq<char>, ValueModel)>::empty()
        + member(
            "$ref"@,
            opt_text_json(s.reference),
        )
        + member(
            "type"@,
            match s.schema_type {
                Some(t) => Some(t.json()),
                None => None,
            },
        )
        + member(
            "format"@,
            opt_text_json(s.format),
        )
        + member(
            "title"@,
            opt_text_json(s.title),
        )
        + member(
            "description"@,
            opt_text_json(s.description),
        )
        + member(
            "default"@,
            s.default,
        )
        + member(
            "examples"@,
            list_json(s.examples),
        )
        + member(
            "deprecated"@,
            flag_json(s.deprecated),
        )
        + member(
            "readOnly"@,
            flag_json(s.read_only),
        )
        + member(
            "writeOnly"@,
            flag_json(s.write_only),
        )
        + member(
            "properties"@,
            map_json(schema_members(s.properties)),
        )
        + member(
            "required"@,
            list_json(strings(s.required)),
        )
        + member(
            "additionalProperties"@,
            match s.additional_properties {
                Some(AdditionalModel::Bool(b)) => Some(ValueModel::Bool(b)),
                Some(AdditionalModel::Schema(inner)) => Some(schema_json(*inner)),
                None => None,
            },
        )
        + member(
            "minProperties"@,
            count_json(s.min_properties),
        )
        + member(
            "maxProperties"@,
            count_json(s.max_properties),
        )
        + member(
            "items"@,
            match s.items {
                Some(inner) => Some(schema_json(*inner)),
                None => None,
            },
        )
        + member(
            "prefixItems"@,
            list_json(schema_list(s.prefix_items)),
        )
        + member(
            "minItems"@,
            count_json(s.min_items),
        )
        + member(
            "maxItems"@,
            count_json(s.max_items),
        )
        + member(
            "uniqueItems"@,
            bool_json(s.unique_items),
        )
        + member(
            "minLength"@,
            count_json(s.min_length),
        )
        + member(
            "maxLength"@,
            count_json(s.max_length),
        )
        + member(
            "pattern"@,
            opt_text_json(s.pattern),
        )
        + member(
            "minimum"@,
            number_json(s.minimum),
        )
        + member(
            "maximum"@,
            number_json(s.maximum),
        )
        + member(
            "exclusiveMinimum"@,
            number_json(s.exclusive_minimum),
        )
        + member(
            "exclusiveMaximum"@,
            number_json(s.exclusive_maximum),
        )
        + member(
            "multipleOf"@,
            number_json(s.multiple_of),
        )
        + member(
            "enum"@,
            list_json(s.enum_values),
        )
        + member(
            "const"@,
            s.const_value,
        )
        + member(
            "oneOf"@,
            list_json(schema_list(s.one_of)),
        )
        + member(
            "anyOf"@,
            list_json(schema_list(s.any_of)),
        )
        + member(
            "allOf"@,
            list_json(schema_list(s.all_of)),
        )
        + member(
            "not"@,
            match s.not {
                Some(inner) => Some(schema_json(*inner)),
                None => None,
            },
        )
        + member(
            "discriminator"@,
            match s.discriminator {
                Some(d) => Some(d.json()),
                None => None,
            },
        )
        + s.extensions,
    )
}

impl SchemaType {
    pub fn to_json(&self) -> (out: Value)
        ensures
            out@ == self@.json(),
    {
        match self {
            SchemaType::Single(t) => Value::String(t.clone()),
            SchemaType::Multiple(list) => Value::Array(string_list(list)),
        }
    }
}

impl Discriminator {
    pub fn to_json(&self) -> (out: Value)
        ensures
            out@ == self@.json(),
    {
        let mut m: Vec<(String, Value)> = Vec::new();
        put(&mut m, "propertyName", from_text(&self.property_name));
        put(&mut m, "mapping", from_members(text_members(&self.mapping)));
        assert(spec::map_model(self.mapping@) =~= schema::texts_model(self.mapping));
        assert(json::members_model(m@) =~= member(
            "propertyName"@,
            text_json(self@.property_name),
        ) + member("mapping"@, map_json(string_members(self@.mapping))));
        Value::Object(m)
    }
}

/// Writes a list of schemas.
fn schema_values(list: &Vec<Schema>) -> (out: Vec<Value>)
    ensures
        json::list_model(out@) == schema_list(schema::list_model(list@)),
    decreases list,
{
    let mut out: Vec<Value> = Vec::new();
    let n: usize = list.len();
    for i in 0..n
        invariant
            n == list@.len(),
            out@.len() == i,
            forall|j: int| 0 <= j < i ==> (#[trigger] out@[j])@ == schema_json(list@[j]@),
    {
        proof {
            assert(decreases_to!(list => list@));
            assert(decreases_to!(list@ => list@[i as int]));
        }
        out.push(list[i].to_json());
    }
    let ghost models = schema::list_model(list@);
    proof {
        json::lemma_list_model(out@);
        schema::lemma_list_model(list@);
        assert forall|j: int| 0 <= j < out@.len() implies #[trigger] json::list_model(out@)[j]
            == schema_list(models)[j] by {
            assert(json::list_model(out@)[j] == out@[j]@);
            assert(models[j] == list@[j]@);
        }
    }
    assert(json::list_model(out@) =~= schema_list(models));
    out
}

/// Writes a map of schemas.
fn property_members(m: &SchemaMap) -> (out: Vec<(String, Value)>)
    ensures
        json::members_model(out@) == schema_members(schema::schemas_model(*m)),
    decreases m,
{
    let mut out: Vec<(String, Value)> = Vec::new();
    let n: usize = m.len();
    for i in 0..n
        invariant
            n == m@.len(),
            out@.len() == i,
            forall|j: int|
                0 <= j < i ==> (#[trigger] out@[j]).0@ == m@[j].0 && out@[j].1@ == schema_json(
                    m@[j].1@,
                ),
    {
        proof {
            schema_map::lemma_values_of(*m);
            assert(decreases_to!(schema_map::values_of(*m) => schema_map::values_of(*m)[i as int]));
        }
        out.push((m.key_at(i).to_owned(), m.value_at(i).to_json()));
    }
    let ghost models = schema::schemas_model(*m);
    proof {
        json::lemma_members_model(out@);
        schema::lemma_schemas_model(*m);
        assert forall|j: int| 0 <= j < out@.len() implies #[trigger] json::members_model(out@)[j]
            == schema_members(models)[j] by {
            assert(json::members_model(out@)[j] == (out@[j].0@, out@[j].1@));
            assert(models[j] == (m@[j].0, schema::schema_model(m@[j].1)));
        }
    }
    assert(json::members_model(out@) =~= schema_members(models));
    out
}

impl Schema {
    /// The schema as JSON. One without keywords is `{}`.
    pub fn to_json(&self) -> (out: Value)
        ensures
            out@ == schema_json(self@),
        decreases self,
    {
        let mut m: Vec<(String, Value)> = Vec::new();
        let v = from_opt_text(&self.reference);
        put(&mut m, "$ref", v);
        let v = match &self.schema_type {
                Some(t) => Some(t.to_json()),
                None => None,
            };
        put(&mut m, "type", v);
        let v = from_opt_text(&self.format);
        put(&mut m, "format", v);
        let v = from_opt_text(&self.title);
        put(&mut m, "title", v);
        let v = from_opt_text(&self.description);
        put(&mut m, "description", v);
        let v = from_value(&self.default);
        put(&mut m, "default", v);
        let v = from_list(json::copy_list(&self.examples));
        put(&mut m, "examples", v);
        let v = from_flag(self.deprecated);
        put(&mut m, "deprecated", v);
        let v = from_flag(self.read_only);
        put(&mut m, "readOnly", v);
        let v = from_flag(self.write_only);
        put(&mut m, "writeOnly", v);
        let v = from_members(property_members(&self.properties));
        put(&mut m, "properties", v);
        let v = from_texts(&self.required);
        put(&mut m, "required", v);
        let v = match &self.additional_properties {
                Some(AdditionalProperties::Bool(b)) => Some(Value::Bool(*b)),
                Some(AdditionalProperties::Schema(inner)) => Some(inner.to_json()),
                None => None,
            };
        put(&mut m, "additionalProperties", v);
        let v = from_count(self.min_properties);
        put(&mut m, "minProperties", v);
        let v = from_count(self.max_properties);
        put(&mut m, "maxProperties", v);
        let v = match &self.items {
                Some(inner) => Some(inner.to_json()),
                None => None,
            };
        put(&mut m, "items", v);
        let v = from_list(schema_values(&self.prefix_items));
        put(&mut m, "prefixItems", v);
        let v = from_count(self.min_items);
        put(&mut m, "minItems", v);
        let v = from_count(self.max_items);
        put(&mut m, "maxItems", v);
        let v = from_bool(self.unique_items);
        put(&mut m, "uniqueItems", v);
        let v = from_count(self.min_length);
        put(&mut m, "minLength", v);
        let v = from_count(self.max_length);
        put(&mut m, "maxLength", v);
        let v = from_opt_text(&self.pattern);
        put(&mut m, "pattern", v);
        let v = from_number(&self.minimum);
        put(&mut m, "minimum", v);
        let v = from_number(&self.maximum);
        put(&mut m, "maximum", v);
        let v = from_number(&self.exclusive_minimum);
        put(&mut m, "exclusiveMinimum", v);
        let v = from_number(&self.exclusive_maximum);
        put(&mut m, "exclusiveMaximum", v);
        let v = from_number(&self.multiple_of);
        put(&mut m, "multipleOf", v);
        let v = from_list(json::copy_list(&self.enum_values));
        put(&mut m, "enum", v);
        let v = from_value(&self.const_value);
        put(&mut m, "const", v);
        let v = from_list(schema_values(&self.one_of));
        put(&mut m, "oneOf", v);
        let v = from_list(schema_values(&self.any_of));
        put(&mut m, "anyOf", v);
        let v = from_list(schema_values(&self.all_of));
        put(&mut m, "allOf", v);
        let v = match &self.not {
                Some(inner) => Some(inner.to_json()),
                None => None,
            };
        put(&mut m, "not", v);
        let v = match &self.discriminator {
                Some(d) => Some(d.to_json()),
                None => None,
            };
        put(&mut m, "discriminator", v);
        flatten(&mut m, &self.extensions);
        Value::Object(m)
    }
}

// ---------------------------------------------------------------------------
// parts of a document
// ---------------------------------------------------------------------------

/// A part of a document that can be written as JSON.
pub trait ToJson: View {
    /// The part, written out.
    spec fn json(v: Self::V) -> ValueModel;

    fn to_json(&self) -> (out: Value)
        ensures
            out@ == Self::json(self@),
    ;
}

pub open spec fn opt_json<T: ToJson>(o: Option<T::V>) -> Option<ValueModel> {
    match o {
        Some(x) => Some(T::json(x)),
        None => None,
    }
}

pub open spec fn items<T: ToJson>(list: Seq<T::V>) -> Seq<ValueModel> {
    list.map_values(|x: T::V| T::json(x))
}

pub open spec fn entries<T: ToJson>(list: Seq<(Seq<char>, T::V)>) -> Members {
    list.map_values(|e: (Seq<char>, T::V)| (e.0, T::json(e.1)))
}

fn from_opt<T: ToJson>(o: &Option<T>) -> (out: Option<Value>)
    ensures
        schema::value(out) == opt_json::<T>(spec::opt_model(*o)),
{
    match o {
        Some(x) => Some(x.to_json()),
        None => None,
    }
}

fn from_items<T: ToJson>(list: &Vec<T>) -> (out: Option<Value>)
    ensures
        schema::value(out) == list_json(items::<T>(spec::seq_model(list@))),
{
    let mut out: Vec<Value> = Vec::new();
    for i in 0..list.len()
        invariant
            out@.len() == i,
            forall|j: int| 0 <= j < i ==> (#[trigger] out@[j])@ == T::json(list@[j]@),
    {
        out.push(list[i].to_json());
    }
    let ghost expected = items::<T>(spec::seq_model(list@));
    proof {
        json::lemma_list_model(out@);
        assert forall|j: int| 0 <= j < out@.len() implies #[trigger] json::list_model(out@)[j]
            == expected[j] by {
            assert(json::list_model(out@)[j] == out@[j]@);
        }
    }
    assert(json::list_model(out@) =~= expected);
    from_list(out)
}

fn from_entries<T: ToJson>(m: &OrderedMap<T>) -> (out: Option<Value>)
    ensures
        schema::value(out) == map_json(entries::<T>(spec::map_model(m@))),
{
    let mut out: Vec<(String, Value)> = Vec::new();
    let n: usize = m.len();
    for i in 0..n
        invariant
            n == m@.len(),
            out@.len() == i,
            forall|j: int|
                0 <= j < i ==> (#[trigger] out@[j]).0@ == m@[j].0 && out@[j].1@ == T::json(
                    m@[j].1@,
                ),
    {
        out.push((m.key_at(i).to_owned(), m.value_at(i).to_json()));
    }
    let ghost expected = entries::<T>(spec::map_model(m@));
    proof {
        json::lemma_members_model(out@);
        assert forall|j: int| 0 <= j < out@.len() implies #[trigger] json::members_model(out@)[j]
            == expected[j] by {
            assert(json::members_model(out@)[j] == (out@[j].0@, out@[j].1@));
        }
    }
    assert(json::members_model(out@) =~= expected);
    from_members(out)
}

impl ToJson for Schema {
    open spec fn json(v: SchemaModel) -> ValueModel {
        schema_json(v)
    }

    fn to_json(&self) -> Value {
        Schema::to_json(self)
    }
}

/// The name of a place a parameter is carried in.
pub open spec fn parameter_in(location: ParameterIn) -> Seq<char> {
    match location {
        ParameterIn::Query => "query"@,
        ParameterIn::Header => "header"@,
        ParameterIn::Path => "path"@,
        ParameterIn::Cookie => "cookie"@,
    }
}

fn parameter_place(location: ParameterIn) -> (out: String)
    ensures
        out@ == parameter_in(location),
{
    match location {
        ParameterIn::Query => "query".to_owned(),
        ParameterIn::Header => "header".to_owned(),
        ParameterIn::Path => "path".to_owned(),
        ParameterIn::Cookie => "cookie".to_owned(),
    }
}

/// The name of a place an API key is carried in.
pub open spec fn key_in(location: ApiKeyLocation) -> Seq<char> {
    match location {
        ApiKeyLocation::Query => "query"@,
        ApiKeyLocation::Header => "header"@,
        ApiKeyLocation::Cookie => "cookie"@,
    }
}

fn key_place(location: ApiKeyLocation) -> (out: String)
    ensures
        out@ == key_in(location),
{
    match location {
        ApiKeyLocation::Query => "query".to_owned(),
        ApiKeyLocation::Header => "header".to_owned(),
        ApiKeyLocation::Cookie => "cookie".to_owned(),
    }
}

/// A security requirement, written out.
pub open spec fn requirement_json(r: RequirementModel) -> ValueModel {
    ValueModel::Object(
        r.map_values(|e: (Seq<char>, Seq<Seq<char>>)| (e.0, ValueModel::Array(strings(e.1)))),
    )
}

pub open spec fn requirements_json(list: Seq<RequirementModel>) -> Seq<ValueModel> {
    list.map_values(|r: RequirementModel| requirement_json(r))
}

fn write_requirement(r: &SecurityRequirement) -> (out: Value)
    ensures
        out@ == requirement_json(spec::requirement(r@)),
{
    let mut out: Vec<(String, Value)> = Vec::new();
    let n: usize = r.len();
    for i in 0..n
        invariant
            n == r@.len(),
            out@.len() == i,
            forall|j: int|
                0 <= j < i ==> (#[trigger] out@[j]).0@ == r@[j].0 && out@[j].1@
                    == ValueModel::Array(strings(text::views(r@[j].1@))),
    {
        out.push((r.key_at(i).to_owned(), Value::Array(string_list(r.value_at(i)))));
    }
    let ghost expected = requirement_json(spec::requirement(r@))->Object_0;
    proof {
        json::lemma_members_model(out@);
        assert forall|j: int| 0 <= j < out@.len() implies #[trigger] json::members_model(out@)[j]
            == expected[j] by {
            assert(json::members_model(out@)[j] == (out@[j].0@, out@[j].1@));
        }
    }
    assert(json::members_model(out@) =~= expected);
    Value::Object(out)
}

fn requirement_values(list: &Vec<SecurityRequirement>) -> (out: Vec<Value>)
    ensures
        json::list_model(out@) == requirements_json(spec::requirement_list(list@)),
{
    let mut out: Vec<Value> = Vec::new();
    for i in 0..list.len()
        invariant
            out@.len() == i,
            forall|j: int|
                0 <= j < i ==> (#[trigger] out@[j])@ == requirement_json(
                    spec::requirement(list@[j]@),
                ),
    {
        out.push(write_requirement(&list[i]));
    }
    let ghost expected = requirements_json(spec::requirement_list(list@));
    proof {
        json::lemma_list_model(out@);
        assert forall|j: int| 0 <= j < out@.len() implies #[trigger] json::list_model(out@)[j]
            == expected[j] by {
            assert(json::list_model(out@)[j] == out@[j]@);
        }
    }
    assert(json::list_model(out@) =~= expected);
    out
}

impl ToJson for ExternalDocs {
    open spec fn json(v: ExternalDocsModel) -> ValueModel {
        ValueModel::Object(
            Seq::<(Seq<char>, ValueModel)>::empty() + member(
                "url"@,
                text_json(v.url),
            ) + member(
                "description"@,
                opt_text_json(v.description),
            ),
        )
    }

    fn to_json(&self) -> Value {
        let mut m: Vec<(String, Value)> = Vec::new();
        put(&mut m, "url", from_text(&self.url));
        put(&mut m, "description", from_opt_text(&self.description));
        Value::Object(m)
    }
}

impl ToJson for Contact {
    open spec fn json(v: ContactModel) -> ValueModel {
        ValueModel::Object(
            Seq::<(Seq<char>, ValueModel)>::empty() + member(
                "name"@,
                opt_text_json(v.name),
            ) + member(
                "url"@,
                opt_text_json(v.url),
            ) + member(
                "email"@,
                opt_text_json(v.email),
            ),
        )
    }

    fn to_json(&self) -> Value {
        let mut m: Vec<(String, Value)> = Vec::new();
        put(&mut m, "name", from_opt_text(&self.name));
        put(&mut m, "url", from_opt_text(&self.url));
        put(&mut m, "email", from_opt_text(&self.email));
        Value::Object(m)
    }
}

impl ToJson for License {
    open spec fn json(v: LicenseModel) -> ValueModel {
        ValueModel::Object(
            Seq::<(Seq<char>, ValueModel)>::empty() + member(
                "name"@,
                text_json(v.name),
            ) + member(
                "identifier"@,
                opt_text_json(v.identifier),
            ) + member(
                "url"@,
                opt_text_json(v.url),
            ),
        )
    }

    fn to_json(&self) -> Value {
        let mut m: Vec<(String, Value)> = Vec::new();
        put(&mut m, "name", from_text(&self.name));
        put(&mut m, "identifier", from_opt_text(&self.identifier));
        put(&mut m, "url", from_opt_text(&self.url));
        Value::Object(m)
    }
}

impl ToJson for ServerVariable {
    open spec fn json(v: ServerVariableModel) -> ValueModel {
        ValueModel::Object(
            Seq::<(Seq<char>, ValueModel)>::empty() + member(
                "enum"@,
                list_json(strings(v.enum_values)),
            ) + member(
                "default"@,
                text_json(v.default),
            ) + member(
                "description"@,
                opt_text_json(v.description),
            ),
        )
    }

    fn to_json(&self) -> Value {
        let mut m: Vec<(String, Value)> = Vec::new();
        put(&mut m, "enum", from_texts(&self.enum_values));
        put(&mut m, "default", from_text(&self.default));
        put(&mut m, "description", from_opt_text(&self.description));
        Value::Object(m)
    }
}

impl ToJson for Server {
    open spec fn json(v: ServerModel) -> ValueModel {
        ValueModel::Object(
            Seq::<(Seq<char>, ValueModel)>::empty() + member(
                "url"@,
                text_json(v.url),
            ) + member(
                "description"@,
                opt_text_json(v.description),
            ) + member(
                "variables"@,
                map_json(entries::<ServerVariable>(v.variables)),
            ),
        )
    }

    fn to_json(&self) -> Value {
        let mut m: Vec<(String, Value)> = Vec::new();
        put(&mut m, "url", from_text(&self.url));
        put(&mut m, "description", from_opt_text(&self.description));
        put(&mut m, "variables", from_entries(&self.variables));
        Value::Object(m)
    }
}

impl ToJson for Tag {
    open spec fn json(v: TagModel) -> ValueModel {
        ValueModel::Object(
            Seq::<(Seq<char>, ValueModel)>::empty() + member(
                "name"@,
                text_json(v.name),
            ) + member(
                "description"@,
                opt_text_json(v.description),
            ) + member(
                "externalDocs"@,
                opt_json::<ExternalDocs>(v.external_docs),
            ),
        )
    }

    fn to_json(&self) -> Value {
        let mut m: Vec<(String, Value)> = Vec::new();
        put(&mut m, "name", from_text(&self.name));
        put(&mut m, "description", from_opt_text(&self.description));
        put(&mut m, "externalDocs", from_opt(&self.external_docs));
        Value::Object(m)
    }
}

impl ToJson for Info {
    open spec fn json(v: InfoModel) -> ValueModel {
        ValueModel::Object(
            Seq::<(Seq<char>, ValueModel)>::empty() + member(
                "title"@,
                text_json(v.title),
            ) + member(
                "summary"@,
                opt_text_json(v.summary),
            ) + member(
                "description"@,
                opt_text_json(v.description),
            ) + member(
                "termsOfService"@,
                opt_text_json(v.terms_of_service),
            ) + member(
                "contact"@,
                opt_json::<Contact>(v.contact),
            ) + member(
                "license"@,
                opt_json::<License>(v.license),
            ) + member(
                "version"@,
                text_json(v.version),
            ),
        )
    }

    fn to_json(&self) -> Value {
        let mut m: Vec<(String, Value)> = Vec::new();
        put(&mut m, "title", from_text(&self.title));
        put(&mut m, "summary", from_opt_text(&self.summary));
        put(&mut m, "description", from_opt_text(&self.description));
        put(&mut m, "termsOfService", from_opt_text(&self.terms_of_service));
        put(&mut m, "contact", from_opt(&self.contact));
        put(&mut m, "license", from_opt(&self.license));
        put(&mut m, "version", from_text(&self.version));
        Value::Object(m)
    }
}

impl ToJson for Example {
    open spec fn json(v: ExampleModel) -> ValueModel {
        ValueModel::Object(
            Seq::<(Seq<char>, ValueModel)>::empty() + member(
                "summary"@,
                opt_text_json(v.summary),
            ) + member(
                "description"@,
                opt_text_json(v.description),
            ) + member(
                "value"@,
                v.value,
            ),
        )
    }

    fn to_json(&self) -> Value {
        let mut m: Vec<(String, Value)> = Vec::new();
        put(&mut m, "summary", from_opt_text(&self.summary));
        put(&mut m, "description", from_opt_text(&self.description));
        put(&mut m, "value", from_value(&self.value));
        Value::Object(m)
    }
}

impl ToJson for Encoding {
    open spec fn json(v: EncodingModel) -> ValueModel {
        ValueModel::Object(
            Seq::<(Seq<char>, ValueModel)>::empty() + member(
                "contentType"@,
                opt_text_json(v.content_type),
            ) + member(
                "explode"@,
                bool_json(v.explode),
            ),
        )
    }

    fn to_json(&self) -> Value {
        let mut m: Vec<(String, Value)> = Vec::new();
        put(&mut m, "contentType", from_opt_text(&self.content_type));
        put(&mut m, "explode", from_bool(self.explode));
        Value::Object(m)
    }
}

impl ToJson for MediaType {
    open spec fn json(v: MediaTypeModel) -> ValueModel {
        ValueModel::Object(
            Seq::<(Seq<char>, ValueModel)>::empty() + member(
                "schema"@,
                opt_json::<Schema>(v.schema),
            ) + member(
                "examples"@,
                map_json(entries::<Example>(v.examples)),
            ) + member(
                "encoding"@,
                map_json(entries::<Encoding>(v.encoding)),
            ),
        )
    }

    fn to_json(&self) -> Value {
        let mut m: Vec<(String, Value)> = Vec::new();
        put(&mut m, "schema", from_opt(&self.schema));
        put(&mut m, "examples", from_entries(&self.examples));
        put(&mut m, "encoding", from_entries(&self.encoding));
        Value::Object(m)
    }
}

impl ToJson for Header {
    open spec fn json(v: HeaderModel) -> ValueModel {
        ValueModel::Object(
            Seq::<(Seq<char>, ValueModel)>::empty() + member(
                "description"@,
                opt_text_json(v.description),
            ) + member(
                "required"@,
                flag_json(v.required),
            ) + member(
                "schema"@,
                opt_json::<Schema>(v.schema),
            ),
        )
    }

    fn to_json(&self) -> Value {
        let mut m: Vec<(String, Value)> = Vec::new();
        put(&mut m, "description", from_opt_text(&self.description));
        put(&mut m, "required", from_flag(self.required));
        put(&mut m, "schema", from_opt(&self.schema));
        Value::Object(m)
    }
}

impl ToJson for Link {
    open spec fn json(v: LinkModel) -> ValueModel {
        ValueModel::Object(
            Seq::<(Seq<char>, ValueModel)>::empty() + member(
                "operationId"@,
                opt_text_json(v.operation_id),
            ) + member(
                "parameters"@,
                map_json(v.parameters),
            ) + member(
                "description"@,
                opt_text_json(v.description),
            ),
        )
    }

    fn to_json(&self) -> Value {
        let mut m: Vec<(String, Value)> = Vec::new();
        put(&mut m, "operationId", from_opt_text(&self.operation_id));
        put(&mut m, "parameters", from_members(value_members(&self.parameters)));
        put(&mut m, "description", from_opt_text(&self.description));
        Value::Object(m)
    }
}

impl ToJson for Response {
    open spec fn json(v: ResponseModel) -> ValueModel {
        ValueModel::Object(
            Seq::<(Seq<char>, ValueModel)>::empty() + member(
                "description"@,
                text_json(v.description),
            ) + member(
                "headers"@,
                map_json(entries::<Header>(v.headers)),
            ) + member(
                "content"@,
                map_json(entries::<MediaType>(v.content)),
            ) + member(
                "links"@,
                map_json(entries::<Link>(v.links)),
            ),
        )
    }

    fn to_json(&self) -> Value {
        let mut m: Vec<(String, Value)> = Vec::new();
        put(&mut m, "description", from_text(&self.description));
        put(&mut m, "headers", from_entries(&self.headers));
        put(&mut m, "content", from_entries(&self.content));
        put(&mut m, "links", from_entries(&self.links));
        Value::Object(m)
    }
}

impl ToJson for RequestBody {
    open spec fn json(v: RequestBodyModel) -> ValueModel {
        ValueModel::Object(
            Seq::<(Seq<char>, ValueModel)>::empty() + member(
                "description"@,
                opt_text_json(v.description),
            ) + member(
                "content"@,
                map_json(entries::<MediaType>(v.content)),
            ) + member(
                "required"@,
                flag_json(v.required),
            ),
        )
    }

    fn to_json(&self) -> Value {
        let mut m: Vec<(String, Value)> = Vec::new();
        put(&mut m, "description", from_opt_text(&self.description));
        put(&mut m, "content", from_entries(&self.content));
        put(&mut m, "required", from_flag(self.required));
        Value::Object(m)
    }
}

impl ToJson for Parameter {
    open spec fn json(v: ParameterModel) -> ValueModel {
        ValueModel::Object(
            Seq::<(Seq<char>, ValueModel)>::empty() + member(
                "name"@,
                text_json(v.name),
            ) + member(
                "in"@,
                text_json(parameter_in(v.location)),
            ) + member(
                "description"@,
                opt_text_json(v.description),
            ) + member(
                "required"@,
                flag_json(v.required),
            ) + member(
                "deprecated"@,
                flag_json(v.deprecated),
            ) + member(
                "style"@,
                opt_text_json(v.style),
            ) + member(
                "explode"@,
                bool_json(v.explode),
            ) + member(
                "schema"@,
                opt_json::<Schema>(v.schema),
            ) + member(
                "examples"@,
                map_json(entries::<Example>(v.examples)),
            ),
        )
    }

    fn to_json(&self) -> Value {
        let mut m: Vec<(String, Value)> = Vec::new();
        put(&mut m, "name", from_text(&self.name));
        put(&mut m, "in", Some(Value::String(parameter_place(self.location))));
        put(&mut m, "description", from_opt_text(&self.description));
        put(&mut m, "required", from_flag(self.required));
        put(&mut m, "deprecated", from_flag(self.deprecated));
        put(&mut m, "style", from_opt_text(&self.style));
        put(&mut m, "explode", from_bool(self.explode));
        put(&mut m, "schema", from_opt(&self.schema));
        put(&mut m, "examples", from_entries(&self.examples));
        Value::Object(m)
    }
}

impl ToJson for OAuthFlow {
    open spec fn json(v: OAuthFlowModel) -> ValueModel {
        ValueModel::Object(
            Seq::<(Seq<char>, ValueModel)>::empty() + member(
                "authorizationUrl"@,
                opt_text_json(v.authorization_url),
            ) + member(
                "tokenUrl"@,
                opt_text_json(v.token_url),
            ) + member(
                "refreshUrl"@,
                opt_text_json(v.refresh_url),
            ) + member(
                "scopes"@,
                Some(ValueModel::Object(string_members(v.scopes))),
            ),
        )
    }

    fn to_json(&self) -> Value {
        let mut m: Vec<(String, Value)> = Vec::new();
        put(&mut m, "authorizationUrl", from_opt_text(&self.authorization_url));
        put(&mut m, "tokenUrl", from_opt_text(&self.token_url));
        put(&mut m, "refreshUrl", from_opt_text(&self.refresh_url));
        put(&mut m, "scopes", Some(Value::Object(text_members(&self.scopes))));
        Value::Object(m)
    }
}

impl ToJson for OAuthFlows {
    open spec fn json(v: OAuthFlowsModel) -> ValueModel {
        ValueModel::Object(
            Seq::<(Seq<char>, ValueModel)>::empty() + member(
                "implicit"@,
                opt_json::<OAuthFlow>(v.implicit),
            ) + member(
                "password"@,
                opt_json::<OAuthFlow>(v.password),
            ) + member(
                "clientCredentials"@,
                opt_json::<OAuthFlow>(v.client_credentials),
            ) + member(
                "authorizationCode"@,
                opt_json::<OAuthFlow>(v.authorization_code),
            ),
        )
    }

    fn to_json(&self) -> Value {
        let mut m: Vec<(String, Value)> = Vec::new();
        put(&mut m, "implicit", from_opt(&self.implicit));
        put(&mut m, "password", from_opt(&self.password));
        put(&mut m, "clientCredentials", from_opt(&self.client_credentials));
        put(&mut m, "authorizationCode", from_opt(&self.authorization_code));
        Value::Object(m)
    }
}

impl ToJson for SecurityScheme {
    open spec fn json(v: SecuritySchemeModel) -> ValueModel {
        ValueModel::Object(
            match v {
                SecuritySchemeModel::ApiKey { name, location, description } => member(
                    "type"@,
                    text_json("apiKey"@),
                ) + member("name"@, text_json(name)) + member("in"@, text_json(key_in(location)))
                    + member("description"@, opt_text_json(description)),
                SecuritySchemeModel::Http { scheme, bearer_format, description } => member(
                    "type"@,
                    text_json("http"@),
                ) + member("scheme"@, text_json(scheme)) + member(
                    "bearerFormat"@,
                    opt_text_json(bearer_format),
                ) + member("description"@, opt_text_json(description)),
                SecuritySchemeModel::OAuth2 { flows, description } => member(
                    "type"@,
                    text_json("oauth2"@),
                ) + member("flows"@, Some(OAuthFlows::json(flows))) + member(
                    "description"@,
                    opt_text_json(description),
                ),
                SecuritySchemeModel::OpenIdConnect { open_id_connect_url, description } => member(
                    "type"@,
                    text_json("openIdConnect"@),
                ) + member("openIdConnectUrl"@, text_json(open_id_connect_url)) + member(
                    "description"@,
                    opt_text_json(description),
                ),
                SecuritySchemeModel::MutualTls { description } => member(
                    "type"@,
                    text_json("mutualTLS"@),
                ) + member("description"@, opt_text_json(description)),
            },
        )
    }

    fn to_json(&self) -> Value {
        let mut m: Vec<(String, Value)> = Vec::new();
        assert(json::members_model(m@) =~= Seq::empty());
        match self {
            SecurityScheme::ApiKey { name, location, description } => {
                put(&mut m, "type", Some(Value::String("apiKey".to_owned())));
                assert(json::members_model(m@) =~= member("type"@, text_json("apiKey"@)));
                put(&mut m, "name", from_text(name));
                put(&mut m, "in", Some(Value::String(key_place(*location))));
                put(&mut m, "description", from_opt_text(description));
            },
            SecurityScheme::Http { scheme, bearer_format, description } => {
                put(&mut m, "type", Some(Value::String("http".to_owned())));
                assert(json::members_model(m@) =~= member("type"@, text_json("http"@)));
                put(&mut m, "scheme", from_text(scheme));
                put(&mut m, "bearerFormat", from_opt_text(bearer_format));
                put(&mut m, "description", from_opt_text(description));
            },
            SecurityScheme::OAuth2 { flows, description } => {
                put(&mut m, "type", Some(Value::String("oauth2".to_owned())));
                assert(json::members_model(m@) =~= member("type"@, text_json("oauth2"@)));
                put(&mut m, "flows", Some((**flows).to_json()));
                put(&mut m, "description", from_opt_text(description));
            },
            SecurityScheme::OpenIdConnect { open_id_connect_url, description } => {
                put(&mut m, "type", Some(Value::String("openIdConnect".to_owned())));
                assert(json::members_model(m@) =~= member("type"@, text_json("openIdConnect"@)));
                put(&mut m, "openIdConnectUrl", from_text(open_id_connect_url));
                put(&mut m, "description", from_opt_text(description));
            },
            SecurityScheme::MutualTls { description } => {
                put(&mut m, "type", Some(Value::String("mutualTLS".to_owned())));
                assert(json::members_model(m@) =~= member("type"@, text_json("mutualTLS"@)));
                put(&mut m, "description", from_opt_text(description));
            },
        }
        Value::Object(m)
    }
}

impl ToJson for Components {
    open spec fn json(v: ComponentsModel) -> ValueModel {
        ValueModel::Object(
            Seq::<(Seq<char>, ValueModel)>::empty() + member(
                "schemas"@,
                map_json(schema_members(v.schemas)),
            ) + member(
                "responses"@,
                map_json(entries::<Response>(v.responses)),
            ) + member(
                "parameters"@,
                map_json(entries::<Parameter>(v.parameters)),
            ) + member(
                "examples"@,
                map_json(entries::<Example>(v.examples)),
            ) + member(
                "requestBodies"@,
                map_json(entries::<RequestBody>(v.request_bodies)),
            ) + member(
                "headers"@,
                map_json(entries::<Header>(v.headers)),
            ) + member(
                "securitySchemes"@,
                map_json(entries::<SecurityScheme>(v.security_schemes)),
            ),
        )
    }

    fn to_json(&self) -> Value {
        let mut m: Vec<(String, Value)> = Vec::new();
        put(&mut m, "schemas", from_members(property_members(&self.schemas)));
        put(&mut m, "responses", from_entries(&self.responses));
        put(&mut m, "parameters", from_entries(&self.parameters));
        put(&mut m, "examples", from_entries(&self.examples));
        put(&mut m, "requestBodies", from_entries(&self.request_bodies));
        put(&mut m, "headers", from_entries(&self.headers));
        put(&mut m, "securitySchemes", from_entries(&self.security_schemes));
        Value::Object(m)
    }
}

/// An operation, written out.
pub open spec fn operation_json(v: OperationModel) -> ValueModel
    decreases v,
{
    ValueModel::Object(
        Seq::<(Seq<char>, ValueModel)>::empty() + member(
            "tags"@,
            list_json(strings(v.tags)),
        ) + member(
            "summary"@,
            opt_text_json(v.summary),
        ) + member(
            "description"@,
            opt_text_json(v.description),
        ) + member(
            "externalDocs"@,
            opt_json::<ExternalDocs>(v.external_docs),
        ) + member(
            "operationId"@,
            opt_text_json(v.operation_id),
        ) + member(
            "parameters"@,
            list_json(items::<Parameter>(v.parameters)),
        ) + member(
            "requestBody"@,
            opt_json::<RequestBody>(v.request_body),
        ) + member(
            "responses"@,
            map_json(entries::<Response>(v.responses)),
        ) + member(
            "callbacks"@,
            map_json(callbacks_json(v.callbacks)),
        ) + member(
            "deprecated"@,
            flag_json(v.deprecated),
        ) + member(
            "security"@,
            match v.security {
                Some(list) => Some(ValueModel::Array(requirements_json(list))),
                None => None,
            },
        ) + member(
            "servers"@,
            list_json(items::<Server>(v.servers)),
        ) + v.extensions,
    )
}

/// The operations of a path, written out.
pub open spec fn path_item_json(v: PathItemModel) -> ValueModel
    decreases v,
{
    ValueModel::Object(
        Seq::<(Seq<char>, ValueModel)>::empty() + member(
            "summary"@,
            opt_text_json(v.summary),
        ) + member(
            "description"@,
            opt_text_json(v.description),
        ) + member(
            "get"@,
            match v.get {
                Some(o) => Some(operation_json(o)),
                None => None,
            },
        ) + member(
            "put"@,
            match v.put {
                Some(o) => Some(operation_json(o)),
                None => None,
            },
        ) + member(
            "post"@,
            match v.post {
                Some(o) => Some(operation_json(o)),
                None => None,
            },
        ) + member(
            "delete"@,
            match v.delete {
                Some(o) => Some(operation_json(o)),
                None => None,
            },
        ) + member(
            "options"@,
            match v.options {
                Some(o) => Some(operation_json(o)),
                None => None,
            },
        ) + member(
            "head"@,
            match v.head {
                Some(o) => Some(operation_json(o)),
                None => None,
            },
        ) + member(
            "patch"@,
            match v.patch {
                Some(o) => Some(operation_json(o)),
                None => None,
            },
        ) + member(
            "trace"@,
            match v.trace {
                Some(o) => Some(operation_json(o)),
                None => None,
            },
        ) + member(
            "servers"@,
            list_json(items::<Server>(v.servers)),
        ) + member(
            "parameters"@,
            list_json(items::<Parameter>(v.parameters)),
        ),
    )
}

/// The paths of a callback, written out.
pub open spec fn path_items_json(list: Seq<(Seq<char>, PathItemModel)>) -> Members
    decreases list,
{
    Seq::new(
        list.len(),
        |i: int|
            if 0 <= i < list.len() {
                (list[i].0, path_item_json(list[i].1))
            } else {
                (Seq::empty(), ValueModel::Null)
            },
    )
}

/// The callbacks of an operation, written out.
pub open spec fn callbacks_json(
    list: Seq<(Seq<char>, Seq<(Seq<char>, PathItemModel)>)>,
) -> Members
    decreases list,
{
    Seq::new(
        list.len(),
        |i: int|
            if 0 <= i < list.len() {
                (list[i].0, ValueModel::Object(path_items_json(list[i].1)))
            } else {
                (Seq::empty(), ValueModel::Null)
            },
    )
}

fn write_operation(o: &Operation) -> (out: Value)
    ensures
        out@ == operation_json(o@),
    decreases o,
{
    let mut m: Vec<(String, Value)> = Vec::new();
    let v = from_texts(&o.tags);
    put(&mut m, "tags", v);
    let v = from_opt_text(&o.summary);
    put(&mut m, "summary", v);
    let v = from_opt_text(&o.description);
    put(&mut m, "description", v);
    let v = from_opt(&o.external_docs);
    put(&mut m, "externalDocs", v);
    let v = from_opt_text(&o.operation_id);
    put(&mut m, "operationId", v);
    let v = from_items(&o.parameters);
    put(&mut m, "parameters", v);
    let v = from_opt(&o.request_body);
    put(&mut m, "requestBody", v);
    let v = from_entries(&o.responses);
    put(&mut m, "responses", v);
    put(&mut m, "callbacks", from_members(callback_members(&o.callbacks)));
    let v = from_flag(o.deprecated);
    put(&mut m, "deprecated", v);
    let v = match &o.security {
                Some(list) => Some(Value::Array(requirement_values(list))),
                None => None,
            };
    put(&mut m, "security", v);
    let v = from_items(&o.servers);
    put(&mut m, "servers", v);
    flatten(&mut m, &o.extensions);
    Value::Object(m)
}

fn write_path_item(p: &PathItem) -> (out: Value)
    ensures
        out@ == path_item_json(p@),
    decreases p,
{
    let mut m: Vec<(String, Value)> = Vec::new();
    let v = from_opt_text(&p.summary);
    put(&mut m, "summary", v);
    let v = from_opt_text(&p.description);
    put(&mut m, "description", v);
    let v = match &p.get {
        Some(o) => Some(write_operation(o)),
        None => None,
    };
    put(&mut m, "get", v);
    let v = match &p.put {
        Some(o) => Some(write_operation(o)),
        None => None,
    };
    put(&mut m, "put", v);
    let v = match &p.post {
        Some(o) => Some(write_operation(o)),
        None => None,
    };
    put(&mut m, "post", v);
    let v = match &p.delete {
        Some(o) => Some(write_operation(o)),
        None => None,
    };
    put(&mut m, "delete", v);
    let v = match &p.options {
        Some(o) => Some(write_operation(o)),
        None => None,
    };
    put(&mut m, "options", v);
    let v = match &p.head {
        Some(o) => Some(write_operation(o)),
        None => None,
    };
    put(&mut m, "head", v);
    let v = match &p.patch {
        Some(o) => Some(write_operation(o)),
        None => None,
    };
    put(&mut m, "patch", v);
    let v = match &p.trace {
        Some(o) => Some(write_operation(o)),
        None => None,
    };
    put(&mut m, "trace", v);
    let v = from_items(&p.servers);
    put(&mut m, "servers", v);
    let v = from_items(&p.parameters);
    put(&mut m, "parameters", v);
    Value::Object(m)
}

fn path_item_members(list: &Vec<(String, PathItem)>) -> (out: Vec<(String, Value)>)
    ensures
        json::members_model(out@) == path_items_json(spec::path_items_model(list@)),
    decreases list,
{
    let mut out: Vec<(String, Value)> = Vec::new();
    let n: usize = list.len();
    for i in 0..n
        invariant
            n == list@.len(),
            out@.len() == i,
            forall|j: int|
                0 <= j < i ==> (#[trigger] out@[j]).0@ == list@[j].0@ && out@[j].1@
                    == path_item_json(list@[j].1@),
    {
        proof {
            assert(decreases_to!(list => list@));
            assert(decreases_to!(list@ => list@[i as int]));
            assert(decreases_to!(list@[i as int] => list@[i as int].1));
        }
        out.push((list[i].0.clone(), write_path_item(&list[i].1)));
    }
    let ghost models = spec::path_items_model(list@);
    proof {
        json::lemma_members_model(out@);
        assert forall|j: int| 0 <= j < out@.len() implies #[trigger] json::members_model(out@)[j]
            == path_items_json(models)[j] by {
            assert(json::members_model(out@)[j] == (out@[j].0@, out@[j].1@));
        }
    }
    assert(json::members_model(out@) =~= path_items_json(models));
    out
}

fn callback_members(list: &Vec<(String, Vec<(String, PathItem)>)>) -> (out: Vec<(String, Value)>)
    ensures
        json::members_model(out@) == callbacks_json(spec::callbacks_model(list@)),
    decreases list,
{
    let mut out: Vec<(String, Value)> = Vec::new();
    let n: usize = list.len();
    for i in 0..n
        invariant
            n == list@.len(),
            out@.len() == i,
            forall|j: int|
                0 <= j < i ==> (#[trigger] out@[j]).0@ == list@[j].0@ && out@[j].1@
                    == ValueModel::Object(path_items_json(spec::path_items_model(list@[j].1@))),
    {
        proof {
            assert(decreases_to!(list => list@));
            assert(decreases_to!(list@ => list@[i as int]));
            assert(decreases_to!(list@[i as int] => list@[i as int].1));
        }
        out.push((list[i].0.clone(), Value::Object(path_item_members(&list[i].1))));
    }
    let ghost models = spec::callbacks_model(list@);
    proof {
        json::lemma_members_model(out@);
        assert forall|j: int| 0 <= j < out@.len() implies #[trigger] json::members_model(out@)[j]
            == callbacks_json(models)[j] by {
            assert(json::members_model(out@)[j] == (out@[j].0@, out@[j].1@));
        }
    }
    assert(json::members_model(out@) =~= callbacks_json(models));
    out
}

impl ToJson for Operation {
    open spec fn json(v: OperationModel) -> ValueModel {
        operation_json(v)
    }

    fn to_json(&self) -> Value {
        write_operation(self)
    }
}

impl ToJson for PathItem {
    open spec fn json(v: PathItemModel) -> ValueModel {
        path_item_json(v)
    }

    fn to_json(&self) -> Value {
        write_path_item(self)
    }
}

/// The reusable parts are written only when there are any.
pub open spec fn components_json(c: ComponentsModel) -> Option<ValueModel> {
    if c == ComponentsModel::empty() {
        None
    } else {
        Some(Components::json(c))
    }
}

fn from_components(c: &Components) -> (out: Option<Value>)
    ensures
        schema::value(out) == components_json(c@),
{
    if c.is_empty() {
        None
    } else {
        Some(c.to_json())
    }
}

impl ToJson for OpenApi {
    open spec fn json(v: OpenApiModel) -> ValueModel {
        ValueModel::Object(
            Seq::<(Seq<char>, ValueModel)>::empty() + member(
                "openapi"@,
                text_json(v.openapi),
            ) + member(
                "info"@,
                Some(Info::json(v.info)),
            ) + member(
                "jsonSchemaDialect"@,
                opt_text_json(v.json_schema_dialect),
            ) + member(
                "servers"@,
                list_json(items::<Server>(v.servers)),
            ) + member(
                "paths"@,
                map_json(entries::<PathItem>(v.paths)),
            ) + member(
                "webhooks"@,
                map_json(entries::<PathItem>(v.webhooks)),
            ) + member(
                "components"@,
                components_json(v.components),
            ) + member(
                "security"@,
                list_json(requirements_json(v.security)),
            ) + member(
                "tags"@,
                list_json(items::<Tag>(v.tags)),
            ) + member(
                "externalDocs"@,
                opt_json::<ExternalDocs>(v.external_docs),
            )
            + v.extensions,
        )
    }

    fn to_json(&self) -> Value {
        let mut m: Vec<(String, Value)> = Vec::new();
        put(&mut m, "openapi", from_text(&self.openapi));
        put(&mut m, "info", Some(self.info.to_json()));
        put(&mut m, "jsonSchemaDialect", from_opt_text(&self.json_schema_dialect));
        put(&mut m, "servers", from_items(&self.servers));
        put(&mut m, "paths", from_entries(&self.paths));
        put(&mut m, "webhooks", from_entries(&self.webhooks));
        put(&mut m, "components", from_components(&self.components));
        put(&mut m, "security", from_list(requirement_values(&self.security)));
        put(&mut m, "tags", from_items(&self.tags));
        put(&mut m, "externalDocs", from_opt(&self.external_docs));
        flatten(&mut m, &self.extensions);
        Value::Object(m)
    }
}

// ---------------------------------------------------------------------------
// laws
// ---------------------------------------------------------------------------

/// The schema without keywords is written `{}`, which accepts anything.
pub proof fn the_schema_without_keywords_is_an_empty_object()
    ensures
        schema_json(SchemaModel::any()) == ValueModel::Object(Seq::empty()),
{
    assert(schema_list(Seq::empty()).len() == 0);
    assert(schema_members(Seq::empty()).len() == 0);
    assert(strings(Seq::empty()).len() == 0);
    assert(schema_json(SchemaModel::any())->Object_0 =~= Seq::empty());
}

/// A document of which only the metadata is known says its version and the
/// metadata, and nothing else.
pub proof fn a_minimal_document_omits_empty_sections(info: InfoModel)
    ensures
        OpenApi::json((OpenApiModel { info, ..OpenApiModel::empty() })) == ValueModel::Object(
            seq![("openapi"@, ValueModel::String("3.1.0"@)), ("info"@, Info::json(info))],
        ),
{
    let v = OpenApiModel { info, ..OpenApiModel::empty() };
    assert(items::<Server>(v.servers).len() == 0);
    assert(entries::<PathItem>(v.paths).len() == 0);
    assert(entries::<PathItem>(v.webhooks).len() == 0);
    assert(requirements_json(v.security).len() == 0);
    assert(items::<Tag>(v.tags).len() == 0);
    assert(OpenApi::json(v)->Object_0 =~= seq![
        ("openapi"@, ValueModel::String("3.1.0"@)),
        ("info"@, Info::json(info)),
    ]);
}

} // verus!
