//! The OpenAPI 3.1 document model.

use crate::json::{Value, ValueModel};
use crate::openapi::ordered;
use crate::openapi::ordered::OrderedMap;
use crate::openapi::schema;
use crate::openapi::schema::{Schema, SchemaModel};
use crate::openapi::schema_map::SchemaMap;
use crate::text;
use vstd::prelude::*;
use vstd::string::*;

verus! {

// ---------------------------------------------------------------------------
// views and copies
// ---------------------------------------------------------------------------

pub open spec fn opt_model<T: View>(o: Option<T>) -> Option<T::V> {
    match o {
        Some(x) => Some(x@),
        None => None,
    }
}

pub open spec fn seq_model<T: View>(list: Seq<T>) -> Seq<T::V> {
    list.map_values(|x: T| x@)
}

pub open spec fn map_model<T: View>(entries: Seq<(Seq<char>, T)>) -> Seq<(Seq<char>, T::V)> {
    entries.map_values(|e: (Seq<char>, T)| (e.0, e.1@))
}

/// A value that can be made again.
pub trait Duplicate: View + Sized {
    fn copy(&self) -> (out: Self)
        ensures
            out@ == self@,
    ;
}

impl Duplicate for String {
    fn copy(&self) -> String {
        self.clone()
    }
}

pub fn copy_text(s: &Option<String>) -> (out: Option<String>)
    ensures
        text::opt(out) == text::opt(*s),
{
    match s {
        Some(s) => Some(s.clone()),
        None => None,
    }
}

pub fn copy_opt<T: Duplicate>(o: &Option<T>) -> (out: Option<T>)
    ensures
        opt_model(out) == opt_model(*o),
{
    match o {
        Some(x) => Some(x.copy()),
        None => None,
    }
}

pub fn copy_seq<T: Duplicate>(list: &Vec<T>) -> (out: Vec<T>)
    ensures
        seq_model(out@) == seq_model(list@),
{
    let mut out: Vec<T> = Vec::new();
    for i in 0..list.len()
        invariant
            out@.len() == i,
            forall|j: int| 0 <= j < i ==> (#[trigger] out@[j])@ == list@[j]@,
    {
        out.push(list[i].copy());
    }
    assert(seq_model(out@) =~= seq_model(list@));
    out
}

/// An insertion into a map is one into its model.
pub proof fn lemma_map_inserted<T: View>(entries: Seq<(Seq<char>, T)>, key: Seq<char>, value: T)
    ensures
        map_model(ordered::inserted(entries, key, value)) == ordered::inserted(
            map_model(entries),
            key,
            value@,
        ),
        ordered::position(map_model(entries), key) == ordered::position(entries, key),
{
    schema::lemma_same_position(entries, map_model(entries), key);
    ordered::lemma_position(entries, key);
    assert(map_model(ordered::inserted(entries, key, value)) =~= ordered::inserted(
        map_model(entries),
        key,
        value@,
    ));
}

pub fn copy_map<T: Duplicate>(m: &OrderedMap<T>) -> (out: OrderedMap<T>)
    ensures
        map_model(out@) == map_model(m@),
{
    let mut out: OrderedMap<T> = OrderedMap::new();
    let n: usize = m.len();
    for i in 0..n
        invariant
            n == m@.len(),
            ordered::distinct(m@),
            out@.len() == i,
            forall|j: int| 0 <= j < i ==> (#[trigger] out@[j]).0 == m@[j].0 && out@[j].1@ == m@[j].1@,
    {
        proof {
            ordered::lemma_position(out@, m@[i as int].0);
        }
        let value = m.value_at(i).copy();
        out.insert(m.key_at(i).to_owned(), value);
    }
    assert(map_model(out@) =~= map_model(m@));
    out
}

/// A map from security scheme name to the scopes it must grant.
pub type SecurityRequirement = OrderedMap<Vec<String>>;

/// A security requirement, as a value.
pub type RequirementModel = Seq<(Seq<char>, Seq<Seq<char>>)>;

pub open spec fn requirement(entries: Seq<(Seq<char>, Vec<String>)>) -> RequirementModel {
    entries.map_values(|e: (Seq<char>, Vec<String>)| (e.0, text::views(e.1@)))
}

pub open spec fn requirement_list(list: Seq<SecurityRequirement>) -> Seq<RequirementModel> {
    list.map_values(|r: SecurityRequirement| requirement(r@))
}

pub open spec fn requirements(list: Option<Vec<SecurityRequirement>>) -> Option<
    Seq<RequirementModel>,
> {
    match list {
        Some(list) => Some(requirement_list(list@)),
        None => None,
    }
}

/// The paths of a callback, as values.
pub open spec fn path_items_model(list: Seq<(String, PathItem)>) -> Seq<
    (Seq<char>, PathItemModel),
>
    decreases list,
{
    Seq::new(
        list.len(),
        |i: int|
            if 0 <= i < list.len() {
                (list[i].0@, path_item_model(list[i].1))
            } else {
                (Seq::empty(), PathItemModel::empty())
            },
    )
}

/// The callbacks of an operation, as values.
pub open spec fn callbacks_model(list: Seq<(String, Vec<(String, PathItem)>)>) -> Seq<
    (Seq<char>, Seq<(Seq<char>, PathItemModel)>),
>
    decreases list,
{
    Seq::new(
        list.len(),
        |i: int|
            if 0 <= i < list.len() {
                (list[i].0@, path_items_model(list[i].1@))
            } else {
                (Seq::empty(), Seq::empty())
            },
    )
}

// ---------------------------------------------------------------------------
// the parts of a document
// ---------------------------------------------------------------------------

/// Where a parameter is carried.
#[derive(Clone, Copy, Debug, PartialEq, Eq, Structural)]
pub enum ParameterIn {
    Query,
    Header,
    Path,
    Cookie,
}

/// Where an API key is carried.
#[derive(Clone, Copy, Debug, PartialEq, Eq, Structural)]
pub enum ApiKeyLocation {
    Query,
    Header,
    Cookie,
}

/// Documentation that lies elsewhere.
pub struct ExternalDocs {
    pub url: String,
    pub description: Option<String>,
}

/// Documentation that lies elsewhere, as a value.
#[verifier::ext_equal]
pub struct ExternalDocsModel {
    pub url: Seq<char>,
    pub description: Option<Seq<char>>,
}

impl View for ExternalDocs {
    type V = ExternalDocsModel;

    open spec fn view(&self) -> ExternalDocsModel {
        ExternalDocsModel {
            url: self.url@,
            description: text::opt(self.description),
        }
    }
}

impl ExternalDocsModel {
    /// Nothing said.
    pub open spec fn empty() -> ExternalDocsModel {
        ExternalDocsModel {
            url: Seq::empty(),
            description: None,
        }
    }
}

impl Default for ExternalDocs {
    fn default() -> (out: Self)
        ensures
            out@ == ExternalDocsModel::empty(),
    {
        let out = ExternalDocs {
            url: String::new(),
            description: None,
        };
        assert(out@ =~= ExternalDocsModel::empty());
        out
    }
}

impl Duplicate for ExternalDocs {
    fn copy(&self) -> Self {
        let out = ExternalDocs {
            url: self.url.clone(),
            description: copy_text(&self.description),
        };
        assert(out@ =~= self@);
        out
    }
}

/// Whom to ask.
pub struct Contact {
    pub name: Option<String>,
    pub url: Option<String>,
    pub email: Option<String>,
}

/// Whom to ask, as a value.
#[verifier::ext_equal]
pub struct ContactModel {
    pub name: Option<Seq<char>>,
    pub url: Option<Seq<char>>,
    pub email: Option<Seq<char>>,
}

impl View for Contact {
    type V = ContactModel;

    open spec fn view(&self) -> ContactModel {
        ContactModel {
            name: text::opt(self.name),
            url: text::opt(self.url),
            email: text::opt(self.email),
        }
    }
}

impl ContactModel {
    /// Nothing said.
    pub open spec fn empty() -> ContactModel {
        ContactModel {
            name: None,
            url: None,
            email: None,
        }
    }
}

impl Default for Contact {
    fn default() -> (out: Self)
        ensures
            out@ == ContactModel::empty(),
    {
        let out = Contact {
            name: None,
            url: None,
            email: None,
        };
        assert(out@ =~= ContactModel::empty());
        out
    }
}

impl Duplicate for Contact {
    fn copy(&self) -> Self {
        let out = Contact {
            name: copy_text(&self.name),
            url: copy_text(&self.url),
            email: copy_text(&self.email),
        };
        assert(out@ =~= self@);
        out
    }
}

/// The terms of use.
pub struct License {
    pub name: String,
    /// SPDX expression; mutually exclusive with `url`.
    pub identifier: Option<String>,
    pub url: Option<String>,
}

/// The terms of use, as a value.
#[verifier::ext_equal]
pub struct LicenseModel {
    pub name: Seq<char>,
    pub identifier: Option<Seq<char>>,
    pub url: Option<Seq<char>>,
}

impl View for License {
    type V = LicenseModel;

    open spec fn view(&self) -> LicenseModel {
        LicenseModel {
            name: self.name@,
            identifier: text::opt(self.identifier),
            url: text::opt(self.url),
        }
    }
}

impl LicenseModel {
    /// Nothing said.
    pub open spec fn empty() -> LicenseModel {
        LicenseModel {
            name: Seq::empty(),
            identifier: None,
            url: None,
        }
    }
}

impl Default for License {
    fn default() -> (out: Self)
        ensures
            out@ == LicenseModel::empty(),
    {
        let out = License {
            name: String::new(),
            identifier: None,
            url: None,
        };
        assert(out@ =~= LicenseModel::empty());
        out
    }
}

impl Duplicate for License {
    fn copy(&self) -> Self {
        let out = License {
            name: self.name.clone(),
            identifier: copy_text(&self.identifier),
            url: copy_text(&self.url),
        };
        assert(out@ =~= self@);
        out
    }
}

/// A variable in a server URL.
pub struct ServerVariable {
    pub enum_values: Vec<String>,
    pub default: String,
    pub description: Option<String>,
}

/// A variable in a server URL, as a value.
#[verifier::ext_equal]
pub struct ServerVariableModel {
    pub enum_values: Seq<Seq<char>>,
    pub default: Seq<char>,
    pub description: Option<Seq<char>>,
}

impl View for ServerVariable {
    type V = ServerVariableModel;

    open spec fn view(&self) -> ServerVariableModel {
        ServerVariableModel {
            enum_values: text::views(self.enum_values@),
            default: self.default@,
            description: text::opt(self.description),
        }
    }
}

impl ServerVariableModel {
    /// Nothing said.
    pub open spec fn empty() -> ServerVariableModel {
        ServerVariableModel {
            enum_values: Seq::empty(),
            default: Seq::empty(),
            description: None,
        }
    }
}

impl Default for ServerVariable {
    fn default() -> (out: Self)
        ensures
            out@ == ServerVariableModel::empty(),
    {
        let out = ServerVariable {
            enum_values: Vec::new(),
            default: String::new(),
            description: None,
        };
        assert(out@ =~= ServerVariableModel::empty());
        out
    }
}

impl Duplicate for ServerVariable {
    fn copy(&self) -> Self {
        let out = ServerVariable {
            enum_values: text::copy_texts(&self.enum_values),
            default: self.default.clone(),
            description: copy_text(&self.description),
        };
        assert(out@ =~= self@);
        out
    }
}

/// Where the API is served.
pub struct Server {
    pub url: String,
    pub description: Option<String>,
    pub variables: OrderedMap<ServerVariable>,
}

/// Where the API is served, as a value.
#[verifier::ext_equal]
pub struct ServerModel {
    pub url: Seq<char>,
    pub description: Option<Seq<char>>,
    pub variables: Seq<(Seq<char>, ServerVariableModel)>,
}

impl View for Server {
    type V = ServerModel;

    open spec fn view(&self) -> ServerModel {
        ServerModel {
            url: self.url@,
            description: text::opt(self.description),
            variables: map_model(self.variables@),
        }
    }
}

impl ServerModel {
    /// Nothing said.
    pub open spec fn empty() -> ServerModel {
        ServerModel {
            url: Seq::empty(),
            description: None,
            variables: Seq::empty(),
        }
    }
}

impl Default for Server {
    fn default() -> (out: Self)
        ensures
            out@ == ServerModel::empty(),
    {
        let out = Server {
            url: String::new(),
            description: None,
            variables: OrderedMap::new(),
        };
        assert(out@ =~= ServerModel::empty());
        out
    }
}

impl Duplicate for Server {
    fn copy(&self) -> Self {
        let out = Server {
            url: self.url.clone(),
            description: copy_text(&self.description),
            variables: copy_map(&self.variables),
        };
        assert(out@ =~= self@);
        out
    }
}

/// The prose of a tag.
pub struct Tag {
    pub name: String,
    pub description: Option<String>,
    pub external_docs: Option<ExternalDocs>,
}

/// The prose of a tag, as a value.
#[verifier::ext_equal]
pub struct TagModel {
    pub name: Seq<char>,
    pub description: Option<Seq<char>>,
    pub external_docs: Option<ExternalDocsModel>,
}

impl View for Tag {
    type V = TagModel;

    open spec fn view(&self) -> TagModel {
        TagModel {
            name: self.name@,
            description: text::opt(self.description),
            external_docs: opt_model(self.external_docs),
        }
    }
}

impl TagModel {
    /// Nothing said.
    pub open spec fn empty() -> TagModel {
        TagModel {
            name: Seq::empty(),
            description: None,
            external_docs: None,
        }
    }
}

impl Default for Tag {
    fn default() -> (out: Self)
        ensures
            out@ == TagModel::empty(),
    {
        let out = Tag {
            name: String::new(),
            description: None,
            external_docs: None,
        };
        assert(out@ =~= TagModel::empty());
        out
    }
}

impl Duplicate for Tag {
    fn copy(&self) -> Self {
        let out = Tag {
            name: self.name.clone(),
            description: copy_text(&self.description),
            external_docs: copy_opt(&self.external_docs),
        };
        assert(out@ =~= self@);
        out
    }
}

/// Document metadata.
pub struct Info {
    pub title: String,
    pub summary: Option<String>,
    pub description: Option<String>,
    pub terms_of_service: Option<String>,
    pub contact: Option<Contact>,
    pub license: Option<License>,
    pub version: String,
}

/// Document metadata, as a value.
#[verifier::ext_equal]
pub struct InfoModel {
    pub title: Seq<char>,
    pub summary: Option<Seq<char>>,
    pub description: Option<Seq<char>>,
    pub terms_of_service: Option<Seq<char>>,
    pub contact: Option<ContactModel>,
    pub license: Option<LicenseModel>,
    pub version: Seq<char>,
}

impl View for Info {
    type V = InfoModel;

    open spec fn view(&self) -> InfoModel {
        InfoModel {
            title: self.title@,
            summary: text::opt(self.summary),
            description: text::opt(self.description),
            terms_of_service: text::opt(self.terms_of_service),
            contact: opt_model(self.contact),
            license: opt_model(self.license),
            version: self.version@,
        }
    }
}

impl InfoModel {
    /// Nothing said.
    pub open spec fn empty() -> InfoModel {
        InfoModel {
            title: Seq::empty(),
            summary: None,
            description: None,
            terms_of_service: None,
            contact: None,
            license: None,
            version: Seq::empty(),
        }
    }
}

impl Default for Info {
    fn default() -> (out: Self)
        ensures
            out@ == InfoModel::empty(),
    {
        let out = Info {
            title: String::new(),
            summary: None,
            description: None,
            terms_of_service: None,
            contact: None,
            license: None,
            version: String::new(),
        };
        assert(out@ =~= InfoModel::empty());
        out
    }
}

impl Duplicate for Info {
    fn copy(&self) -> Self {
        let out = Info {
            title: self.title.clone(),
            summary: copy_text(&self.summary),
            description: copy_text(&self.description),
            terms_of_service: copy_text(&self.terms_of_service),
            contact: copy_opt(&self.contact),
            license: copy_opt(&self.license),
            version: self.version.clone(),
        };
        assert(out@ =~= self@);
        out
    }
}

/// A named example.
pub struct Example {
    pub summary: Option<String>,
    pub description: Option<String>,
    pub value: Option<Value>,
}

/// A named example, as a value.
#[verifier::ext_equal]
pub struct ExampleModel {
    pub summary: Option<Seq<char>>,
    pub description: Option<Seq<char>>,
    pub value: Option<ValueModel>,
}

impl View for Example {
    type V = ExampleModel;

    open spec fn view(&self) -> ExampleModel {
        ExampleModel {
            summary: text::opt(self.summary),
            description: text::opt(self.description),
            value: schema::value(self.value),
        }
    }
}

impl ExampleModel {
    /// Nothing said.
    pub open spec fn empty() -> ExampleModel {
        ExampleModel {
            summary: None,
            description: None,
            value: None,
        }
    }
}

impl Default for Example {
    fn default() -> (out: Self)
        ensures
            out@ == ExampleModel::empty(),
    {
        let out = Example {
            summary: None,
            description: None,
            value: None,
        };
        assert(out@ =~= ExampleModel::empty());
        out
    }
}

/// How a property is encoded in a form body.
pub struct Encoding {
    pub content_type: Option<String>,
    pub explode: Option<bool>,
}

/// How a property is encoded in a form body, as a value.
#[verifier::ext_equal]
pub struct EncodingModel {
    pub content_type: Option<Seq<char>>,
    pub explode: Option<bool>,
}

impl View for Encoding {
    type V = EncodingModel;

    open spec fn view(&self) -> EncodingModel {
        EncodingModel {
            content_type: text::opt(self.content_type),
            explode: self.explode,
        }
    }
}

impl EncodingModel {
    /// Nothing said.
    pub open spec fn empty() -> EncodingModel {
        EncodingModel {
            content_type: None,
            explode: None,
        }
    }
}

impl Default for Encoding {
    fn default() -> (out: Self)
        ensures
            out@ == EncodingModel::empty(),
    {
        let out = Encoding {
            content_type: None,
            explode: None,
        };
        assert(out@ =~= EncodingModel::empty());
        out
    }
}

/// The payload for one media type.
pub struct MediaType {
    pub schema: Option<Schema>,
    pub examples: OrderedMap<Example>,
    pub encoding: OrderedMap<Encoding>,
}

/// The payload for one media type, as a value.
#[verifier::ext_equal]
pub struct MediaTypeModel {
    pub schema: Option<SchemaModel>,
    pub examples: Seq<(Seq<char>, ExampleModel)>,
    pub encoding: Seq<(Seq<char>, EncodingModel)>,
}

impl View for MediaType {
    type V = MediaTypeModel;

    open spec fn view(&self) -> MediaTypeModel {
        MediaTypeModel {
            schema: opt_model(self.schema),
            examples: map_model(self.examples@),
            encoding: map_model(self.encoding@),
        }
    }
}

impl MediaTypeModel {
    /// Nothing said.
    pub open spec fn empty() -> MediaTypeModel {
        MediaTypeModel {
            schema: None,
            examples: Seq::empty(),
            encoding: Seq::empty(),
        }
    }
}

impl Default for MediaType {
    fn default() -> (out: Self)
        ensures
            out@ == MediaTypeModel::empty(),
    {
        let out = MediaType {
            schema: None,
            examples: OrderedMap::new(),
            encoding: OrderedMap::new(),
        };
        assert(out@ =~= MediaTypeModel::empty());
        out
    }
}

/// A response header.
pub struct Header {
    pub description: Option<String>,
    pub required: bool,
    pub schema: Option<Schema>,
}

/// A response header, as a value.
#[verifier::ext_equal]
pub struct HeaderModel {
    pub description: Option<Seq<char>>,
    pub required: bool,
    pub schema: Option<SchemaModel>,
}

impl View for Header {
    type V = HeaderModel;

    open spec fn view(&self) -> HeaderModel {
        HeaderModel {
            description: text::opt(self.description),
            required: self.required,
            schema: opt_model(self.schema),
        }
    }
}

impl HeaderModel {
    /// Nothing said.
    pub open spec fn empty() -> HeaderModel {
        HeaderModel {
            description: None,
            required: false,
            schema: None,
        }
    }
}

impl Default for Header {
    fn default() -> (out: Self)
        ensures
            out@ == HeaderModel::empty(),
    {
        let out = Header {
            description: None,
            required: false,
            schema: None,
        };
        assert(out@ =~= HeaderModel::empty());
        out
    }
}

/// A follow-up operation.
pub struct Link {
    pub operation_id: Option<String>,
    pub parameters: OrderedMap<Value>,
    pub description: Option<String>,
}

/// A follow-up operation, as a value.
#[verifier::ext_equal]
pub struct LinkModel {
    pub operation_id: Option<Seq<char>>,
    pub parameters: Seq<(Seq<char>, ValueModel)>,
    pub description: Option<Seq<char>>,
}

impl View for Link {
    type V = LinkModel;

    open spec fn view(&self) -> LinkModel {
        LinkModel {
            operation_id: text::opt(self.operation_id),
            parameters: schema::values_model(self.parameters),
            description: text::opt(self.description),
        }
    }
}

impl LinkModel {
    /// Nothing said.
    pub open spec fn empty() -> LinkModel {
        LinkModel {
            operation_id: None,
            parameters: Seq::empty(),
            description: None,
        }
    }
}

impl Default for Link {
    fn default() -> (out: Self)
        ensures
            out@ == LinkModel::empty(),
    {
        let out = Link {
            operation_id: None,
            parameters: OrderedMap::new(),
            description: None,
        };
        assert(out@ =~= LinkModel::empty());
        out
    }
}

/// One documented response.
pub struct Response {
    pub description: String,
    pub headers: OrderedMap<Header>,
    pub content: OrderedMap<MediaType>,
    pub links: OrderedMap<Link>,
}

/// One documented response, as a value.
#[verifier::ext_equal]
pub struct ResponseModel {
    pub description: Seq<char>,
    pub headers: Seq<(Seq<char>, HeaderModel)>,
    pub content: Seq<(Seq<char>, MediaTypeModel)>,
    pub links: Seq<(Seq<char>, LinkModel)>,
}

impl View for Response {
    type V = ResponseModel;

    open spec fn view(&self) -> ResponseModel {
        ResponseModel {
            description: self.description@,
            headers: map_model(self.headers@),
            content: map_model(self.content@),
            links: map_model(self.links@),
        }
    }
}

impl ResponseModel {
    /// Nothing said.
    pub open spec fn empty() -> ResponseModel {
        ResponseModel {
            description: Seq::empty(),
            headers: Seq::empty(),
            content: Seq::empty(),
            links: Seq::empty(),
        }
    }
}

impl Default for Response {
    fn default() -> (out: Self)
        ensures
            out@ == ResponseModel::empty(),
    {
        let out = Response {
            description: String::new(),
            headers: OrderedMap::new(),
            content: OrderedMap::new(),
            links: OrderedMap::new(),
        };
        assert(out@ =~= ResponseModel::empty());
        out
    }
}

/// A documented request body.
pub struct RequestBody {
    pub description: Option<String>,
    pub content: OrderedMap<MediaType>,
    pub required: bool,
}

/// A documented request body, as a value.
#[verifier::ext_equal]
pub struct RequestBodyModel {
    pub description: Option<Seq<char>>,
    pub content: Seq<(Seq<char>, MediaTypeModel)>,
    pub required: bool,
}

impl View for RequestBody {
    type V = RequestBodyModel;

    open spec fn view(&self) -> RequestBodyModel {
        RequestBodyModel {
            description: text::opt(self.description),
            content: map_model(self.content@),
            required: self.required,
        }
    }
}

impl RequestBodyModel {
    /// Nothing said.
    pub open spec fn empty() -> RequestBodyModel {
        RequestBodyModel {
            description: None,
            content: Seq::empty(),
            required: false,
        }
    }
}

impl Default for RequestBody {
    fn default() -> (out: Self)
        ensures
            out@ == RequestBodyModel::empty(),
    {
        let out = RequestBody {
            description: None,
            content: OrderedMap::new(),
            required: false,
        };
        assert(out@ =~= RequestBodyModel::empty());
        out
    }
}

/// A documented parameter.
pub struct Parameter {
    pub name: String,
    pub location: ParameterIn,
    pub description: Option<String>,
    pub required: bool,
    pub deprecated: bool,
    pub style: Option<String>,
    pub explode: Option<bool>,
    pub schema: Option<Schema>,
    pub examples: OrderedMap<Example>,
}

/// A documented parameter, as a value.
#[verifier::ext_equal]
pub struct ParameterModel {
    pub name: Seq<char>,
    pub location: ParameterIn,
    pub description: Option<Seq<char>>,
    pub required: bool,
    pub deprecated: bool,
    pub style: Option<Seq<char>>,
    pub explode: Option<bool>,
    pub schema: Option<SchemaModel>,
    pub examples: Seq<(Seq<char>, ExampleModel)>,
}

impl View for Parameter {
    type V = ParameterModel;

    open spec fn view(&self) -> ParameterModel {
        ParameterModel {
            name: self.name@,
            location: self.location,
            description: text::opt(self.description),
            required: self.required,
            deprecated: self.deprecated,
            style: text::opt(self.style),
            explode: self.explode,
            schema: opt_model(self.schema),
            examples: map_model(self.examples@),
        }
    }
}

/// One OAuth flow.
pub struct OAuthFlow {
    pub authorization_url: Option<String>,
    pub token_url: Option<String>,
    pub refresh_url: Option<String>,
    pub scopes: OrderedMap<String>,
}

/// One OAuth flow, as a value.
#[verifier::ext_equal]
pub struct OAuthFlowModel {
    pub authorization_url: Option<Seq<char>>,
    pub token_url: Option<Seq<char>>,
    pub refresh_url: Option<Seq<char>>,
    pub scopes: Seq<(Seq<char>, Seq<char>)>,
}

impl View for OAuthFlow {
    type V = OAuthFlowModel;

    open spec fn view(&self) -> OAuthFlowModel {
        OAuthFlowModel {
            authorization_url: text::opt(self.authorization_url),
            token_url: text::opt(self.token_url),
            refresh_url: text::opt(self.refresh_url),
            scopes: map_model(self.scopes@),
        }
    }
}

impl OAuthFlowModel {
    /// Nothing said.
    pub open spec fn empty() -> OAuthFlowModel {
        OAuthFlowModel {
            authorization_url: None,
            token_url: None,
            refresh_url: None,
            scopes: Seq::empty(),
        }
    }
}

impl Default for OAuthFlow {
    fn default() -> (out: Self)
        ensures
            out@ == OAuthFlowModel::empty(),
    {
        let out = OAuthFlow {
            authorization_url: None,
            token_url: None,
            refresh_url: None,
            scopes: OrderedMap::new(),
        };
        assert(out@ =~= OAuthFlowModel::empty());
        out
    }
}

impl Duplicate for OAuthFlow {
    fn copy(&self) -> Self {
        let out = OAuthFlow {
            authorization_url: copy_text(&self.authorization_url),
            token_url: copy_text(&self.token_url),
            refresh_url: copy_text(&self.refresh_url),
            scopes: copy_map(&self.scopes),
        };
        assert(out@ =~= self@);
        out
    }
}

/// The OAuth flows a scheme supports.
pub struct OAuthFlows {
    pub implicit: Option<OAuthFlow>,
    pub password: Option<OAuthFlow>,
    pub client_credentials: Option<OAuthFlow>,
    pub authorization_code: Option<OAuthFlow>,
}

/// The OAuth flows a scheme supports, as a value.
#[verifier::ext_equal]
pub struct OAuthFlowsModel {
    pub implicit: Option<OAuthFlowModel>,
    pub password: Option<OAuthFlowModel>,
    pub client_credentials: Option<OAuthFlowModel>,
    pub authorization_code: Option<OAuthFlowModel>,
}

impl View for OAuthFlows {
    type V = OAuthFlowsModel;

    open spec fn view(&self) -> OAuthFlowsModel {
        OAuthFlowsModel {
            implicit: opt_model(self.implicit),
            password: opt_model(self.password),
            client_credentials: opt_model(self.client_credentials),
            authorization_code: opt_model(self.authorization_code),
        }
    }
}

impl OAuthFlowsModel {
    /// Nothing said.
    pub open spec fn empty() -> OAuthFlowsModel {
        OAuthFlowsModel {
            implicit: None,
            password: None,
            client_credentials: None,
            authorization_code: None,
        }
    }
}

impl Default for OAuthFlows {
    fn default() -> (out: Self)
        ensures
            out@ == OAuthFlowsModel::empty(),
    {
        let out = OAuthFlows {
            implicit: None,
            password: None,
            client_credentials: None,
            authorization_code: None,
        };
        assert(out@ =~= OAuthFlowsModel::empty());
        out
    }
}

impl Duplicate for OAuthFlows {
    fn copy(&self) -> Self {
        let out = OAuthFlows {
            implicit: copy_opt(&self.implicit),
            password: copy_opt(&self.password),
            client_credentials: copy_opt(&self.client_credentials),
            authorization_code: copy_opt(&self.authorization_code),
        };
        assert(out@ =~= self@);
        out
    }
}

/// A single API operation.
pub struct Operation {
    pub tags: Vec<String>,
    pub summary: Option<String>,
    pub description: Option<String>,
    pub external_docs: Option<ExternalDocs>,
    pub operation_id: Option<String>,
    pub parameters: Vec<Parameter>,
    pub request_body: Option<RequestBody>,
    pub responses: OrderedMap<Response>,
    pub callbacks: Vec<(String, Vec<(String, PathItem)>)>,
    pub deprecated: bool,
    /// `None` inherits the document-level requirement; an empty list opts out.
    pub security: Option<Vec<SecurityRequirement>>,
    pub servers: Vec<Server>,
    pub extensions: OrderedMap<Value>,
}

/// A single API operation, as a value.
#[verifier::ext_equal]
pub struct OperationModel {
    pub tags: Seq<Seq<char>>,
    pub summary: Option<Seq<char>>,
    pub description: Option<Seq<char>>,
    pub external_docs: Option<ExternalDocsModel>,
    pub operation_id: Option<Seq<char>>,
    pub parameters: Seq<ParameterModel>,
    pub request_body: Option<RequestBodyModel>,
    pub responses: Seq<(Seq<char>, ResponseModel)>,
    pub callbacks: Seq<(Seq<char>, Seq<(Seq<char>, PathItemModel)>)>,
    pub deprecated: bool,
    pub security: Option<Seq<RequirementModel>>,
    pub servers: Seq<ServerModel>,
    pub extensions: Seq<(Seq<char>, ValueModel)>,
}

/// An operation, as a value.
pub open spec fn operation_model(o: Operation) -> OperationModel
    decreases o,
{
    OperationModel {
        tags: text::views(o.tags@),
        summary: text::opt(o.summary),
        description: text::opt(o.description),
        external_docs: opt_model(o.external_docs),
        operation_id: text::opt(o.operation_id),
        parameters: seq_model(o.parameters@),
        request_body: opt_model(o.request_body),
        responses: map_model(o.responses@),
        callbacks: callbacks_model(o.callbacks@),
        deprecated: o.deprecated,
        security: requirements(o.security),
        servers: seq_model(o.servers@),
        extensions: schema::values_model(o.extensions),
    }
}

impl View for Operation {
    type V = OperationModel;

    open spec fn view(&self) -> OperationModel {
        operation_model(*self)
    }
}

impl OperationModel {
    /// Nothing said.
    pub open spec fn empty() -> OperationModel {
        OperationModel {
            tags: Seq::empty(),
            summary: None,
            description: None,
            external_docs: None,
            operation_id: None,
            parameters: Seq::empty(),
            request_body: None,
            responses: Seq::empty(),
            callbacks: Seq::empty(),
            deprecated: false,
            security: None,
            servers: Seq::empty(),
            extensions: Seq::empty(),
        }
    }
}

impl Default for Operation {
    fn default() -> (out: Self)
        ensures
            out@ == OperationModel::empty(),
    {
        let out = Operation {
            tags: Vec::new(),
            summary: None,
            description: None,
            external_docs: None,
            operation_id: None,
            parameters: Vec::new(),
            request_body: None,
            responses: OrderedMap::new(),
            callbacks: Vec::new(),
            deprecated: false,
            security: None,
            servers: Vec::new(),
            extensions: OrderedMap::new(),
        };
        assert(callbacks_model(out.callbacks@) =~= Seq::<
            (Seq<char>, Seq<(Seq<char>, PathItemModel)>),
        >::empty());
        assert(out@ =~= OperationModel::empty());
        out
    }
}

/// The operations available on a single path.
pub struct PathItem {
    pub summary: Option<String>,
    pub description: Option<String>,
    pub get: Option<Operation>,
    pub put: Option<Operation>,
    pub post: Option<Operation>,
    pub delete: Option<Operation>,
    pub options: Option<Operation>,
    pub head: Option<Operation>,
    pub patch: Option<Operation>,
    pub trace: Option<Operation>,
    pub servers: Vec<Server>,
    pub parameters: Vec<Parameter>,
}

/// The operations available on a single path, as a value.
#[verifier::ext_equal]
pub struct PathItemModel {
    pub summary: Option<Seq<char>>,
    pub description: Option<Seq<char>>,
    pub get: Option<OperationModel>,
    pub put: Option<OperationModel>,
    pub post: Option<OperationModel>,
    pub delete: Option<OperationModel>,
    pub options: Option<OperationModel>,
    pub head: Option<OperationModel>,
    pub patch: Option<OperationModel>,
    pub trace: Option<OperationModel>,
    pub servers: Seq<ServerModel>,
    pub parameters: Seq<ParameterModel>,
}

/// The operations available on a single path, as values.
pub open spec fn path_item_model(p: PathItem) -> PathItemModel
    decreases p,
{
    PathItemModel {
        summary: text::opt(p.summary),
        description: text::opt(p.description),
        get: match p.get {
            Some(o) => Some(operation_model(o)),
            None => None,
        },
        put: match p.put {
            Some(o) => Some(operation_model(o)),
            None => None,
        },
        post: match p.post {
            Some(o) => Some(operation_model(o)),
            None => None,
        },
        delete: match p.delete {
            Some(o) => Some(operation_model(o)),
            None => None,
        },
        options: match p.options {
            Some(o) => Some(operation_model(o)),
            None => None,
        },
        head: match p.head {
            Some(o) => Some(operation_model(o)),
            None => None,
        },
        patch: match p.patch {
            Some(o) => Some(operation_model(o)),
            None => None,
        },
        trace: match p.trace {
            Some(o) => Some(operation_model(o)),
            None => None,
        },
        servers: seq_model(p.servers@),
        parameters: seq_model(p.parameters@),
    }
}

impl View for PathItem {
    type V = PathItemModel;

    open spec fn view(&self) -> PathItemModel {
        path_item_model(*self)
    }
}

impl PathItemModel {
    /// Nothing said.
    pub open spec fn empty() -> PathItemModel {
        PathItemModel {
            summary: None,
            description: None,
            get: None,
            put: None,
            post: None,
            delete: None,
            options: None,
            head: None,
            patch: None,
            trace: None,
            servers: Seq::empty(),
            parameters: Seq::empty(),
        }
    }
}

impl Default for PathItem {
    fn default() -> (out: Self)
        ensures
            out@ == PathItemModel::empty(),
    {
        let out = PathItem {
            summary: None,
            description: None,
            get: None,
            put: None,
            post: None,
            delete: None,
            options: None,
            head: None,
            patch: None,
            trace: None,
            servers: Vec::new(),
            parameters: Vec::new(),
        };
        assert(out@ =~= PathItemModel::empty());
        out
    }
}

/// The reusable parts of a document.
pub struct Components {
    pub schemas: SchemaMap,
    pub responses: OrderedMap<Response>,
    pub parameters: OrderedMap<Parameter>,
    pub examples: OrderedMap<Example>,
    pub request_bodies: OrderedMap<RequestBody>,
    pub headers: OrderedMap<Header>,
    pub security_schemes: OrderedMap<SecurityScheme>,
}

/// The reusable parts of a document, as a value.
#[verifier::ext_equal]
pub struct ComponentsModel {
    pub schemas: Seq<(Seq<char>, SchemaModel)>,
    pub responses: Seq<(Seq<char>, ResponseModel)>,
    pub parameters: Seq<(Seq<char>, ParameterModel)>,
    pub examples: Seq<(Seq<char>, ExampleModel)>,
    pub request_bodies: Seq<(Seq<char>, RequestBodyModel)>,
    pub headers: Seq<(Seq<char>, HeaderModel)>,
    pub security_schemes: Seq<(Seq<char>, SecuritySchemeModel)>,
}

impl View for Components {
    type V = ComponentsModel;

    open spec fn view(&self) -> ComponentsModel {
        ComponentsModel {
            schemas: schema::schemas_model(self.schemas),
            responses: map_model(self.responses@),
            parameters: map_model(self.parameters@),
            examples: map_model(self.examples@),
            request_bodies: map_model(self.request_bodies@),
            headers: map_model(self.headers@),
            security_schemes: map_model(self.security_schemes@),
        }
    }
}

impl ComponentsModel {
    /// Nothing said.
    pub open spec fn empty() -> ComponentsModel {
        ComponentsModel {
            schemas: Seq::empty(),
            responses: Seq::empty(),
            parameters: Seq::empty(),
            examples: Seq::empty(),
            request_bodies: Seq::empty(),
            headers: Seq::empty(),
            security_schemes: Seq::empty(),
        }
    }
}

impl Default for Components {
    fn default() -> (out: Self)
        ensures
            out@ == ComponentsModel::empty(),
    {
        let out = Components {
            schemas: SchemaMap::new(),
            responses: OrderedMap::new(),
            parameters: OrderedMap::new(),
            examples: OrderedMap::new(),
            request_bodies: OrderedMap::new(),
            headers: OrderedMap::new(),
            security_schemes: OrderedMap::new(),
        };
        assert(out@ =~= ComponentsModel::empty());
        out
    }
}

/// A complete OpenAPI 3.1 document.
pub struct OpenApi {
    pub openapi: String,
    pub info: Info,
    pub json_schema_dialect: Option<String>,
    pub servers: Vec<Server>,
    pub paths: OrderedMap<PathItem>,
    pub webhooks: OrderedMap<PathItem>,
    pub components: Components,
    pub security: Vec<SecurityRequirement>,
    pub tags: Vec<Tag>,
    pub external_docs: Option<ExternalDocs>,
    pub extensions: OrderedMap<Value>,
}

/// A complete OpenAPI 3.1 document, as a value.
#[verifier::ext_equal]
pub struct OpenApiModel {
    pub openapi: Seq<char>,
    pub info: InfoModel,
    pub json_schema_dialect: Option<Seq<char>>,
    pub servers: Seq<ServerModel>,
    pub paths: Seq<(Seq<char>, PathItemModel)>,
    pub webhooks: Seq<(Seq<char>, PathItemModel)>,
    pub components: ComponentsModel,
    pub security: Seq<RequirementModel>,
    pub tags: Seq<TagModel>,
    pub external_docs: Option<ExternalDocsModel>,
    pub extensions: Seq<(Seq<char>, ValueModel)>,
}

impl View for OpenApi {
    type V = OpenApiModel;

    open spec fn view(&self) -> OpenApiModel {
        OpenApiModel {
            openapi: self.openapi@,
            info: self.info@,
            json_schema_dialect: text::opt(self.json_schema_dialect),
            servers: seq_model(self.servers@),
            paths: map_model(self.paths@),
            webhooks: map_model(self.webhooks@),
            components: self.components@,
            security: requirement_list(self.security@),
            tags: seq_model(self.tags@),
            external_docs: opt_model(self.external_docs),
            extensions: schema::values_model(self.extensions),
        }
    }
}

impl OpenApiModel {
    /// A document of version 3.1.0 that says nothing else.
    pub open spec fn empty() -> OpenApiModel {
        OpenApiModel {
            openapi: "3.1.0"@,
            info: InfoModel::empty(),
            json_schema_dialect: None,
            servers: Seq::empty(),
            paths: Seq::empty(),
            webhooks: Seq::empty(),
            components: ComponentsModel::empty(),
            security: Seq::empty(),
            tags: Seq::empty(),
            external_docs: None,
            extensions: Seq::empty(),
        }
    }
}

impl Default for OpenApi {
    fn default() -> (out: Self)
        ensures
            out@ == OpenApiModel::empty(),
    {
        let out = OpenApi {
            openapi: "3.1.0".to_owned(),
            info: Info::default(),
            json_schema_dialect: None,
            servers: Vec::new(),
            paths: OrderedMap::new(),
            webhooks: OrderedMap::new(),
            components: Components::default(),
            security: Vec::new(),
            tags: Vec::new(),
            external_docs: None,
            extensions: OrderedMap::new(),
        };
        assert(out@ =~= OpenApiModel::empty());
        out
    }
}

/// An authentication scheme.
pub enum SecurityScheme {
    ApiKey { name: String, location: ApiKeyLocation, description: Option<String> },
    Http { scheme: String, bearer_format: Option<String>, description: Option<String> },
    OAuth2 { flows: Box<OAuthFlows>, description: Option<String> },
    OpenIdConnect { open_id_connect_url: String, description: Option<String> },
    MutualTls { description: Option<String> },
}

/// An authentication scheme, as a value.
pub enum SecuritySchemeModel {
    ApiKey { name: Seq<char>, location: ApiKeyLocation, description: Option<Seq<char>> },
    Http { scheme: Seq<char>, bearer_format: Option<Seq<char>>, description: Option<Seq<char>> },
    OAuth2 { flows: OAuthFlowsModel, description: Option<Seq<char>> },
    OpenIdConnect { open_id_connect_url: Seq<char>, description: Option<Seq<char>> },
    MutualTls { description: Option<Seq<char>> },
}

impl View for SecurityScheme {
    type V = SecuritySchemeModel;

    open spec fn view(&self) -> SecuritySchemeModel {
        match self {
            SecurityScheme::ApiKey { name, location, description } => SecuritySchemeModel::ApiKey {
                name: name@,
                location: *location,
                description: text::opt(*description),
            },
            SecurityScheme::Http {
                scheme,
                bearer_format,
                description,
            } => SecuritySchemeModel::Http {
                scheme: scheme@,
                bearer_format: text::opt(*bearer_format),
                description: text::opt(*description),
            },
            SecurityScheme::OAuth2 { flows, description } => SecuritySchemeModel::OAuth2 {
                flows: flows@,
                description: text::opt(*description),
            },
            SecurityScheme::OpenIdConnect {
                open_id_connect_url,
                description,
            } => SecuritySchemeModel::OpenIdConnect {
                open_id_connect_url: open_id_connect_url@,
                description: text::opt(*description),
            },
            SecurityScheme::MutualTls { description } => SecuritySchemeModel::MutualTls {
                description: text::opt(*description),
            },
        }
    }
}

impl Duplicate for SecurityScheme {
    fn copy(&self) -> Self {
        match self {
            SecurityScheme::ApiKey { name, location, description } => SecurityScheme::ApiKey {
                name: name.clone(),
                location: *location,
                description: copy_text(description),
            },
            SecurityScheme::Http {
                scheme,
                bearer_format,
                description,
            } => SecurityScheme::Http {
                scheme: scheme.clone(),
                bearer_format: copy_text(bearer_format),
                description: copy_text(description),
            },
            SecurityScheme::OAuth2 { flows, description } => SecurityScheme::OAuth2 {
                flows: Box::new((**flows).copy()),
                description: copy_text(description),
            },
            SecurityScheme::OpenIdConnect {
                open_id_connect_url,
                description,
            } => SecurityScheme::OpenIdConnect {
                open_id_connect_url: open_id_connect_url.clone(),
                description: copy_text(description),
            },
            SecurityScheme::MutualTls { description } => SecurityScheme::MutualTls {
                description: copy_text(description),
            },
        }
    }
}

impl SecurityScheme {
    /// `Authorization: Bearer <jwt>`.
    pub fn bearer_jwt() -> (out: Self)
        ensures
            out@ == SecuritySchemeModel::bearer_jwt(),
    {
        SecurityScheme::Http {
            scheme: "bearer".to_owned(),
            bearer_format: Some("JWT".to_owned()),
            description: None,
        }
    }

    /// An API key carried in a header.
    pub fn api_key_header(name: &str) -> (out: Self)
        ensures
            out@ == (SecuritySchemeModel::ApiKey {
                name: name@,
                location: ApiKeyLocation::Header,
                description: None,
            }),
    {
        SecurityScheme::ApiKey {
            name: name.to_owned(),
            location: ApiKeyLocation::Header,
            description: None,
        }
    }
}

impl SecuritySchemeModel {
    pub open spec fn bearer_jwt() -> SecuritySchemeModel {
        SecuritySchemeModel::Http {
            scheme: "bearer"@,
            bearer_format: Some("JWT"@),
            description: None,
        }
    }
}

impl Components {
    pub fn is_empty(&self) -> (r: bool)
        ensures
            r == (self@ == ComponentsModel::empty()),
    {
        let r = self.schemas.is_empty() && self.responses.is_empty() && self.parameters.is_empty()
            && self.examples.is_empty() && self.request_bodies.is_empty()
            && self.headers.is_empty() && self.security_schemes.is_empty();
        proof {
            schema::lemma_schemas_model(self.schemas);
            if r {
                assert(self@ =~= ComponentsModel::empty());
            } else {
                assert(self@.schemas.len() == self.schemas@.len());
                assert(self@.responses.len() == self.responses@.len());
                assert(self@.parameters.len() == self.parameters@.len());
                assert(self@.examples.len() == self.examples@.len());
                assert(self@.request_bodies.len() == self.request_bodies@.len());
                assert(self@.headers.len() == self.headers@.len());
                assert(self@.security_schemes.len() == self.security_schemes@.len());
            }
        }
        r
    }
}

// ---------------------------------------------------------------------------
// operations of a path
// ---------------------------------------------------------------------------

/// A method that a path item has a place for.
pub enum Verb {
    Get,
    Put,
    Post,
    Delete,
    Options,
    Head,
    Patch,
    Trace,
}

/// The method of a name, whatever its case.
pub open spec fn verb_of(method: Seq<char>) -> Option<Verb> {
    let name = text::ascii_upper(method);
    if name == "GET"@ {
        Some(Verb::Get)
    } else if name == "PUT"@ {
        Some(Verb::Put)
    } else if name == "POST"@ {
        Some(Verb::Post)
    } else if name == "DELETE"@ {
        Some(Verb::Delete)
    } else if name == "OPTIONS"@ {
        Some(Verb::Options)
    } else if name == "HEAD"@ {
        Some(Verb::Head)
    } else if name == "PATCH"@ {
        Some(Verb::Patch)
    } else if name == "TRACE"@ {
        Some(Verb::Trace)
    } else {
        None
    }
}

impl PathItemModel {
    /// The operation of a method.
    pub open spec fn at(self, verb: Verb) -> Option<OperationModel> {
        match verb {
            Verb::Get => self.get,
            Verb::Put => self.put,
            Verb::Post => self.post,
            Verb::Delete => self.delete,
            Verb::Options => self.options,
            Verb::Head => self.head,
            Verb::Patch => self.patch,
            Verb::Trace => self.trace,
        }
    }

    /// The path item with the operation of one method replaced.
    pub open spec fn with(self, verb: Verb, operation: Option<OperationModel>) -> PathItemModel {
        match verb {
            Verb::Get => PathItemModel { get: operation, ..self },
            Verb::Put => PathItemModel { put: operation, ..self },
            Verb::Post => PathItemModel { post: operation, ..self },
            Verb::Delete => PathItemModel { delete: operation, ..self },
            Verb::Options => PathItemModel { options: operation, ..self },
            Verb::Head => PathItemModel { head: operation, ..self },
            Verb::Patch => PathItemModel { patch: operation, ..self },
            Verb::Trace => PathItemModel { trace: operation, ..self },
        }
    }
}

impl PathItem {
    /// Mutable access to the slot for an HTTP method, if 3.1 defines one.
    pub fn slot(&mut self, method: &str) -> (slot: Option<&mut Option<Operation>>)
        ensures
            match slot {
                Some(slot) => {
                    &&& verb_of(method@) is Some
                    &&& opt_model(*slot) == old(self)@.at(verb_of(method@)->0)
                    &&& final(self)@ == old(self)@.with(verb_of(method@)->0, opt_model(*final(slot)))
                },
                None => verb_of(method@) is None && final(self)@ == old(self)@,
            },
    {
        let name = text::upper_text(method);
        let name = name.as_str();
        if text::same(name, "GET") {
            Some(&mut self.get)
        } else if text::same(name, "PUT") {
            Some(&mut self.put)
        } else if text::same(name, "POST") {
            Some(&mut self.post)
        } else if text::same(name, "DELETE") {
            Some(&mut self.delete)
        } else if text::same(name, "OPTIONS") {
            Some(&mut self.options)
        } else if text::same(name, "HEAD") {
            Some(&mut self.head)
        } else if text::same(name, "PATCH") {
            Some(&mut self.patch)
        } else if text::same(name, "TRACE") {
            Some(&mut self.trace)
        } else {
            None
        }
    }
}

/// A slot holds one method's operation and no other's.
pub proof fn a_slot_holds_what_was_put_in_it(
    item: PathItemModel,
    verb: Verb,
    other: Verb,
    operation: Option<OperationModel>,
)
    ensures
        item.with(verb, operation).at(verb) == operation,
        other != verb ==> item.with(verb, operation).at(other) == item.at(other),
{
}

// ---------------------------------------------------------------------------
// building parts
// ---------------------------------------------------------------------------

impl ParameterModel {
    /// A path parameter is required, any other is not.
    pub open spec fn new(name: Seq<char>, location: ParameterIn, schema: SchemaModel)
        -> ParameterModel {
        ParameterModel {
            name,
            location,
            description: None,
            required: location == ParameterIn::Path,
            deprecated: false,
            style: None,
            explode: None,
            schema: Some(schema),
            examples: Seq::empty(),
        }
    }
}

impl Parameter {
    pub fn new(name: &str, location: ParameterIn, schema: Schema) -> (out: Self)
        ensures
            out@ == ParameterModel::new(name@, location, schema@),
    {
        let out = Parameter {
            name: name.to_owned(),
            // Path parameters are required by definition; the constructor
            // encodes that so callers cannot emit an invalid document.
            required: location == ParameterIn::Path,
            location,
            description: None,
            deprecated: false,
            style: None,
            explode: None,
            schema: Some(schema),
            examples: OrderedMap::new(),
        };
        assert(out@ =~= ParameterModel::new(name@, location, schema@));
        out
    }
}

impl MediaTypeModel {
    pub open spec fn new(schema: SchemaModel) -> MediaTypeModel {
        MediaTypeModel { schema: Some(schema), ..MediaTypeModel::empty() }
    }
}

impl MediaType {
    pub fn new(schema: Schema) -> (out: Self)
        ensures
            out@ == MediaTypeModel::new(schema@),
    {
        MediaType { schema: Some(schema), ..MediaType::default() }
    }
}

impl ResponseModel {
    pub open spec fn new(description: Seq<char>) -> ResponseModel {
        ResponseModel { description, ..ResponseModel::empty() }
    }

    /// The response with one more media type.
    pub open spec fn with_content(self, media_type: Seq<char>, schema: SchemaModel)
        -> ResponseModel {
        ResponseModel {
            content: ordered::inserted(self.content, media_type, MediaTypeModel::new(schema)),
            ..self
        }
    }
}

impl Response {
    pub fn new(description: &str) -> (out: Self)
        ensures
            out@ == ResponseModel::new(description@),
    {
        Response { description: description.to_owned(), ..Response::default() }
    }

    /// Documents the payload for one media type.
    pub fn with_content(self, media_type: &str, schema: Schema) -> (out: Self)
        ensures
            out@ == self@.with_content(media_type@, schema@),
    {
        let media = MediaType::new(schema);
        proof {
            lemma_map_inserted(self.content@, media_type@, media);
        }
        let mut out = self;
        out.content.insert(media_type.to_owned(), media);
        out
    }

    pub fn with_json(self, schema: Schema) -> (out: Self)
        ensures
            out@ == self@.with_content("application/json"@, schema@),
    {
        self.with_content("application/json", schema)
    }
}

} // verus!
