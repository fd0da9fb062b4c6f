//! What a written document says, and where.

use crate::app::document;
use crate::app::document::{AppModel, Describe};
use crate::app::naming;
use crate::json::ValueModel;
use crate::openapi::ordered;
use crate::openapi::schema::{AdditionalModel, SchemaModel};
use crate::openapi::spec;
use crate::openapi::spec::{
    ApiKeyLocation, Components, ComponentsModel, Contact, ContactModel, Encoding, EncodingModel,
    Example, ExampleModel, ExternalDocs, ExternalDocsModel, Header, HeaderModel, Info, InfoModel,
    License, LicenseModel, Link, LinkModel, MediaType, MediaTypeModel, OAuthFlow, OAuthFlowModel,
    OAuthFlows, OAuthFlowsModel, OpenApi, OpenApiModel, OperationModel, Parameter,
    ParameterModel, PathItem, PathItemModel, RequestBody, RequestBodyModel, Response,
    ResponseModel, SecurityScheme, SecuritySchemeModel, Server, ServerModel, ServerVariable,
    ServerVariableModel, Tag, TagModel, Verb,
};
use crate::openapi::schema::Schema;
use crate::openapi::write::{
    bool_json, callbacks_json, components_json, count_json, entries, flag_json, items, list_json,
    map_json, member, number_json, operation_json, opt_json, opt_text_json, parameter_in,
    path_item_json, requirements_json, schema_json, schema_list, schema_members, string_members,
    strings, text_json, Members, ToJson,
};
use crate::text;
use vstd::prelude::*;
use vstd::string::*;

verus! {

// ---------------------------------------------------------------------------
// reading what was written
// ---------------------------------------------------------------------------

/// What a reader of members finds under a name; the last member of a name
/// counts.
#[verifier::opaque]
pub open spec fn held(members: Members, key: Seq<char>) -> Option<ValueModel>
    decreases members.len(),
{
    if members.len() == 0 {
        None
    } else if members.last().0 == key {
        Some(members.last().1)
    } else {
        held(members.drop_last(), key)
    }
}

/// What a reader of an object finds under a name.
pub open spec fn read(v: ValueModel, key: Seq<char>) -> Option<ValueModel> {
    match v {
        ValueModel::Object(members) => held(members, key),
        _ => None,
    }
}

/// The value that is there, or else the other.
pub open spec fn or(a: Option<ValueModel>, b: Option<ValueModel>) -> Option<ValueModel> {
    match a {
        Some(v) => Some(v),
        None => b,
    }
}

/// The value, where the names are the same.
pub open spec fn where_same(k: Seq<char>, v: Option<ValueModel>, key: Seq<char>) -> Option<
    ValueModel,
> {
    if k == key {
        v
    } else {
        None
    }
}

broadcast proof fn lemma_held_concat(a: Members, b: Members, key: Seq<char>)
    ensures
        #[trigger] held(a + b, key) == or(held(b, key), held(a, key)),
    decreases b.len(),
{
    reveal_with_fuel(held, 2);
    if b.len() == 0 {
        assert(a + b =~= a);
    } else {
        let all = a + b;
        assert(all.drop_last() =~= a + b.drop_last());
        assert(all.last() == b.last());
        lemma_held_concat(a, b.drop_last(), key);
    }
}

broadcast proof fn lemma_held_member(k: Seq<char>, v: Option<ValueModel>, key: Seq<char>)
    ensures
        #[trigger] held(member(k, v), key) == where_same(k, v, key),
{
    reveal_with_fuel(held, 3);
    let m = member(k, v);
    if v is Some {
        assert(m.drop_last() =~= Seq::empty());
        assert(m.last() == m[0]);
    }
}

broadcast proof fn lemma_held_none(key: Seq<char>)
    ensures
        #[trigger] held(Seq::<(Seq<char>, ValueModel)>::empty(), key) is None,
{
    reveal(held);
}

// ---------------------------------------------------------------------------
// each object, member by member
// ---------------------------------------------------------------------------

/// Each member of an external docs stands under the name that OpenAPI has for it, and
/// there is no other.
pub proof fn an_external_docs_is_written_under_its_names(v: ExternalDocsModel)
    ensures
        read(ExternalDocs::json(v), "url"@) == text_json(v.url),
        read(ExternalDocs::json(v), "description"@) == opt_text_json(v.description),
        forall|key: Seq<char>| (#[trigger] read(ExternalDocs::json(v), key)) is Some ==> key == "url"@ || key == "description"@,
{
    broadcast use {lemma_held_concat, lemma_held_member, lemma_held_none};

    reveal_strlit("url");
    assert("url"@.len() == 3);
    reveal_strlit("description");
    assert("description"@.len() == 11);
}

/// Each member of a contact stands under the name that OpenAPI has for it, and
/// there is no other.
pub proof fn a_contact_is_written_under_its_names(v: ContactModel)
    ensures
        read(Contact::json(v), "name"@) == opt_text_json(v.name),
        read(Contact::json(v), "url"@) == opt_text_json(v.url),
        read(Contact::json(v), "email"@) == opt_text_json(v.email),
        forall|key: Seq<char>| (#[trigger] read(Contact::json(v), key)) is Some ==> key == "name"@ || key == "url"@ || key == "email"@,
{
    broadcast use {lemma_held_concat, lemma_held_member, lemma_held_none};

    reveal_strlit("name");
    assert("name"@.len() == 4);
    reveal_strlit("url");
    assert("url"@.len() == 3);
    reveal_strlit("email");
    assert("email"@.len() == 5);
}

/// Each member of a license stands under the name that OpenAPI has for it, and
/// there is no other.
pub proof fn a_license_is_written_under_its_names(v: LicenseModel)
    ensures
        read(License::json(v), "name"@) == text_json(v.name),
        read(License::json(v), "identifier"@) == opt_text_json(v.identifier),
        read(License::json(v), "url"@) == opt_text_json(v.url),
        forall|key: Seq<char>| (#[trigger] read(License::json(v), key)) is Some ==> key == "name"@ || key == "identifier"@ || key == "url"@,
{
    broadcast use {lemma_held_concat, lemma_held_member, lemma_held_none};

    reveal_strlit("name");
    assert("name"@.len() == 4);
    reveal_strlit("identifier");
    assert("identifier"@.len() == 10);
    reveal_strlit("url");
    assert("url"@.len() == 3);
}

/// Each member of a server variable stands under the name that OpenAPI has for it, and
/// there is no other.
pub proof fn a_server_variable_is_written_under_its_names(v: ServerVariableModel)
    ensures
        read(ServerVariable::json(v), "enum"@) == list_json(strings(v.enum_values)),
        read(ServerVariable::json(v), "default"@) == text_json(v.default),
        read(ServerVariable::json(v), "description"@) == opt_text_json(v.description),
        forall|key: Seq<char>| (#[trigger] read(ServerVariable::json(v), key)) is Some ==> key == "enum"@ || key == "default"@ || key == "description"@,
{
    broadcast use {lemma_held_concat, lemma_held_member, lemma_held_none};

    reveal_strlit("enum");
    assert("enum"@.len() == 4);
    reveal_strlit("default");
    assert("default"@.len() == 7);
    reveal_strlit("description");
    assert("description"@.len() == 11);
}

/// Each member of a server stands under the name that OpenAPI has for it, and
/// there is no other.
pub proof fn a_server_is_written_under_its_names(v: ServerModel)
    ensures
        read(Server::json(v), "url"@) == text_json(v.url),
        read(Server::json(v), "description"@) == opt_text_json(v.description),
        read(Server::json(v), "variables"@) == map_json(entries::<ServerVariable>(v.variables)),
        forall|key: Seq<char>| (#[trigger] read(Server::json(v), key)) is Some ==> key == "url"@ || key == "description"@ || key == "variables"@,
{
    broadcast use {lemma_held_concat, lemma_held_member, lemma_held_none};

    reveal_strlit("url");
    assert("url"@.len() == 3);
    reveal_strlit("description");
    assert("description"@.len() == 11);
    reveal_strlit("variables");
    assert("variables"@.len() == 9);
}

/// Each member of a tag stands under the name that OpenAPI has for it, and
/// there is no other.
pub proof fn a_tag_is_written_under_its_names(v: TagModel)
    ensures
        read(Tag::json(v), "name"@) == text_json(v.name),
        read(Tag::json(v), "description"@) == opt_text_json(v.description),
        read(Tag::json(v), "externalDocs"@) == opt_json::<ExternalDocs>(v.external_docs),
        forall|key: Seq<char>| (#[trigger] read(Tag::json(v), key)) is Some ==> key == "name"@ || key == "description"@ || key == "externalDocs"@,
{
    broadcast use {lemma_held_concat, lemma_held_member, lemma_held_none};

    reveal_strlit("name");
    assert("name"@.len() == 4);
    reveal_strlit("description");
    assert("description"@.len() == 11);
    reveal_strlit("externalDocs");
    assert("externalDocs"@.len() == 12);
}

/// Each member of an info stands under the name that OpenAPI has for it, and
/// there is no other.
pub proof fn an_info_is_written_under_its_names(v: InfoModel)
    ensures
        read(Info::json(v), "title"@) == text_json(v.title),
        read(Info::json(v), "summary"@) == opt_text_json(v.summary),
        read(Info::json(v), "description"@) == opt_text_json(v.description),
        read(Info::json(v), "termsOfService"@) == opt_text_json(v.terms_of_service),
        read(Info::json(v), "contact"@) == opt_json::<Contact>(v.contact),
        read(Info::json(v), "license"@) == opt_json::<License>(v.license),
        read(Info::json(v), "version"@) == text_json(v.version),
        forall|key: Seq<char>| (#[trigger] read(Info::json(v), key)) is Some ==> key == "title"@ || key == "summary"@ || key == "description"@ || key == "termsOfService"@ || key == "contact"@ || key == "license"@ || key == "version"@,
{
    broadcast use {lemma_held_concat, lemma_held_member, lemma_held_none};

    reveal_strlit("title");
    assert("title"@.len() == 5);
    reveal_strlit("summary");
    assert("summary"@.len() == 7);
    assert("summary"@[0] == 's');
    reveal_strlit("description");
    assert("description"@.len() == 11);
    reveal_strlit("termsOfService");
    assert("termsOfService"@.len() == 14);
    reveal_strlit("contact");
    assert("contact"@.len() == 7);
    assert("contact"@[0] == 'c');
    reveal_strlit("license");
    assert("license"@.len() == 7);
    assert("license"@[0] == 'l');
    reveal_strlit("version");
    assert("version"@.len() == 7);
    assert("version"@[0] == 'v');
}

/// Each member of an example stands under the name that OpenAPI has for it, and
/// there is no other.
pub proof fn an_example_is_written_under_its_names(v: ExampleModel)
    ensures
        read(Example::json(v), "summary"@) == opt_text_json(v.summary),
        read(Example::json(v), "description"@) == opt_text_json(v.description),
        read(Example::json(v), "value"@) == v.value,
        forall|key: Seq<char>| (#[trigger] read(Example::json(v), key)) is Some ==> key == "summary"@ || key == "description"@ || key == "value"@,
{
    broadcast use {lemma_held_concat, lemma_held_member, lemma_held_none};

    reveal_strlit("summary");
    assert("summary"@.len() == 7);
    reveal_strlit("description");
    assert("description"@.len() == 11);
    reveal_strlit("value");
    assert("value"@.len() == 5);
}

/// Each member of an encoding stands under the name that OpenAPI has for it, and
/// there is no other.
pub proof fn an_encoding_is_written_under_its_names(v: EncodingModel)
    ensures
        read(Encoding::json(v), "contentType"@) == opt_text_json(v.content_type),
        read(Encoding::json(v), "explode"@) == bool_json(v.explode),
        forall|key: Seq<char>| (#[trigger] read(Encoding::json(v), key)) is Some ==> key == "contentType"@ || key == "explode"@,
{
    broadcast use {lemma_held_concat, lemma_held_member, lemma_held_none};

    reveal_strlit("contentType");
    assert("contentType"@.len() == 11);
    reveal_strlit("explode");
    assert("explode"@.len() == 7);
}

/// Each member of a media type stands under the name that OpenAPI has for it, and
/// there is no other.
pub proof fn a_media_type_is_written_under_its_names(v: MediaTypeModel)
    ensures
        read(MediaType::json(v), "schema"@) == opt_json::<Schema>(v.schema),
        read(MediaType::json(v), "examples"@) == map_json(entries::<Example>(v.examples)),
        read(MediaType::json(v), "encoding"@) == map_json(entries::<Encoding>(v.encoding)),
        forall|key: Seq<char>| (#[trigger] read(MediaType::json(v), key)) is Some ==> key == "schema"@ || key == "examples"@ || key == "encoding"@,
{
    broadcast use {lemma_held_concat, lemma_held_member, lemma_held_none};

    reveal_strlit("schema");
    assert("schema"@.len() == 6);
    reveal_strlit("examples");
    assert("examples"@.len() == 8);
    assert("examples"@[1] == 'x');
    reveal_strlit("encoding");
    assert("encoding"@.len() == 8);
    assert("encoding"@[1] == 'n');
}

/// Each member of a header stands under the name that OpenAPI has for it, and
/// there is no other.
pub proof fn a_header_is_written_under_its_names(v: HeaderModel)
    ensures
        read(Header::json(v), "description"@) == opt_text_json(v.description),
        read(Header::json(v), "required"@) == flag_json(v.required),
        read(Header::json(v), "schema"@) == opt_json::<Schema>(v.schema),
        forall|key: Seq<char>| (#[trigger] read(Header::json(v), key)) is Some ==> key == "description"@ || key == "required"@ || key == "schema"@,
{
    broadcast use {lemma_held_concat, lemma_held_member, lemma_held_none};

    reveal_strlit("description");
    assert("description"@.len() == 11);
    reveal_strlit("required");
    assert("required"@.len() == 8);
    reveal_strlit("schema");
    assert("schema"@.len() == 6);
}

/// Each member of a link stands under the name that OpenAPI has for it, and
/// there is no other.
pub proof fn a_link_is_written_under_its_names(v: LinkModel)
    ensures
        read(Link::json(v), "operationId"@) == opt_text_json(v.operation_id),
        read(Link::json(v), "parameters"@) == map_json(v.parameters),
        read(Link::json(v), "description"@) == opt_text_json(v.description),
        forall|key: Seq<char>| (#[trigger] read(Link::json(v), key)) is Some ==> key == "operationId"@ || key == "parameters"@ || key == "description"@,
{
    broadcast use {lemma_held_concat, lemma_held_member, lemma_held_none};

    reveal_strlit("operationId");
    assert("operationId"@.len() == 11);
    assert("operationId"@[0] == 'o');
    reveal_strlit("parameters");
    assert("parameters"@.len() == 10);
    reveal_strlit("description");
    assert("description"@.len() == 11);
    assert("description"@[0] == 'd');
}

/// Each member of a response stands under the name that OpenAPI has for it, and
/// there is no other.
pub proof fn a_response_is_written_under_its_names(v: ResponseModel)
    ensures
        read(Response::json(v), "description"@) == text_json(v.description),
        read(Response::json(v), "headers"@) == map_json(entries::<Header>(v.headers)),
        read(Response::json(v), "content"@) == map_json(entries::<MediaType>(v.content)),
        read(Response::json(v), "links"@) == map_json(entries::<Link>(v.links)),
        forall|key: Seq<char>| (#[trigger] read(Response::json(v), key)) is Some ==> key == "description"@ || key == "headers"@ || key == "content"@ || key == "links"@,
{
    broadcast use {lemma_held_concat, lemma_held_member, lemma_held_none};

    reveal_strlit("description");
    assert("description"@.len() == 11);
    reveal_strlit("headers");
    assert("headers"@.len() == 7);
    assert("headers"@[0] == 'h');
    reveal_strlit("content");
    assert("content"@.len() == 7);
    assert("content"@[0] == 'c');
    reveal_strlit("links");
    assert("links"@.len() == 5);
}

/// Each member of a request body stands under the name that OpenAPI has for it, and
/// there is no other.
pub proof fn a_request_body_is_written_under_its_names(v: RequestBodyModel)
    ensures
        read(RequestBody::json(v), "description"@) == opt_text_json(v.description),
        read(RequestBody::json(v), "content"@) == map_json(entries::<MediaType>(v.content)),
        read(RequestBody::json(v), "required"@) == flag_json(v.required),
        forall|key: Seq<char>| (#[trigger] read(RequestBody::json(v), key)) is Some ==> key == "description"@ || key == "content"@ || key == "required"@,
{
    broadcast use {lemma_held_concat, lemma_held_member, lemma_held_none};

    reveal_strlit("description");
    assert("description"@.len() == 11);
    reveal_strlit("content");
    assert("content"@.len() == 7);
    reveal_strlit("required");
    assert("required"@.len() == 8);
}

/// Each member of a parameter stands under the name that OpenAPI has for it, and
/// there is no other.
pub proof fn a_parameter_is_written_under_its_names(v: ParameterModel)
    ensures
        read(Parameter::json(v), "name"@) == text_json(v.name),
        read(Parameter::json(v), "in"@) == text_json(parameter_in(v.location)),
        read(Parameter::json(v), "description"@) == opt_text_json(v.description),
        read(Parameter::json(v), "required"@) == flag_json(v.required),
        read(Parameter::json(v), "deprecated"@) == flag_json(v.deprecated),
        read(Parameter::json(v), "style"@) == opt_text_json(v.style),
        read(Parameter::json(v), "explode"@) == bool_json(v.explode),
        read(Parameter::json(v), "schema"@) == opt_json::<Schema>(v.schema),
        read(Parameter::json(v), "examples"@) == map_json(entries::<Example>(v.examples)),
        forall|key: Seq<char>| (#[trigger] read(Parameter::json(v), key)) is Some ==> key == "name"@ || key == "in"@ || key == "description"@ || key == "required"@ || key == "deprecated"@ || key == "style"@ || key == "explode"@ || key == "schema"@ || key == "examples"@,
{
    broadcast use {lemma_held_concat, lemma_held_member, lemma_held_none};

    reveal_strlit("name");
    assert("name"@.len() == 4);
    reveal_strlit("in");
    assert("in"@.len() == 2);
    reveal_strlit("description");
    assert("description"@.len() == 11);
    reveal_strlit("required");
    assert("required"@.len() == 8);
    assert("required"@[0] == 'r');
    reveal_strlit("deprecated");
    assert("deprecated"@.len() == 10);
    reveal_strlit("style");
    assert("style"@.len() == 5);
    reveal_strlit("explode");
    assert("explode"@.len() == 7);
    reveal_strlit("schema");
    assert("schema"@.len() == 6);
    reveal_strlit("examples");
    assert("examples"@.len() == 8);
    assert("examples"@[0] == 'e');
}

/// Each member of an o auth flow stands under the name that OpenAPI has for it, and
/// there is no other.
pub proof fn an_oauth_flow_is_written_under_its_names(v: OAuthFlowModel)
    ensures
        read(OAuthFlow::json(v), "authorizationUrl"@) == opt_text_json(v.authorization_url),
        read(OAuthFlow::json(v), "tokenUrl"@) == opt_text_json(v.token_url),
        read(OAuthFlow::json(v), "refreshUrl"@) == opt_text_json(v.refresh_url),
        read(OAuthFlow::json(v), "scopes"@) == Some(ValueModel::Object(string_members(v.scopes))),
        forall|key: Seq<char>| (#[trigger] read(OAuthFlow::json(v), key)) is Some ==> key == "authorizationUrl"@ || key == "tokenUrl"@ || key == "refreshUrl"@ || key == "scopes"@,
{
    broadcast use {lemma_held_concat, lemma_held_member, lemma_held_none};

    reveal_strlit("authorizationUrl");
    assert("authorizationUrl"@.len() == 16);
    reveal_strlit("tokenUrl");
    assert("tokenUrl"@.len() == 8);
    reveal_strlit("refreshUrl");
    assert("refreshUrl"@.len() == 10);
    reveal_strlit("scopes");
    assert("scopes"@.len() == 6);
}

/// Each member of an o auth flows stands under the name that OpenAPI has for it, and
/// there is no other.
pub proof fn an_oauth_flows_is_written_under_its_names(v: OAuthFlowsModel)
    ensures
        read(OAuthFlows::json(v), "implicit"@) == opt_json::<OAuthFlow>(v.implicit),
        read(OAuthFlows::json(v), "password"@) == opt_json::<OAuthFlow>(v.password),
        read(OAuthFlows::json(v), "clientCredentials"@) == opt_json::<OAuthFlow>(v.client_credentials),
        read(OAuthFlows::json(v), "authorizationCode"@) == opt_json::<OAuthFlow>(v.authorization_code),
        forall|key: Seq<char>| (#[trigger] read(OAuthFlows::json(v), key)) is Some ==> key == "implicit"@ || key == "password"@ || key == "clientCredentials"@ || key == "authorizationCode"@,
{
    broadcast use {lemma_held_concat, lemma_held_member, lemma_held_none};

    reveal_strlit("implicit");
    assert("implicit"@.len() == 8);
    assert("implicit"@[0] == 'i');
    reveal_strlit("password");
    assert("password"@.len() == 8);
    assert("password"@[0] == 'p');
    reveal_strlit("clientCredentials");
    assert("clientCredentials"@.len() == 17);
    assert("clientCredentials"@[0] == 'c');
    reveal_strlit("authorizationCode");
    assert("authorizationCode"@.len() == 17);
    assert("authorizationCode"@[0] == 'a');
}

/// Each member of a components stands under the name that OpenAPI has for it, and
/// there is no other.
pub proof fn a_components_is_written_under_its_names(v: ComponentsModel)
    ensures
        read(Components::json(v), "schemas"@) == map_json(schema_members(v.schemas)),
        read(Components::json(v), "responses"@) == map_json(entries::<Response>(v.responses)),
        read(Components::json(v), "parameters"@) == map_json(entries::<Parameter>(v.parameters)),
        read(Components::json(v), "examples"@) == map_json(entries::<Example>(v.examples)),
        read(Components::json(v), "requestBodies"@) == map_json(entries::<RequestBody>(v.request_bodies)),
        read(Components::json(v), "headers"@) == map_json(entries::<Header>(v.headers)),
        read(Components::json(v), "securitySchemes"@) == map_json(entries::<SecurityScheme>(v.security_schemes)),
        forall|key: Seq<char>| (#[trigger] read(Components::json(v), key)) is Some ==> key == "schemas"@ || key == "responses"@ || key == "parameters"@ || key == "examples"@ || key == "requestBodies"@ || key == "headers"@ || key == "securitySchemes"@,
{
    broadcast use {lemma_held_concat, lemma_held_member, lemma_held_none};

    reveal_strlit("schemas");
    assert("schemas"@.len() == 7);
    assert("schemas"@[0] == 's');
    reveal_strlit("responses");
    assert("responses"@.len() == 9);
    reveal_strlit("parameters");
    assert("parameters"@.len() == 10);
    reveal_strlit("examples");
    assert("examples"@.len() == 8);
    reveal_strlit("requestBodies");
    assert("requestBodies"@.len() == 13);
    reveal_strlit("headers");
    assert("headers"@.len() == 7);
    assert("headers"@[0] == 'h');
    reveal_strlit("securitySchemes");
    assert("securitySchemes"@.len() == 15);
}

proof fn lemma_open_api_a(front: Members, v0: Option<ValueModel>, v1: Option<ValueModel>, v2: Option<ValueModel>, v3: Option<ValueModel>, v4: Option<ValueModel>, v5: Option<ValueModel>, v6: Option<ValueModel>, v7: Option<ValueModel>, v8: Option<ValueModel>)
    ensures
        held(front + member("openapi"@, v0) + member("info"@, v1) + member("jsonSchemaDialect"@, v2) + member("servers"@, v3) + member("paths"@, v4) + member("webhooks"@, v5) + member("components"@, v6) + member("security"@, v7) + member("tags"@, v8), "openapi"@) == or(v0, held(front, "openapi"@)),
        held(front + member("openapi"@, v0) + member("info"@, v1) + member("jsonSchemaDialect"@, v2) + member("servers"@, v3) + member("paths"@, v4) + member("webhooks"@, v5) + member("components"@, v6) + member("security"@, v7) + member("tags"@, v8), "info"@) == or(v1, held(front, "info"@)),
        held(front + member("openapi"@, v0) + member("info"@, v1) + member("jsonSchemaDialect"@, v2) + member("servers"@, v3) + member("paths"@, v4) + member("webhooks"@, v5) + member("components"@, v6) + member("security"@, v7) + member("tags"@, v8), "jsonSchemaDialect"@) == or(v2, held(front, "jsonSchemaDialect"@)),
        held(front + member("openapi"@, v0) + member("info"@, v1) + member("jsonSchemaDialect"@, v2) + member("servers"@, v3) + member("paths"@, v4) + member("webhooks"@, v5) + member("components"@, v6) + member("security"@, v7) + member("tags"@, v8), "servers"@) == or(v3, held(front, "servers"@)),
        held(front + member("openapi"@, v0) + member("info"@, v1) + member("jsonSchemaDialect"@, v2) + member("servers"@, v3) + member("paths"@, v4) + member("webhooks"@, v5) + member("components"@, v6) + member("security"@, v7) + member("tags"@, v8), "paths"@) == or(v4, held(front, "paths"@)),
        held(front + member("openapi"@, v0) + member("info"@, v1) + member("jsonSchemaDialect"@, v2) + member("servers"@, v3) + member("paths"@, v4) + member("webhooks"@, v5) + member("components"@, v6) + member("security"@, v7) + member("tags"@, v8), "webhooks"@) == or(v5, held(front, "webhooks"@)),
        held(front + member("openapi"@, v0) + member("info"@, v1) + member("jsonSchemaDialect"@, v2) + member("servers"@, v3) + member("paths"@, v4) + member("webhooks"@, v5) + member("components"@, v6) + member("security"@, v7) + member("tags"@, v8), "components"@) == or(v6, held(front, "components"@)),
        held(front + member("openapi"@, v0) + member("info"@, v1) + member("jsonSchemaDialect"@, v2) + member("servers"@, v3) + member("paths"@, v4) + member("webhooks"@, v5) + member("components"@, v6) + member("security"@, v7) + member("tags"@, v8), "security"@) == or(v7, held(front, "security"@)),
        held(front + member("openapi"@, v0) + member("info"@, v1) + member("jsonSchemaDialect"@, v2) + member("servers"@, v3) + member("paths"@, v4) + member("webhooks"@, v5) + member("components"@, v6) + member("security"@, v7) + member("tags"@, v8), "tags"@) == or(v8, held(front, "tags"@)),
        forall|key: Seq<char>| key == "openapi"@ || key == "info"@ || key == "jsonSchemaDialect"@ || key == "servers"@ || key == "paths"@ || key == "webhooks"@ || key == "components"@ || key == "security"@ || key == "tags"@ || (#[trigger] held(front + member("openapi"@, v0) + member("info"@, v1) + member("jsonSchemaDialect"@, v2) + member("servers"@, v3) + member("paths"@, v4) + member("webhooks"@, v5) + member("components"@, v6) + member("security"@, v7) + member("tags"@, v8), key)) == held(front, key),
{
    broadcast use {lemma_held_concat, lemma_held_member, lemma_held_none};

    reveal_strlit("openapi");
    assert("openapi"@.len() == 7);
    assert("openapi"@[0] == 'o');
    reveal_strlit("info");
    assert("info"@.len() == 4);
    assert("info"@[0] == 'i');
    reveal_strlit("jsonSchemaDialect");
    assert("jsonSchemaDialect"@.len() == 17);
    reveal_strlit("servers");
    assert("servers"@.len() == 7);
    assert("servers"@[0] == 's');
    reveal_strlit("paths");
    assert("paths"@.len() == 5);
    reveal_strlit("webhooks");
    assert("webhooks"@.len() == 8);
    assert("webhooks"@[0] == 'w');
    reveal_strlit("components");
    assert("components"@.len() == 10);
    reveal_strlit("security");
    assert("security"@.len() == 8);
    assert("security"@[0] == 's');
    reveal_strlit("tags");
    assert("tags"@.len() == 4);
    assert("tags"@[0] == 't');
}

proof fn lemma_open_api_b(front: Members, v0: Option<ValueModel>)
    ensures
        held(front + member("externalDocs"@, v0), "externalDocs"@) == or(v0, held(front, "externalDocs"@)),
        forall|key: Seq<char>| key == "externalDocs"@ || (#[trigger] held(front + member("externalDocs"@, v0), key)) == held(front, key),
{
    broadcast use {lemma_held_concat, lemma_held_member, lemma_held_none};

    reveal_strlit("externalDocs");
    assert("externalDocs"@.len() == 12);
}

/// Each member of an open api stands under the name that OpenAPI has for it, and
/// there is no other but the extensions.
pub proof fn an_open_api_is_written_under_its_names(v: OpenApiModel)
    ensures
        read(OpenApi::json(v), "openapi"@) == or(
            held(v.extensions, "openapi"@),
            text_json(v.openapi),
        ),
        read(OpenApi::json(v), "info"@) == or(
            held(v.extensions, "info"@),
            Some(Info::json(v.info)),
        ),
        read(OpenApi::json(v), "jsonSchemaDialect"@) == or(
            held(v.extensions, "jsonSchemaDialect"@),
            opt_text_json(v.json_schema_dialect),
        ),
        read(OpenApi::json(v), "servers"@) == or(
            held(v.extensions, "servers"@),
            list_json(items::<Server>(v.servers)),
        ),
        read(OpenApi::json(v), "paths"@) == or(
            held(v.extensions, "paths"@),
            map_json(entries::<PathItem>(v.paths)),
        ),
        read(OpenApi::json(v), "webhooks"@) == or(
            held(v.extensions, "webhooks"@),
            map_json(entries::<PathItem>(v.webhooks)),
        ),
        read(OpenApi::json(v), "components"@) == or(
            held(v.extensions, "components"@),
            components_json(v.components),
        ),
        read(OpenApi::json(v), "security"@) == or(
            held(v.extensions, "security"@),
            list_json(requirements_json(v.security)),
        ),
        read(OpenApi::json(v), "tags"@) == or(
            held(v.extensions, "tags"@),
            list_json(items::<Tag>(v.tags)),
        ),
        read(OpenApi::json(v), "externalDocs"@) == or(
            held(v.extensions, "externalDocs"@),
            opt_json::<ExternalDocs>(v.external_docs),
        ),
        forall|key: Seq<char>| (#[trigger] read(OpenApi::json(v), key)) is Some ==> held(v.extensions, key) is Some || key == "openapi"@ || key == "info"@ || key == "jsonSchemaDialect"@ || key == "servers"@ || key == "paths"@ || key == "webhooks"@ || key == "components"@ || key == "security"@ || key == "tags"@ || key == "externalDocs"@,
{
    broadcast use {lemma_held_none};

    reveal_strlit("openapi");
    assert("openapi"@.len() == 7);
    assert("openapi"@[0] == 'o');
    reveal_strlit("info");
    assert("info"@.len() == 4);
    assert("info"@[0] == 'i');
    reveal_strlit("jsonSchemaDialect");
    assert("jsonSchemaDialect"@.len() == 17);
    reveal_strlit("servers");
    assert("servers"@.len() == 7);
    assert("servers"@[0] == 's');
    reveal_strlit("paths");
    assert("paths"@.len() == 5);
    reveal_strlit("webhooks");
    assert("webhooks"@.len() == 8);
    assert("webhooks"@[0] == 'w');
    reveal_strlit("components");
    assert("components"@.len() == 10);
    reveal_strlit("security");
    assert("security"@.len() == 8);
    assert("security"@[0] == 's');
    reveal_strlit("tags");
    assert("tags"@.len() == 4);
    assert("tags"@[0] == 't');
    reveal_strlit("externalDocs");
    assert("externalDocs"@.len() == 12);
    let f0 = Seq::<(Seq<char>, ValueModel)>::empty();
    let v0_0 = text_json(v.openapi);
    let v0_1 = Some(Info::json(v.info));
    let v0_2 = opt_text_json(v.json_schema_dialect);
    let v0_3 = list_json(items::<Server>(v.servers));
    let v0_4 = map_json(entries::<PathItem>(v.paths));
    let v0_5 = map_json(entries::<PathItem>(v.webhooks));
    let v0_6 = components_json(v.components);
    let v0_7 = list_json(requirements_json(v.security));
    let v0_8 = list_json(items::<Tag>(v.tags));
    let f1 = f0 + member("openapi"@, v0_0) + member("info"@, v0_1) + member("jsonSchemaDialect"@, v0_2) + member("servers"@, v0_3) + member("paths"@, v0_4) + member("webhooks"@, v0_5) + member("components"@, v0_6) + member("security"@, v0_7) + member("tags"@, v0_8);
    lemma_open_api_a(f0, v0_0, v0_1, v0_2, v0_3, v0_4, v0_5, v0_6, v0_7, v0_8);
    let v1_0 = opt_json::<ExternalDocs>(v.external_docs);
    let f2 = f1 + member("externalDocs"@, v1_0);
    lemma_open_api_b(f1, v1_0);
    assert(OpenApi::json(v) == ValueModel::Object(f2 + v.extensions));
    assert forall|key: Seq<char>| #[trigger] held(f2 + v.extensions, key) == or(held(v.extensions, key), held(f2, key)) by {
        lemma_held_concat(f2, v.extensions, key);
    }
}

proof fn lemma_operation_a(front: Members, v0: Option<ValueModel>, v1: Option<ValueModel>, v2: Option<ValueModel>, v3: Option<ValueModel>, v4: Option<ValueModel>, v5: Option<ValueModel>, v6: Option<ValueModel>, v7: Option<ValueModel>, v8: Option<ValueModel>)
    ensures
        held(front + member("tags"@, v0) + member("summary"@, v1) + member("description"@, v2) + member("externalDocs"@, v3) + member("operationId"@, v4) + member("parameters"@, v5) + member("requestBody"@, v6) + member("responses"@, v7) + member("callbacks"@, v8), "tags"@) == or(v0, held(front, "tags"@)),
        held(front + member("tags"@, v0) + member("summary"@, v1) + member("description"@, v2) + member("externalDocs"@, v3) + member("operationId"@, v4) + member("parameters"@, v5) + member("requestBody"@, v6) + member("responses"@, v7) + member("callbacks"@, v8), "summary"@) == or(v1, held(front, "summary"@)),
        held(front + member("tags"@, v0) + member("summary"@, v1) + member("description"@, v2) + member("externalDocs"@, v3) + member("operationId"@, v4) + member("parameters"@, v5) + member("requestBody"@, v6) + member("responses"@, v7) + member("callbacks"@, v8), "description"@) == or(v2, held(front, "description"@)),
        held(front + member("tags"@, v0) + member("summary"@, v1) + member("description"@, v2) + member("externalDocs"@, v3) + member("operationId"@, v4) + member("parameters"@, v5) + member("requestBody"@, v6) + member("responses"@, v7) + member("callbacks"@, v8), "externalDocs"@) == or(v3, held(front, "externalDocs"@)),
        held(front + member("tags"@, v0) + member("summary"@, v1) + member("description"@, v2) + member("externalDocs"@, v3) + member("operationId"@, v4) + member("parameters"@, v5) + member("requestBody"@, v6) + member("responses"@, v7) + member("callbacks"@, v8), "operationId"@) == or(v4, held(front, "operationId"@)),
        held(front + member("tags"@, v0) + member("summary"@, v1) + member("description"@, v2) + member("externalDocs"@, v3) + member("operationId"@, v4) + member("parameters"@, v5) + member("requestBody"@, v6) + member("responses"@, v7) + member("callbacks"@, v8), "parameters"@) == or(v5, held(front, "parameters"@)),
        held(front + member("tags"@, v0) + member("summary"@, v1) + member("description"@, v2) + member("externalDocs"@, v3) + member("operationId"@, v4) + member("parameters"@, v5) + member("requestBody"@, v6) + member("responses"@, v7) + member("callbacks"@, v8), "requestBody"@) == or(v6, held(front, "requestBody"@)),
        held(front + member("tags"@, v0) + member("summary"@, v1) + member("description"@, v2) + member("externalDocs"@, v3) + member("operationId"@, v4) + member("parameters"@, v5) + member("requestBody"@, v6) + member("responses"@, v7) + member("callbacks"@, v8), "responses"@) == or(v7, held(front, "responses"@)),
        held(front + member("tags"@, v0) + member("summary"@, v1) + member("description"@, v2) + member("externalDocs"@, v3) + member("operationId"@, v4) + member("parameters"@, v5) + member("requestBody"@, v6) + member("responses"@, v7) + member("callbacks"@, v8), "callbacks"@) == or(v8, held(front, "callbacks"@)),
        forall|key: Seq<char>| key == "tags"@ || key == "summary"@ || key == "description"@ || key == "externalDocs"@ || key == "operationId"@ || key == "parameters"@ || key == "requestBody"@ || key == "responses"@ || key == "callbacks"@ || (#[trigger] held(front + member("tags"@, v0) + member("summary"@, v1) + member("description"@, v2) + member("externalDocs"@, v3) + member("operationId"@, v4) + member("parameters"@, v5) + member("requestBody"@, v6) + member("responses"@, v7) + member("callbacks"@, v8), key)) == held(front, key),
{
    broadcast use {lemma_held_concat, lemma_held_member, lemma_held_none};

    reveal_strlit("tags");
    assert("tags"@.len() == 4);
    reveal_strlit("summary");
    assert("summary"@.len() == 7);
    reveal_strlit("description");
    assert("description"@.len() == 11);
    assert("description"@[0] == 'd');
    reveal_strlit("externalDocs");
    assert("externalDocs"@.len() == 12);
    reveal_strlit("operationId");
    assert("operationId"@.len() == 11);
    assert("operationId"@[0] == 'o');
    reveal_strlit("parameters");
    assert("parameters"@.len() == 10);
    reveal_strlit("requestBody");
    assert("requestBody"@.len() == 11);
    assert("requestBody"@[0] == 'r');
    reveal_strlit("responses");
    assert("responses"@.len() == 9);
    assert("responses"@[0] == 'r');
    reveal_strlit("callbacks");
    assert("callbacks"@.len() == 9);
    assert("callbacks"@[0] == 'c');
}

proof fn lemma_operation_b(front: Members, v0: Option<ValueModel>, v1: Option<ValueModel>, v2: Option<ValueModel>)
    ensures
        held(front + member("deprecated"@, v0) + member("security"@, v1) + member("servers"@, v2), "deprecated"@) == or(v0, held(front, "deprecated"@)),
        held(front + member("deprecated"@, v0) + member("security"@, v1) + member("servers"@, v2), "security"@) == or(v1, held(front, "security"@)),
        held(front + member("deprecated"@, v0) + member("security"@, v1) + member("servers"@, v2), "servers"@) == or(v2, held(front, "servers"@)),
        forall|key: Seq<char>| key == "deprecated"@ || key == "security"@ || key == "servers"@ || (#[trigger] held(front + member("deprecated"@, v0) + member("security"@, v1) + member("servers"@, v2), key)) == held(front, key),
{
    broadcast use {lemma_held_concat, lemma_held_member, lemma_held_none};

    reveal_strlit("deprecated");
    assert("deprecated"@.len() == 10);
    reveal_strlit("security");
    assert("security"@.len() == 8);
    reveal_strlit("servers");
    assert("servers"@.len() == 7);
}

/// Each member of an operation stands under the name that OpenAPI has for it, and
/// there is no other but the extensions.
pub proof fn an_operation_is_written_under_its_names(v: OperationModel)
    ensures
        read(operation_json(v), "tags"@) == or(
            held(v.extensions, "tags"@),
            list_json(strings(v.tags)),
        ),
        read(operation_json(v), "summary"@) == or(
            held(v.extensions, "summary"@),
            opt_text_json(v.summary),
        ),
        read(operation_json(v), "description"@) == or(
            held(v.extensions, "description"@),
            opt_text_json(v.description),
        ),
        read(operation_json(v), "externalDocs"@) == or(
            held(v.extensions, "externalDocs"@),
            opt_json::<ExternalDocs>(v.external_docs),
        ),
        read(operation_json(v), "operationId"@) == or(
            held(v.extensions, "operationId"@),
            opt_text_json(v.operation_id),
        ),
        read(operation_json(v), "parameters"@) == or(
            held(v.extensions, "parameters"@),
            list_json(items::<Parameter>(v.parameters)),
        ),
        read(operation_json(v), "requestBody"@) == or(
            held(v.extensions, "requestBody"@),
            opt_json::<RequestBody>(v.request_body),
        ),
        read(operation_json(v), "responses"@) == or(
            held(v.extensions, "responses"@),
            map_json(entries::<Response>(v.responses)),
        ),
        read(operation_json(v), "callbacks"@) == or(
            held(v.extensions, "callbacks"@),
            map_json(callbacks_json(v.callbacks)),
        ),
        read(operation_json(v), "deprecated"@) == or(
            held(v.extensions, "deprecated"@),
            flag_json(v.deprecated),
        ),
        read(operation_json(v), "security"@) == or(
            held(v.extensions, "security"@),
            match v.security { Some(list) => Some(ValueModel::Array(requirements_json(list))), None => None, },
        ),
        read(operation_json(v), "servers"@) == or(
            held(v.extensions, "servers"@),
            list_json(items::<Server>(v.servers)),
        ),
        forall|key: Seq<char>| (#[trigger] read(operation_json(v), key)) is Some ==> held(v.extensions, key) is Some || key == "tags"@ || key == "summary"@ || key == "description"@ || key == "externalDocs"@ || key == "operationId"@ || key == "parameters"@ || key == "requestBody"@ || key == "responses"@ || key == "callbacks"@ || key == "deprecated"@ || key == "security"@ || key == "servers"@,
{
    broadcast use {lemma_held_none};

    reveal_strlit("tags");
    assert("tags"@.len() == 4);
    reveal_strlit("summary");
    assert("summary"@.len() == 7);
    assert("summary"@[1] == 'u');
    reveal_strlit("description");
    assert("description"@.len() == 11);
    assert("description"@[0] == 'd');
    reveal_strlit("externalDocs");
    assert("externalDocs"@.len() == 12);
    reveal_strlit("operationId");
    assert("operationId"@.len() == 11);
    assert("operationId"@[0] == 'o');
    reveal_strlit("parameters");
    assert("parameters"@.len() == 10);
    assert("parameters"@[0] == 'p');
    reveal_strlit("requestBody");
    assert("requestBody"@.len() == 11);
    assert("requestBody"@[0] == 'r');
    reveal_strlit("responses");
    assert("responses"@.len() == 9);
    assert("responses"@[0] == 'r');
    reveal_strlit("callbacks");
    assert("callbacks"@.len() == 9);
    assert("callbacks"@[0] == 'c');
    reveal_strlit("deprecated");
    assert("deprecated"@.len() == 10);
    assert("deprecated"@[0] == 'd');
    reveal_strlit("security");
    assert("security"@.len() == 8);
    reveal_strlit("servers");
    assert("servers"@.len() == 7);
    assert("servers"@[1] == 'e');
    let f0 = Seq::<(Seq<char>, ValueModel)>::empty();
    let v0_0 = list_json(strings(v.tags));
    let v0_1 = opt_text_json(v.summary);
    let v0_2 = opt_text_json(v.description);
    let v0_3 = opt_json::<ExternalDocs>(v.external_docs);
    let v0_4 = opt_text_json(v.operation_id);
    let v0_5 = list_json(items::<Parameter>(v.parameters));
    let v0_6 = opt_json::<RequestBody>(v.request_body);
    let v0_7 = map_json(entries::<Response>(v.responses));
    let v0_8 = map_json(callbacks_json(v.callbacks));
    let f1 = f0 + member("tags"@, v0_0) + member("summary"@, v0_1) + member("description"@, v0_2) + member("externalDocs"@, v0_3) + member("operationId"@, v0_4) + member("parameters"@, v0_5) + member("requestBody"@, v0_6) + member("responses"@, v0_7) + member("callbacks"@, v0_8);
    lemma_operation_a(f0, v0_0, v0_1, v0_2, v0_3, v0_4, v0_5, v0_6, v0_7, v0_8);
    let v1_0 = flag_json(v.deprecated);
    let v1_1 = match v.security { Some(list) => Some(ValueModel::Array(requirements_json(list))), None => None, };
    let v1_2 = list_json(items::<Server>(v.servers));
    let f2 = f1 + member("deprecated"@, v1_0) + member("security"@, v1_1) + member("servers"@, v1_2);
    lemma_operation_b(f1, v1_0, v1_1, v1_2);
    assert(operation_json(v) == ValueModel::Object(f2 + v.extensions));
    assert forall|key: Seq<char>| #[trigger] held(f2 + v.extensions, key) == or(held(v.extensions, key), held(f2, key)) by {
        lemma_held_concat(f2, v.extensions, key);
    }
}

proof fn lemma_path_item_a(front: Members, v0: Option<ValueModel>, v1: Option<ValueModel>, v2: Option<ValueModel>, v3: Option<ValueModel>, v4: Option<ValueModel>, v5: Option<ValueModel>, v6: Option<ValueModel>, v7: Option<ValueModel>, v8: Option<ValueModel>)
    ensures
        held(front + member("summary"@, v0) + member("description"@, v1) + member("get"@, v2) + member("put"@, v3) + member("post"@, v4) + member("delete"@, v5) + member("options"@, v6) + member("head"@, v7) + member("patch"@, v8), "summary"@) == or(v0, held(front, "summary"@)),
        held(front + member("summary"@, v0) + member("description"@, v1) + member("get"@, v2) + member("put"@, v3) + member("post"@, v4) + member("delete"@, v5) + member("options"@, v6) + member("head"@, v7) + member("patch"@, v8), "description"@) == or(v1, held(front, "description"@)),
        held(front + member("summary"@, v0) + member("description"@, v1) + member("get"@, v2) + member("put"@, v3) + member("post"@, v4) + member("delete"@, v5) + member("options"@, v6) + member("head"@, v7) + member("patch"@, v8), "get"@) == or(v2, held(front, "get"@)),
        held(front + member("summary"@, v0) + member("description"@, v1) + member("get"@, v2) + member("put"@, v3) + member("post"@, v4) + member("delete"@, v5) + member("options"@, v6) + member("head"@, v7) + member("patch"@, v8), "put"@) == or(v3, held(front, "put"@)),
        held(front + member("summary"@, v0) + member("description"@, v1) + member("get"@, v2) + member("put"@, v3) + member("post"@, v4) + member("delete"@, v5) + member("options"@, v6) + member("head"@, v7) + member("patch"@, v8), "post"@) == or(v4, held(front, "post"@)),
        held(front + member("summary"@, v0) + member("description"@, v1) + member("get"@, v2) + member("put"@, v3) + member("post"@, v4) + member("delete"@, v5) + member("options"@, v6) + member("head"@, v7) + member("patch"@, v8), "delete"@) == or(v5, held(front, "delete"@)),
        held(front + member("summary"@, v0) + member("description"@, v1) + member("get"@, v2) + member("put"@, v3) + member("post"@, v4) + member("delete"@, v5) + member("options"@, v6) + member("head"@, v7) + member("patch"@, v8), "options"@) == or(v6, held(front, "options"@)),
        held(front + member("summary"@, v0) + member("description"@, v1) + member("get"@, v2) + member("put"@, v3) + member("post"@, v4) + member("delete"@, v5) + member("options"@, v6) + member("head"@, v7) + member("patch"@, v8), "head"@) == or(v7, held(front, "head"@)),
        held(front + member("summary"@, v0) + member("description"@, v1) + member("get"@, v2) + member("put"@, v3) + member("post"@, v4) + member("delete"@, v5) + member("options"@, v6) + member("head"@, v7) + member("patch"@, v8), "patch"@) == or(v8, held(front, "patch"@)),
        forall|key: Seq<char>| key == "summary"@ || key == "description"@ || key == "get"@ || key == "put"@ || key == "post"@ || key == "delete"@ || key == "options"@ || key == "head"@ || key == "patch"@ || (#[trigger] held(front + member("summary"@, v0) + member("description"@, v1) + member("get"@, v2) + member("put"@, v3) + member("post"@, v4) + member("delete"@, v5) + member("options"@, v6) + member("head"@, v7) + member("patch"@, v8), key)) == held(front, key),
{
    broadcast use {lemma_held_concat, lemma_held_member, lemma_held_none};

    reveal_strlit("summary");
    assert("summary"@.len() == 7);
    assert("summary"@[0] == 's');
    reveal_strlit("description");
    assert("description"@.len() == 11);
    reveal_strlit("get");
    assert("get"@.len() == 3);
    assert("get"@[0] == 'g');
    reveal_strlit("put");
    assert("put"@.len() == 3);
    assert("put"@[0] == 'p');
    reveal_strlit("post");
    assert("post"@.len() == 4);
    assert("post"@[0] == 'p');
    reveal_strlit("delete");
    assert("delete"@.len() == 6);
    reveal_strlit("options");
    assert("options"@.len() == 7);
    assert("options"@[0] == 'o');
    reveal_strlit("head");
    assert("head"@.len() == 4);
    assert("head"@[0] == 'h');
    reveal_strlit("patch");
    assert("patch"@.len() == 5);
}

proof fn lemma_path_item_b(front: Members, v0: Option<ValueModel>, v1: Option<ValueModel>, v2: Option<ValueModel>)
    ensures
        held(front + member("trace"@, v0) + member("servers"@, v1) + member("parameters"@, v2), "trace"@) == or(v0, held(front, "trace"@)),
        held(front + member("trace"@, v0) + member("servers"@, v1) + member("parameters"@, v2), "servers"@) == or(v1, held(front, "servers"@)),
        held(front + member("trace"@, v0) + member("servers"@, v1) + member("parameters"@, v2), "parameters"@) == or(v2, held(front, "parameters"@)),
        forall|key: Seq<char>| key == "trace"@ || key == "servers"@ || key == "parameters"@ || (#[trigger] held(front + member("trace"@, v0) + member("servers"@, v1) + member("parameters"@, v2), key)) == held(front, key),
{
    broadcast use {lemma_held_concat, lemma_held_member, lemma_held_none};

    reveal_strlit("trace");
    assert("trace"@.len() == 5);
    reveal_strlit("servers");
    assert("servers"@.len() == 7);
    reveal_strlit("parameters");
    assert("parameters"@.len() == 10);
}

/// Each member of a path item stands under the name that OpenAPI has for it, and
/// there is no other.
pub proof fn a_path_item_is_written_under_its_names(v: PathItemModel)
    ensures
        read(path_item_json(v), "summary"@) == opt_text_json(v.summary),
        read(path_item_json(v), "description"@) == opt_text_json(v.description),
        read(path_item_json(v), "get"@) == match v.get { Some(o) => Some(operation_json(o)), None => None, },
        read(path_item_json(v), "put"@) == match v.put { Some(o) => Some(operation_json(o)), None => None, },
        read(path_item_json(v), "post"@) == match v.post { Some(o) => Some(operation_json(o)), None => None, },
        read(path_item_json(v), "delete"@) == match v.delete { Some(o) => Some(operation_json(o)), None => None, },
        read(path_item_json(v), "options"@) == match v.options { Some(o) => Some(operation_json(o)), None => None, },
        read(path_item_json(v), "head"@) == match v.head { Some(o) => Some(operation_json(o)), None => None, },
        read(path_item_json(v), "patch"@) == match v.patch { Some(o) => Some(operation_json(o)), None => None, },
        read(path_item_json(v), "trace"@) == match v.trace { Some(o) => Some(operation_json(o)), None => None, },
        read(path_item_json(v), "servers"@) == list_json(items::<Server>(v.servers)),
        read(path_item_json(v), "parameters"@) == list_json(items::<Parameter>(v.parameters)),
        forall|key: Seq<char>| (#[trigger] read(path_item_json(v), key)) is Some ==> key == "summary"@ || key == "description"@ || key == "get"@ || key == "put"@ || key == "post"@ || key == "delete"@ || key == "options"@ || key == "head"@ || key == "patch"@ || key == "trace"@ || key == "servers"@ || key == "parameters"@,
{
    broadcast use {lemma_held_none};

    reveal_strlit("summary");
    assert("summary"@.len() == 7);
    assert("summary"@[0] == 's');
    assert("summary"@[1] == 'u');
    reveal_strlit("description");
    assert("description"@.len() == 11);
    reveal_strlit("get");
    assert("get"@.len() == 3);
    assert("get"@[0] == 'g');
    reveal_strlit("put");
    assert("put"@.len() == 3);
    assert("put"@[0] == 'p');
    reveal_strlit("post");
    assert("post"@.len() == 4);
    assert("post"@[0] == 'p');
    reveal_strlit("delete");
    assert("delete"@.len() == 6);
    reveal_strlit("options");
    assert("options"@.len() == 7);
    assert("options"@[0] == 'o');
    assert("options"@[1] == 'p');
    reveal_strlit("head");
    assert("head"@.len() == 4);
    assert("head"@[0] == 'h');
    reveal_strlit("patch");
    assert("patch"@.len() == 5);
    assert("patch"@[0] == 'p');
    reveal_strlit("trace");
    assert("trace"@.len() == 5);
    assert("trace"@[0] == 't');
    reveal_strlit("servers");
    assert("servers"@.len() == 7);
    assert("servers"@[0] == 's');
    assert("servers"@[1] == 'e');
    reveal_strlit("parameters");
    assert("parameters"@.len() == 10);
    let f0 = Seq::<(Seq<char>, ValueModel)>::empty();
    let v0_0 = opt_text_json(v.summary);
    let v0_1 = opt_text_json(v.description);
    let v0_2 = match v.get { Some(o) => Some(operation_json(o)), None => None, };
    let v0_3 = match v.put { Some(o) => Some(operation_json(o)), None => None, };
    let v0_4 = match v.post { Some(o) => Some(operation_json(o)), None => None, };
    let v0_5 = match v.delete { Some(o) => Some(operation_json(o)), None => None, };
    let v0_6 = match v.options { Some(o) => Some(operation_json(o)), None => None, };
    let v0_7 = match v.head { Some(o) => Some(operation_json(o)), None => None, };
    let v0_8 = match v.patch { Some(o) => Some(operation_json(o)), None => None, };
    let f1 = f0 + member("summary"@, v0_0) + member("description"@, v0_1) + member("get"@, v0_2) + member("put"@, v0_3) + member("post"@, v0_4) + member("delete"@, v0_5) + member("options"@, v0_6) + member("head"@, v0_7) + member("patch"@, v0_8);
    lemma_path_item_a(f0, v0_0, v0_1, v0_2, v0_3, v0_4, v0_5, v0_6, v0_7, v0_8);
    let v1_0 = match v.trace { Some(o) => Some(operation_json(o)), None => None, };
    let v1_1 = list_json(items::<Server>(v.servers));
    let v1_2 = list_json(items::<Parameter>(v.parameters));
    let f2 = f1 + member("trace"@, v1_0) + member("servers"@, v1_1) + member("parameters"@, v1_2);
    lemma_path_item_b(f1, v1_0, v1_1, v1_2);
    assert(path_item_json(v) == ValueModel::Object(f2));
}

proof fn lemma_schema_a(front: Members, v0: Option<ValueModel>, v1: Option<ValueModel>, v2: Option<ValueModel>, v3: Option<ValueModel>, v4: Option<ValueModel>, v5: Option<ValueModel>, v6: Option<ValueModel>, v7: Option<ValueModel>, v8: Option<ValueModel>)
    ensures
        held(front + member("$ref"@, v0) + member("type"@, v1) + member("format"@, v2) + member("title"@, v3) + member("description"@, v4) + member("default"@, v5) + member("examples"@, v6) + member("deprecated"@, v7) + member("readOnly"@, v8), "$ref"@) == or(v0, held(front, "$ref"@)),
        held(front + member("$ref"@, v0) + member("type"@, v1) + member("format"@, v2) + member("title"@, v3) + member("description"@, v4) + member("default"@, v5) + member("examples"@, v6) + member("deprecated"@, v7) + member("readOnly"@, v8), "type"@) == or(v1, held(front, "type"@)),
        held(front + member("$ref"@, v0) + member("type"@, v1) + member("format"@, v2) + member("title"@, v3) + member("description"@, v4) + member("default"@, v5) + member("examples"@, v6) + member("deprecated"@, v7) + member("readOnly"@, v8), "format"@) == or(v2, held(front, "format"@)),
        held(front + member("$ref"@, v0) + member("type"@, v1) + member("format"@, v2) + member("title"@, v3) + member("description"@, v4) + member("default"@, v5) + member("examples"@, v6) + member("deprecated"@, v7) + member("readOnly"@, v8), "title"@) == or(v3, held(front, "title"@)),
        held(front + member("$ref"@, v0) + member("type"@, v1) + member("format"@, v2) + member("title"@, v3) + member("description"@, v4) + member("default"@, v5) + member("examples"@, v6) + member("deprecated"@, v7) + member("readOnly"@, v8), "description"@) == or(v4, held(front, "description"@)),
        held(front + member("$ref"@, v0) + member("type"@, v1) + member("format"@, v2) + member("title"@, v3) + member("description"@, v4) + member("default"@, v5) + member("examples"@, v6) + member("deprecated"@, v7) + member("readOnly"@, v8), "default"@) == or(v5, held(front, "default"@)),
        held(front + member("$ref"@, v0) + member("type"@, v1) + member("format"@, v2) + member("title"@, v3) + member("description"@, v4) + member("default"@, v5) + member("examples"@, v6) + member("deprecated"@, v7) + member("readOnly"@, v8), "examples"@) == or(v6, held(front, "examples"@)),
        held(front + member("$ref"@, v0) + member("type"@, v1) + member("format"@, v2) + member("title"@, v3) + member("description"@, v4) + member("default"@, v5) + member("examples"@, v6) + member("deprecated"@, v7) + member("readOnly"@, v8), "deprecated"@) == or(v7, held(front, "deprecated"@)),
        held(front + member("$ref"@, v0) + member("type"@, v1) + member("format"@, v2) + member("title"@, v3) + member("description"@, v4) + member("default"@, v5) + member("examples"@, v6) + member("deprecated"@, v7) + member("readOnly"@, v8), "readOnly"@) == or(v8, held(front, "readOnly"@)),
        forall|key: Seq<char>| key == "$ref"@ || key == "type"@ || key == "format"@ || key == "title"@ || key == "description"@ || key == "default"@ || key == "examples"@ || key == "deprecated"@ || key == "readOnly"@ || (#[trigger] held(front + member("$ref"@, v0) + member("type"@, v1) + member("format"@, v2) + member("title"@, v3) + member("description"@, v4) + member("default"@, v5) + member("examples"@, v6) + member("deprecated"@, v7) + member("readOnly"@, v8), key)) == held(front, key),
{
    broadcast use {lemma_held_concat, lemma_held_member, lemma_held_none};

    reveal_strlit("$ref");
    assert("$ref"@.len() == 4);
    assert("$ref"@[0] == '$');
    reveal_strlit("type");
    assert("type"@.len() == 4);
    assert("type"@[0] == 't');
    reveal_strlit("format");
    assert("format"@.len() == 6);
    reveal_strlit("title");
    assert("title"@.len() == 5);
    reveal_strlit("description");
    assert("description"@.len() == 11);
    reveal_strlit("default");
    assert("default"@.len() == 7);
    reveal_strlit("examples");
    assert("examples"@.len() == 8);
    assert("examples"@[0] == 'e');
    reveal_strlit("deprecated");
    assert("deprecated"@.len() == 10);
    reveal_strlit("readOnly");
    assert("readOnly"@.len() == 8);
    assert("readOnly"@[0] == 'r');
}

proof fn lemma_schema_b(front: Members, v0: Option<ValueModel>, v1: Option<ValueModel>, v2: Option<ValueModel>, v3: Option<ValueModel>, v4: Option<ValueModel>, v5: Option<ValueModel>, v6: Option<ValueModel>, v7: Option<ValueModel>, v8: Option<ValueModel>)
    ensures
        held(front + member("writeOnly"@, v0) + member("properties"@, v1) + member("required"@, v2) + member("additionalProperties"@, v3) + member("minProperties"@, v4) + member("maxProperties"@, v5) + member("items"@, v6) + member("prefixItems"@, v7) + member("minItems"@, v8), "writeOnly"@) == or(v0, held(front, "writeOnly"@)),
        held(front + member("writeOnly"@, v0) + member("properties"@, v1) + member("required"@, v2) + member("additionalProperties"@, v3) + member("minProperties"@, v4) + member("maxProperties"@, v5) + member("items"@, v6) + member("prefixItems"@, v7) + member("minItems"@, v8), "properties"@) == or(v1, held(front, "properties"@)),
        held(front + member("writeOnly"@, v0) + member("properties"@, v1) + member("required"@, v2) + member("additionalProperties"@, v3) + member("minProperties"@, v4) + member("maxProperties"@, v5) + member("items"@, v6) + member("prefixItems"@, v7) + member("minItems"@, v8), "required"@) == or(v2, held(front, "required"@)),
        held(front + member("writeOnly"@, v0) + member("properties"@, v1) + member("required"@, v2) + member("additionalProperties"@, v3) + member("minProperties"@, v4) + member("maxProperties"@, v5) + member("items"@, v6) + member("prefixItems"@, v7) + member("minItems"@, v8), "additionalProperties"@) == or(v3, held(front, "additionalProperties"@)),
        held(front + member("writeOnly"@, v0) + member("properties"@, v1) + member("required"@, v2) + member("additionalProperties"@, v3) + member("minProperties"@, v4) + member("maxProperties"@, v5) + member("items"@, v6) + member("prefixItems"@, v7) + member("minItems"@, v8), "minProperties"@) == or(v4, held(front, "minProperties"@)),
        held(front + member("writeOnly"@, v0) + member("properties"@, v1) + member("required"@, v2) + member("additionalProperties"@, v3) + member("minProperties"@, v4) + member("maxProperties"@, v5) + member("items"@, v6) + member("prefixItems"@, v7) + member("minItems"@, v8), "maxProperties"@) == or(v5, held(front, "maxProperties"@)),
        held(front + member("writeOnly"@, v0) + member("properties"@, v1) + member("required"@, v2) + member("additionalProperties"@, v3) + member("minProperties"@, v4) + member("maxProperties"@, v5) + member("items"@, v6) + member("prefixItems"@, v7) + member("minItems"@, v8), "items"@) == or(v6, held(front, "items"@)),
        held(front + member("writeOnly"@, v0) + member("properties"@, v1) + member("required"@, v2) + member("additionalProperties"@, v3) + member("minProperties"@, v4) + member("maxProperties"@, v5) + member("items"@, v6) + member("prefixItems"@, v7) + member("minItems"@, v8), "prefixItems"@) == or(v7, held(front, "prefixItems"@)),
        held(front + member("writeOnly"@, v0) + member("properties"@, v1) + member("required"@, v2) + member("additionalProperties"@, v3) + member("minProperties"@, v4) + member("maxProperties"@, v5) + member("items"@, v6) + member("prefixItems"@, v7) + member("minItems"@, v8), "minItems"@) == or(v8, held(front, "minItems"@)),
        forall|key: Seq<char>| key == "writeOnly"@ || key == "properties"@ || key == "required"@ || key == "additionalProperties"@ || key == "minProperties"@ || key == "maxProperties"@ || key == "items"@ || key == "prefixItems"@ || key == "minItems"@ || (#[trigger] held(front + member("writeOnly"@, v0) + member("properties"@, v1) + member("required"@, v2) + member("additionalProperties"@, v3) + member("minProperties"@, v4) + member("maxProperties"@, v5) + member("items"@, v6) + member("prefixItems"@, v7) + member("minItems"@, v8), key)) == held(front, key),
{
    broadcast use {lemma_held_concat, lemma_held_member, lemma_held_none};

    reveal_strlit("writeOnly");
    assert("writeOnly"@.len() == 9);
    reveal_strlit("properties");
    assert("properties"@.len() == 10);
    reveal_strlit("required");
    assert("required"@.len() == 8);
    assert("required"@[0] == 'r');
    reveal_strlit("additionalProperties");
    assert("additionalProperties"@.len() == 20);
    reveal_strlit("minProperties");
    assert("minProperties"@.len() == 13);
    assert("minProperties"@[1] == 'i');
    reveal_strlit("maxProperties");
    assert("maxProperties"@.len() == 13);
    assert("maxProperties"@[1] == 'a');
    reveal_strlit("items");
    assert("items"@.len() == 5);
    reveal_strlit("prefixItems");
    assert("prefixItems"@.len() == 11);
    reveal_strlit("minItems");
    assert("minItems"@.len() == 8);
    assert("minItems"@[0] == 'm');
}

proof fn lemma_schema_c(front: Members, v0: Option<ValueModel>, v1: Option<ValueModel>, v2: Option<ValueModel>, v3: Option<ValueModel>, v4: Option<ValueModel>, v5: Option<ValueModel>, v6: Option<ValueModel>, v7: Option<ValueModel>, v8: Option<ValueModel>)
    ensures
        held(front + member("maxItems"@, v0) + member("uniqueItems"@, v1) + member("minLength"@, v2) + member("maxLength"@, v3) + member("pattern"@, v4) + member("minimum"@, v5) + member("maximum"@, v6) + member("exclusiveMinimum"@, v7) + member("exclusiveMaximum"@, v8), "maxItems"@) == or(v0, held(front, "maxItems"@)),
        held(front + member("maxItems"@, v0) + member("uniqueItems"@, v1) + member("minLength"@, v2) + member("maxLength"@, v3) + member("pattern"@, v4) + member("minimum"@, v5) + member("maximum"@, v6) + member("exclusiveMinimum"@, v7) + member("exclusiveMaximum"@, v8), "uniqueItems"@) == or(v1, held(front, "uniqueItems"@)),
        held(front + member("maxItems"@, v0) + member("uniqueItems"@, v1) + member("minLength"@, v2) + member("maxLength"@, v3) + member("pattern"@, v4) + member("minimum"@, v5) + member("maximum"@, v6) + member("exclusiveMinimum"@, v7) + member("exclusiveMaximum"@, v8), "minLength"@) == or(v2, held(front, "minLength"@)),
        held(front + member("maxItems"@, v0) + member("uniqueItems"@, v1) + member("minLength"@, v2) + member("maxLength"@, v3) + member("pattern"@, v4) + member("minimum"@, v5) + member("maximum"@, v6) + member("exclusiveMinimum"@, v7) + member("exclusiveMaximum"@, v8), "maxLength"@) == or(v3, held(front, "maxLength"@)),
        held(front + member("maxItems"@, v0) + member("uniqueItems"@, v1) + member("minLength"@, v2) + member("maxLength"@, v3) + member("pattern"@, v4) + member("minimum"@, v5) + member("maximum"@, v6) + member("exclusiveMinimum"@, v7) + member("exclusiveMaximum"@, v8), "pattern"@) == or(v4, held(front, "pattern"@)),
        held(front + member("maxItems"@, v0) + member("uniqueItems"@, v1) + member("minLength"@, v2) + member("maxLength"@, v3) + member("pattern"@, v4) + member("minimum"@, v5) + member("maximum"@, v6) + member("exclusiveMinimum"@, v7) + member("exclusiveMaximum"@, v8), "minimum"@) == or(v5, held(front, "minimum"@)),
        held(front + member("maxItems"@, v0) + member("uniqueItems"@, v1) + member("minLength"@, v2) + member("maxLength"@, v3) + member("pattern"@, v4) + member("minimum"@, v5) + member("maximum"@, v6) + member("exclusiveMinimum"@, v7) + member("exclusiveMaximum"@, v8), "maximum"@) == or(v6, held(front, "maximum"@)),
        held(front + member("maxItems"@, v0) + member("uniqueItems"@, v1) + member("minLength"@, v2) + member("maxLength"@, v3) + member("pattern"@, v4) + member("minimum"@, v5) + member("maximum"@, v6) + member("exclusiveMinimum"@, v7) + member("exclusiveMaximum"@, v8), "exclusiveMinimum"@) == or(v7, held(front, "exclusiveMinimum"@)),
        held(front + member("maxItems"@, v0) + member("uniqueItems"@, v1) + member("minLength"@, v2) + member("maxLength"@, v3) + member("pattern"@, v4) + member("minimum"@, v5) + member("maximum"@, v6) + member("exclusiveMinimum"@, v7) + member("exclusiveMaximum"@, v8), "exclusiveMaximum"@) == or(v8, held(front, "exclusiveMaximum"@)),
        forall|key: Seq<char>| key == "maxItems"@ || key == "uniqueItems"@ || key == "minLength"@ || key == "maxLength"@ || key == "pattern"@ || key == "minimum"@ || key == "maximum"@ || key == "exclusiveMinimum"@ || key == "exclusiveMaximum"@ || (#[trigger] held(front + member("maxItems"@, v0) + member("uniqueItems"@, v1) + member("minLength"@, v2) + member("maxLength"@, v3) + member("pattern"@, v4) + member("minimum"@, v5) + member("maximum"@, v6) + member("exclusiveMinimum"@, v7) + member("exclusiveMaximum"@, v8), key)) == held(front, key),
{
    broadcast use {lemma_held_concat, lemma_held_member, lemma_held_none};

    reveal_strlit("maxItems");
    assert("maxItems"@.len() == 8);
    reveal_strlit("uniqueItems");
    assert("uniqueItems"@.len() == 11);
    reveal_strlit("minLength");
    assert("minLength"@.len() == 9);
    assert("minLength"@[1] == 'i');
    reveal_strlit("maxLength");
    assert("maxLength"@.len() == 9);
    assert("maxLength"@[1] == 'a');
    reveal_strlit("pattern");
    assert("pattern"@.len() == 7);
    assert("pattern"@[0] == 'p');
    assert("pattern"@[1] == 'a');
    reveal_strlit("minimum");
    assert("minimum"@.len() == 7);
    assert("minimum"@[0] == 'm');
    assert("minimum"@[1] == 'i');
    reveal_strlit("maximum");
    assert("maximum"@.len() == 7);
    assert("maximum"@[0] == 'm');
    assert("maximum"@[1] == 'a');
    reveal_strlit("exclusiveMinimum");
    assert("exclusiveMinimum"@.len() == 16);
    assert("exclusiveMinimum"@[10] == 'i');
    reveal_strlit("exclusiveMaximum");
    assert("exclusiveMaximum"@.len() == 16);
    assert("exclusiveMaximum"@[10] == 'a');
}

proof fn lemma_schema_d(front: Members, v0: Option<ValueModel>, v1: Option<ValueModel>, v2: Option<ValueModel>, v3: Option<ValueModel>, v4: Option<ValueModel>, v5: Option<ValueModel>, v6: Option<ValueModel>, v7: Option<ValueModel>)
    ensures
        held(front + member("multipleOf"@, v0) + member("enum"@, v1) + member("const"@, v2) + member("oneOf"@, v3) + member("anyOf"@, v4) + member("allOf"@, v5) + member("not"@, v6) + member("discriminator"@, v7), "multipleOf"@) == or(v0, held(front, "multipleOf"@)),
        held(front + member("multipleOf"@, v0) + member("enum"@, v1) + member("const"@, v2) + member("oneOf"@, v3) + member("anyOf"@, v4) + member("allOf"@, v5) + member("not"@, v6) + member("discriminator"@, v7), "enum"@) == or(v1, held(front, "enum"@)),
        held(front + member("multipleOf"@, v0) + member("enum"@, v1) + member("const"@, v2) + member("oneOf"@, v3) + member("anyOf"@, v4) + member("allOf"@, v5) + member("not"@, v6) + member("discriminator"@, v7), "const"@) == or(v2, held(front, "const"@)),
        held(front + member("multipleOf"@, v0) + member("enum"@, v1) + member("const"@, v2) + member("oneOf"@, v3) + member("anyOf"@, v4) + member("allOf"@, v5) + member("not"@, v6) + member("discriminator"@, v7), "oneOf"@) == or(v3, held(front, "oneOf"@)),
        held(front + member("multipleOf"@, v0) + member("enum"@, v1) + member("const"@, v2) + member("oneOf"@, v3) + member("anyOf"@, v4) + member("allOf"@, v5) + member("not"@, v6) + member("discriminator"@, v7), "anyOf"@) == or(v4, held(front, "anyOf"@)),
        held(front + member("multipleOf"@, v0) + member("enum"@, v1) + member("const"@, v2) + member("oneOf"@, v3) + member("anyOf"@, v4) + member("allOf"@, v5) + member("not"@, v6) + member("discriminator"@, v7), "allOf"@) == or(v5, held(front, "allOf"@)),
        held(front + member("multipleOf"@, v0) + member("enum"@, v1) + member("const"@, v2) + member("oneOf"@, v3) + member("anyOf"@, v4) + member("allOf"@, v5) + member("not"@, v6) + member("discriminator"@, v7), "not"@) == or(v6, held(front, "not"@)),
        held(front + member("multipleOf"@, v0) + member("enum"@, v1) + member("const"@, v2) + member("oneOf"@, v3) + member("anyOf"@, v4) + member("allOf"@, v5) + member("not"@, v6) + member("discriminator"@, v7), "discriminator"@) == or(v7, held(front, "discriminator"@)),
        forall|key: Seq<char>| key == "multipleOf"@ || key == "enum"@ || key == "const"@ || key == "oneOf"@ || key == "anyOf"@ || key == "allOf"@ || key == "not"@ || key == "discriminator"@ || (#[trigger] held(front + member("multipleOf"@, v0) + member("enum"@, v1) + member("const"@, v2) + member("oneOf"@, v3) + member("anyOf"@, v4) + member("allOf"@, v5) + member("not"@, v6) + member("discriminator"@, v7), key)) == held(front, key),
{
    broadcast use {lemma_held_concat, lemma_held_member, lemma_held_none};

    reveal_strlit("multipleOf");
    assert("multipleOf"@.len() == 10);
    reveal_strlit("enum");
    assert("enum"@.len() == 4);
    reveal_strlit("const");
    assert("const"@.len() == 5);
    assert("const"@[0] == 'c');
    assert("const"@[1] == 'o');
    reveal_strlit("oneOf");
    assert("oneOf"@.len() == 5);
    assert("oneOf"@[0] == 'o');
    assert("oneOf"@[1] == 'n');
    reveal_strlit("anyOf");
    assert("anyOf"@.len() == 5);
    assert("anyOf"@[0] == 'a');
    assert("anyOf"@[1] == 'n');
    reveal_strlit("allOf");
    assert("allOf"@.len() == 5);
    assert("allOf"@[0] == 'a');
    assert("allOf"@[1] == 'l');
    reveal_strlit("not");
    assert("not"@.len() == 3);
    reveal_strlit("discriminator");
    assert("discriminator"@.len() == 13);
}

/// Each member of a schema stands under the name that OpenAPI has for it, and
/// there is no other but the extensions.
pub proof fn a_schema_is_written_under_its_names(v: SchemaModel)
    ensures
        read(schema_json(v), "$ref"@) == or(
            held(v.extensions, "$ref"@),
            opt_text_json(v.reference),
        ),
        read(schema_json(v), "type"@) == or(
            held(v.extensions, "type"@),
            match v.schema_type { Some(t) => Some(t.json()), None => None, },
        ),
        read(schema_json(v), "format"@) == or(
            held(v.extensions, "format"@),
            opt_text_json(v.format),
        ),
        read(schema_json(v), "title"@) == or(
            held(v.extensions, "title"@),
            opt_text_json(v.title),
        ),
        read(schema_json(v), "description"@) == or(
            held(v.extensions, "description"@),
            opt_text_json(v.description),
        ),
        read(schema_json(v), "default"@) == or(
            held(v.extensions, "default"@),
            v.default,
        ),
        read(schema_json(v), "examples"@) == or(
            held(v.extensions, "examples"@),
            list_json(v.examples),
        ),
        read(schema_json(v), "deprecated"@) == or(
            held(v.extensions, "deprecated"@),
            flag_json(v.deprecated),
        ),
        read(schema_json(v), "readOnly"@) == or(
            held(v.extensions, "readOnly"@),
            flag_json(v.read_only),
        ),
        read(schema_json(v), "writeOnly"@) == or(
            held(v.extensions, "writeOnly"@),
            flag_json(v.write_only),
        ),
        read(schema_json(v), "properties"@) == or(
            held(v.extensions, "properties"@),
            map_json(schema_members(v.properties)),
        ),
        read(schema_json(v), "required"@) == or(
            held(v.extensions, "required"@),
            list_json(strings(v.required)),
        ),
        read(schema_json(v), "additionalProperties"@) == or(
            held(v.extensions, "additionalProperties"@),
            match v.additional_properties { Some(AdditionalModel::Bool(b)) => Some(ValueModel::Bool(b)), Some(AdditionalModel::Schema(inner)) => Some(schema_json(*inner)), None => None, },
        ),
        read(schema_json(v), "minProperties"@) == or(
            held(v.extensions, "minProperties"@),
            count_json(v.min_properties),
        ),
        read(schema_json(v), "maxProperties"@) == or(
            held(v.extensions, "maxProperties"@),
            count_json(v.max_properties),
        ),
        read(schema_json(v), "items"@) == or(
            held(v.extensions, "items"@),
            match v.items { Some(inner) => Some(schema_json(*inner)), None => None, },
        ),
        read(schema_json(v), "prefixItems"@) == or(
            held(v.extensions, "prefixItems"@),
            list_json(schema_list(v.prefix_items)),
        ),
        read(schema_json(v), "minItems"@) == or(
            held(v.extensions, "minItems"@),
            count_json(v.min_items),
        ),
        read(schema_json(v), "maxItems"@) == or(
            held(v.extensions, "maxItems"@),
            count_json(v.max_items),
        ),
        read(schema_json(v), "uniqueItems"@) == or(
            held(v.extensions, "uniqueItems"@),
            bool_json(v.unique_items),
        ),
        read(schema_json(v), "minLength"@) == or(
            held(v.extensions, "minLength"@),
            count_json(v.min_length),
        ),
        read(schema_json(v), "maxLength"@) == or(
            held(v.extensions, "maxLength"@),
            count_json(v.max_length),
        ),
        read(schema_json(v), "pattern"@) == or(
            held(v.extensions, "pattern"@),
            opt_text_json(v.pattern),
        ),
        read(schema_json(v), "minimum"@) == or(
            held(v.extensions, "minimum"@),
            number_json(v.minimum),
        ),
        read(schema_json(v), "maximum"@) == or(
            held(v.extensions, "maximum"@),
            number_json(v.maximum),
        ),
        read(schema_json(v), "exclusiveMinimum"@) == or(
            held(v.extensions, "exclusiveMinimum"@),
            number_json(v.exclusive_minimum),
        ),
        read(schema_json(v), "exclusiveMaximum"@) == or(
            held(v.extensions, "exclusiveMaximum"@),
            number_json(v.exclusive_maximum),
        ),
        read(schema_json(v), "multipleOf"@) == or(
            held(v.extensions, "multipleOf"@),
            number_json(v.multiple_of),
        ),
        read(schema_json(v), "enum"@) == or(
            held(v.extensions, "enum"@),
            list_json(v.enum_values),
        ),
        read(schema_json(v), "const"@) == or(
            held(v.extensions, "const"@),
            v.const_value,
        ),
        read(schema_json(v), "oneOf"@) == or(
            held(v.extensions, "oneOf"@),
            list_json(schema_list(v.one_of)),
        ),
        read(schema_json(v), "anyOf"@) == or(
            held(v.extensions, "anyOf"@),
            list_json(schema_list(v.any_of)),
        ),
        read(schema_json(v), "allOf"@) == or(
            held(v.extensions, "allOf"@),
            list_json(schema_list(v.all_of)),
        ),
        read(schema_json(v), "not"@) == or(
            held(v.extensions, "not"@),
            match v.not { Some(inner) => Some(schema_json(*inner)), None => None, },
        ),
        read(schema_json(v), "discriminator"@) == or(
            held(v.extensions, "discriminator"@),
            match v.discriminator { Some(d) => Some(d.json()), None => None, },
        ),
        forall|key: Seq<char>| (#[trigger] read(schema_json(v), key)) is Some ==> held(v.extensions, key) is Some || key == "$ref"@ || key == "type"@ || key == "format"@ || key == "title"@ || key == "description"@ || key == "default"@ || key == "examples"@ || key == "deprecated"@ || key == "readOnly"@ || key == "writeOnly"@ || key == "properties"@ || key == "required"@ || key == "additionalProperties"@ || key == "minProperties"@ || key == "maxProperties"@ || key == "items"@ || key == "prefixItems"@ || key == "minItems"@ || key == "maxItems"@ || key == "uniqueItems"@ || key == "minLength"@ || key == "maxLength"@ || key == "pattern"@ || key == "minimum"@ || key == "maximum"@ || key == "exclusiveMinimum"@ || key == "exclusiveMaximum"@ || key == "multipleOf"@ || key == "enum"@ || key == "const"@ || key == "oneOf"@ || key == "anyOf"@ || key == "allOf"@ || key == "not"@ || key == "discriminator"@,
{
    broadcast use {lemma_held_none};

    reveal_strlit("$ref");
    assert("$ref"@.len() == 4);
    assert("$ref"@[0] == '$');
    reveal_strlit("type");
    assert("type"@.len() == 4);
    assert("type"@[0] == 't');
    reveal_strlit("format");
    assert("format"@.len() == 6);
    reveal_strlit("title");
    assert("title"@.len() == 5);
    assert("title"@[0] == 't');
    assert("title"@[1] == 'i');
    reveal_strlit("description");
    assert("description"@.len() == 11);
    assert("description"@[0] == 'd');
    reveal_strlit("default");
    assert("default"@.len() == 7);
    assert("default"@[0] == 'd');
    assert("default"@[1] == 'e');
    reveal_strlit("examples");
    assert("examples"@.len() == 8);
    assert("examples"@[0] == 'e');
    assert("examples"@[2] == 'a');
    reveal_strlit("deprecated");
    assert("deprecated"@.len() == 10);
    assert("deprecated"@[0] == 'd');
    reveal_strlit("readOnly");
    assert("readOnly"@.len() == 8);
    assert("readOnly"@[0] == 'r');
    assert("readOnly"@[2] == 'a');
    reveal_strlit("writeOnly");
    assert("writeOnly"@.len() == 9);
    assert("writeOnly"@[0] == 'w');
    assert("writeOnly"@[1] == 'r');
    reveal_strlit("properties");
    assert("properties"@.len() == 10);
    assert("properties"@[0] == 'p');
    reveal_strlit("required");
    assert("required"@.len() == 8);
    assert("required"@[0] == 'r');
    assert("required"@[2] == 'q');
    reveal_strlit("additionalProperties");
    assert("additionalProperties"@.len() == 20);
    reveal_strlit("minProperties");
    assert("minProperties"@.len() == 13);
    assert("minProperties"@[0] == 'm');
    assert("minProperties"@[1] == 'i');
    reveal_strlit("maxProperties");
    assert("maxProperties"@.len() == 13);
    assert("maxProperties"@[0] == 'm');
    assert("maxProperties"@[1] == 'a');
    reveal_strlit("items");
    assert("items"@.len() == 5);
    assert("items"@[0] == 'i');
    assert("items"@[1] == 't');
    reveal_strlit("prefixItems");
    assert("prefixItems"@.len() == 11);
    assert("prefixItems"@[0] == 'p');
    reveal_strlit("minItems");
    assert("minItems"@.len() == 8);
    assert("minItems"@[0] == 'm');
    assert("minItems"@[2] == 'n');
    reveal_strlit("maxItems");
    assert("maxItems"@.len() == 8);
    assert("maxItems"@[0] == 'm');
    assert("maxItems"@[2] == 'x');
    reveal_strlit("uniqueItems");
    assert("uniqueItems"@.len() == 11);
    assert("uniqueItems"@[0] == 'u');
    reveal_strlit("minLength");
    assert("minLength"@.len() == 9);
    assert("minLength"@[0] == 'm');
    assert("minLength"@[1] == 'i');
    reveal_strlit("maxLength");
    assert("maxLength"@.len() == 9);
    assert("maxLength"@[0] == 'm');
    assert("maxLength"@[1] == 'a');
    reveal_strlit("pattern");
    assert("pattern"@.len() == 7);
    assert("pattern"@[0] == 'p');
    assert("pattern"@[1] == 'a');
    reveal_strlit("minimum");
    assert("minimum"@.len() == 7);
    assert("minimum"@[0] == 'm');
    assert("minimum"@[1] == 'i');
    reveal_strlit("maximum");
    assert("maximum"@.len() == 7);
    assert("maximum"@[0] == 'm');
    assert("maximum"@[1] == 'a');
    reveal_strlit("exclusiveMinimum");
    assert("exclusiveMinimum"@.len() == 16);
    assert("exclusiveMinimum"@[10] == 'i');
    reveal_strlit("exclusiveMaximum");
    assert("exclusiveMaximum"@.len() == 16);
    assert("exclusiveMaximum"@[10] == 'a');
    reveal_strlit("multipleOf");
    assert("multipleOf"@.len() == 10);
    assert("multipleOf"@[0] == 'm');
    reveal_strlit("enum");
    assert("enum"@.len() == 4);
    assert("enum"@[0] == 'e');
    reveal_strlit("const");
    assert("const"@.len() == 5);
    assert("const"@[0] == 'c');
    assert("const"@[1] == 'o');
    reveal_strlit("oneOf");
    assert("oneOf"@.len() == 5);
    assert("oneOf"@[0] == 'o');
    assert("oneOf"@[1] == 'n');
    reveal_strlit("anyOf");
    assert("anyOf"@.len() == 5);
    assert("anyOf"@[0] == 'a');
    assert("anyOf"@[1] == 'n');
    reveal_strlit("allOf");
    assert("allOf"@.len() == 5);
    assert("allOf"@[0] == 'a');
    assert("allOf"@[1] == 'l');
    reveal_strlit("not");
    assert("not"@.len() == 3);
    reveal_strlit("discriminator");
    assert("discriminator"@.len() == 13);
    assert("discriminator"@[0] == 'd');
    assert("discriminator"@[1] == 'i');
    let f0 = Seq::<(Seq<char>, ValueModel)>::empty();
    let v0_0 = opt_text_json(v.reference);
    let v0_1 = match v.schema_type { Some(t) => Some(t.json()), None => None, };
    let v0_2 = opt_text_json(v.format);
    let v0_3 = opt_text_json(v.title);
    let v0_4 = opt_text_json(v.description);
    let v0_5 = v.default;
    let v0_6 = list_json(v.examples);
    let v0_7 = flag_json(v.deprecated);
    let v0_8 = flag_json(v.read_only);
    let f1 = f0 + member("$ref"@, v0_0) + member("type"@, v0_1) + member("format"@, v0_2) + member("title"@, v0_3) + member("description"@, v0_4) + member("default"@, v0_5) + member("examples"@, v0_6) + member("deprecated"@, v0_7) + member("readOnly"@, v0_8);
    lemma_schema_a(f0, v0_0, v0_1, v0_2, v0_3, v0_4, v0_5, v0_6, v0_7, v0_8);
    let v1_0 = flag_json(v.write_only);
    let v1_1 = map_json(schema_members(v.properties));
    let v1_2 = list_json(strings(v.required));
    let v1_3 = match v.additional_properties { Some(AdditionalModel::Bool(b)) => Some(ValueModel::Bool(b)), Some(AdditionalModel::Schema(inner)) => Some(schema_json(*inner)), None => None, };
    let v1_4 = count_json(v.min_properties);
    let v1_5 = count_json(v.max_properties);
    let v1_6 = match v.items { Some(inner) => Some(schema_json(*inner)), None => None, };
    let v1_7 = list_json(schema_list(v.prefix_items));
    let v1_8 = count_json(v.min_items);
    let f2 = f1 + member("writeOnly"@, v1_0) + member("properties"@, v1_1) + member("required"@, v1_2) + member("additionalProperties"@, v1_3) + member("minProperties"@, v1_4) + member("maxProperties"@, v1_5) + member("items"@, v1_6) + member("prefixItems"@, v1_7) + member("minItems"@, v1_8);
    lemma_schema_b(f1, v1_0, v1_1, v1_2, v1_3, v1_4, v1_5, v1_6, v1_7, v1_8);
    let v2_0 = count_json(v.max_items);
    let v2_1 = bool_json(v.unique_items);
    let v2_2 = count_json(v.min_length);
    let v2_3 = count_json(v.max_length);
    let v2_4 = opt_text_json(v.pattern);
    let v2_5 = number_json(v.minimum);
    let v2_6 = number_json(v.maximum);
    let v2_7 = number_json(v.exclusive_minimum);
    let v2_8 = number_json(v.exclusive_maximum);
    let f3 = f2 + member("maxItems"@, v2_0) + member("uniqueItems"@, v2_1) + member("minLength"@, v2_2) + member("maxLength"@, v2_3) + member("pattern"@, v2_4) + member("minimum"@, v2_5) + member("maximum"@, v2_6) + member("exclusiveMinimum"@, v2_7) + member("exclusiveMaximum"@, v2_8);
    lemma_schema_c(f2, v2_0, v2_1, v2_2, v2_3, v2_4, v2_5, v2_6, v2_7, v2_8);
    let v3_0 = number_json(v.multiple_of);
    let v3_1 = list_json(v.enum_values);
    let v3_2 = v.const_value;
    let v3_3 = list_json(schema_list(v.one_of));
    let v3_4 = list_json(schema_list(v.any_of));
    let v3_5 = list_json(schema_list(v.all_of));
    let v3_6 = match v.not { Some(inner) => Some(schema_json(*inner)), None => None, };
    let v3_7 = match v.discriminator { Some(d) => Some(d.json()), None => None, };
    let f4 = f3 + member("multipleOf"@, v3_0) + member("enum"@, v3_1) + member("const"@, v3_2) + member("oneOf"@, v3_3) + member("anyOf"@, v3_4) + member("allOf"@, v3_5) + member("not"@, v3_6) + member("discriminator"@, v3_7);
    lemma_schema_d(f3, v3_0, v3_1, v3_2, v3_3, v3_4, v3_5, v3_6, v3_7);
    assert(schema_json(v) == ValueModel::Object(f4 + v.extensions));
    assert forall|key: Seq<char>| #[trigger] held(f4 + v.extensions, key) == or(held(v.extensions, key), held(f4, key)) by {
        lemma_held_concat(f4, v.extensions, key);
    }
}

/// An authentication scheme says its type and what belongs to that type.
pub proof fn a_security_scheme_says_its_type(v: SecuritySchemeModel)
    ensures
        read(SecurityScheme::json(v), "type"@) == Some(
            ValueModel::String(
                match v {
                    SecuritySchemeModel::ApiKey { .. } => "apiKey"@,
                    SecuritySchemeModel::Http { .. } => "http"@,
                    SecuritySchemeModel::OAuth2 { .. } => "oauth2"@,
                    SecuritySchemeModel::OpenIdConnect { .. } => "openIdConnect"@,
                    SecuritySchemeModel::MutualTls { .. } => "mutualTLS"@,
                },
            ),
        ),
        v matches SecuritySchemeModel::ApiKey { name, location, .. } ==> {
            &&& read(SecurityScheme::json(v), "name"@) == Some(ValueModel::String(name))
            &&& read(SecurityScheme::json(v), "in"@) == Some(
                ValueModel::String(
                    match location {
                        ApiKeyLocation::Query => "query"@,
                        ApiKeyLocation::Header => "header"@,
                        ApiKeyLocation::Cookie => "cookie"@,
                    },
                ),
            )
        },
        v matches SecuritySchemeModel::Http { scheme, bearer_format, .. } ==> {
            &&& read(SecurityScheme::json(v), "scheme"@) == Some(ValueModel::String(scheme))
            &&& read(SecurityScheme::json(v), "bearerFormat"@) == match bearer_format {
                Some(format) => Some(ValueModel::String(format)),
                None => None,
            }
        },
        v matches SecuritySchemeModel::OAuth2 { flows, .. } ==> read(
            SecurityScheme::json(v),
            "flows"@,
        ) == Some(OAuthFlows::json(flows)),
        v matches SecuritySchemeModel::OpenIdConnect { open_id_connect_url, .. } ==> read(
            SecurityScheme::json(v),
            "openIdConnectUrl"@,
        ) == Some(ValueModel::String(open_id_connect_url)),
{
    broadcast use {lemma_held_concat, lemma_held_member, lemma_held_none};

    reveal_strlit("type");
    assert("type"@.len() == 4);
    assert("type"@[0] == 't');
    reveal_strlit("name");
    assert("name"@.len() == 4);
    assert("name"@[0] == 'n');
    reveal_strlit("in");
    assert("in"@.len() == 2);
    reveal_strlit("scheme");
    assert("scheme"@.len() == 6);
    reveal_strlit("bearerFormat");
    assert("bearerFormat"@.len() == 12);
    reveal_strlit("flows");
    assert("flows"@.len() == 5);
    reveal_strlit("openIdConnectUrl");
    assert("openIdConnectUrl"@.len() == 16);
    reveal_strlit("description");
    assert("description"@.len() == 11);
}

// ---------------------------------------------------------------------------
// operations, by path and method
// ---------------------------------------------------------------------------

/// The names that OpenAPI has for the methods, in small letters.
pub open spec fn is_method_name(key: Seq<char>) -> bool {
    key == "get"@ || key == "put"@ || key == "post"@ || key == "delete"@ || key == "options"@
        || key == "head"@ || key == "patch"@ || key == "trace"@
}

/// A method in capital letters is that method in small ones.
proof fn lemma_small_letters(method: Seq<char>, capital: Seq<char>, small: Seq<char>)
    requires
        text::ascii_upper(method) == capital,
        capital.len() == small.len(),
        forall|i: int|
            #![trigger capital[i]]
            0 <= i < capital.len() ==> 'A' <= capital[i] <= 'Z' && small[i] as int
                == capital[i] as int + 32,
    ensures
        text::ascii_lower(method) == small,
{
    assert(method.len() == capital.len());
    assert forall|i: int| 0 <= i < small.len() implies #[trigger] text::ascii_lower(method)[i]
        == small[i] by {
        let c = method[i];
        assert(text::ascii_upper(method)[i] == capital[i]);
        assert(text::upper(c) == capital[i]);
        assert(text::lower(c) as int == small[i] as int);
    }
    assert(text::ascii_lower(method) =~= small);
}

/// Two spellings of a name in small letters have the same capital letters.
proof fn lemma_capital_letters(method: Seq<char>)
    ensures
        text::ascii_upper(text::ascii_lower(method)) == text::ascii_upper(method),
{
    assert(text::ascii_upper(text::ascii_lower(method)) =~= text::ascii_upper(method));
}

/// A method that a path item has a place for, in small letters, is the name of
/// its member.
proof fn lemma_verb_name(method: Seq<char>)
    ensures
        match spec::verb_of(method) {
            Some(Verb::Get) => text::ascii_lower(method) == "get"@,
            Some(Verb::Put) => text::ascii_lower(method) == "put"@,
            Some(Verb::Post) => text::ascii_lower(method) == "post"@,
            Some(Verb::Delete) => text::ascii_lower(method) == "delete"@,
            Some(Verb::Options) => text::ascii_lower(method) == "options"@,
            Some(Verb::Head) => text::ascii_lower(method) == "head"@,
            Some(Verb::Patch) => text::ascii_lower(method) == "patch"@,
            Some(Verb::Trace) => text::ascii_lower(method) == "trace"@,
            None => true,
        },
{
    reveal_strlit("get");
    assert("get"@.len() == 3);
    assert("get"@[0] == 'g');
    assert("get"@[1] == 'e');
    assert("get"@[2] == 't');
    reveal_strlit("put");
    assert("put"@.len() == 3);
    assert("put"@[0] == 'p');
    assert("put"@[1] == 'u');
    assert("put"@[2] == 't');
    reveal_strlit("post");
    assert("post"@.len() == 4);
    assert("post"@[0] == 'p');
    assert("post"@[1] == 'o');
    assert("post"@[2] == 's');
    assert("post"@[3] == 't');
    reveal_strlit("delete");
    assert("delete"@.len() == 6);
    assert("delete"@[0] == 'd');
    assert("delete"@[1] == 'e');
    assert("delete"@[2] == 'l');
    assert("delete"@[3] == 'e');
    assert("delete"@[4] == 't');
    assert("delete"@[5] == 'e');
    reveal_strlit("options");
    assert("options"@.len() == 7);
    assert("options"@[0] == 'o');
    assert("options"@[1] == 'p');
    assert("options"@[2] == 't');
    assert("options"@[3] == 'i');
    assert("options"@[4] == 'o');
    assert("options"@[5] == 'n');
    assert("options"@[6] == 's');
    reveal_strlit("head");
    assert("head"@.len() == 4);
    assert("head"@[0] == 'h');
    assert("head"@[1] == 'e');
    assert("head"@[2] == 'a');
    assert("head"@[3] == 'd');
    reveal_strlit("patch");
    assert("patch"@.len() == 5);
    assert("patch"@[0] == 'p');
    assert("patch"@[1] == 'a');
    assert("patch"@[2] == 't');
    assert("patch"@[3] == 'c');
    assert("patch"@[4] == 'h');
    reveal_strlit("trace");
    assert("trace"@.len() == 5);
    assert("trace"@[0] == 't');
    assert("trace"@[1] == 'r');
    assert("trace"@[2] == 'a');
    assert("trace"@[3] == 'c');
    assert("trace"@[4] == 'e');
    reveal_strlit("GET");
    assert("GET"@.len() == 3);
    assert("GET"@[0] == 'G');
    assert("GET"@[1] == 'E');
    assert("GET"@[2] == 'T');
    reveal_strlit("PUT");
    assert("PUT"@.len() == 3);
    assert("PUT"@[0] == 'P');
    assert("PUT"@[1] == 'U');
    assert("PUT"@[2] == 'T');
    reveal_strlit("POST");
    assert("POST"@.len() == 4);
    assert("POST"@[0] == 'P');
    assert("POST"@[1] == 'O');
    assert("POST"@[2] == 'S');
    assert("POST"@[3] == 'T');
    reveal_strlit("DELETE");
    assert("DELETE"@.len() == 6);
    assert("DELETE"@[0] == 'D');
    assert("DELETE"@[1] == 'E');
    assert("DELETE"@[2] == 'L');
    assert("DELETE"@[3] == 'E');
    assert("DELETE"@[4] == 'T');
    assert("DELETE"@[5] == 'E');
    reveal_strlit("OPTIONS");
    assert("OPTIONS"@.len() == 7);
    assert("OPTIONS"@[0] == 'O');
    assert("OPTIONS"@[1] == 'P');
    assert("OPTIONS"@[2] == 'T');
    assert("OPTIONS"@[3] == 'I');
    assert("OPTIONS"@[4] == 'O');
    assert("OPTIONS"@[5] == 'N');
    assert("OPTIONS"@[6] == 'S');
    reveal_strlit("HEAD");
    assert("HEAD"@.len() == 4);
    assert("HEAD"@[0] == 'H');
    assert("HEAD"@[1] == 'E');
    assert("HEAD"@[2] == 'A');
    assert("HEAD"@[3] == 'D');
    reveal_strlit("PATCH");
    assert("PATCH"@.len() == 5);
    assert("PATCH"@[0] == 'P');
    assert("PATCH"@[1] == 'A');
    assert("PATCH"@[2] == 'T');
    assert("PATCH"@[3] == 'C');
    assert("PATCH"@[4] == 'H');
    reveal_strlit("TRACE");
    assert("TRACE"@.len() == 5);
    assert("TRACE"@[0] == 'T');
    assert("TRACE"@[1] == 'R');
    assert("TRACE"@[2] == 'A');
    assert("TRACE"@[3] == 'C');
    assert("TRACE"@[4] == 'E');
    let name = text::ascii_upper(method);
    if name == "GET"@ {
        lemma_small_letters(method, "GET"@, "get"@);
    } else if name == "PUT"@ {
        lemma_small_letters(method, "PUT"@, "put"@);
    } else if name == "POST"@ {
        lemma_small_letters(method, "POST"@, "post"@);
    } else if name == "DELETE"@ {
        lemma_small_letters(method, "DELETE"@, "delete"@);
    } else if name == "OPTIONS"@ {
        lemma_small_letters(method, "OPTIONS"@, "options"@);
    } else if name == "HEAD"@ {
        lemma_small_letters(method, "HEAD"@, "head"@);
    } else if name == "PATCH"@ {
        lemma_small_letters(method, "PATCH"@, "patch"@);
    } else if name == "TRACE"@ {
        lemma_small_letters(method, "TRACE"@, "trace"@);
    }
}

/// Every name of a method in small letters has its place.
proof fn lemma_name_verb(method: Seq<char>)
    requires
        is_method_name(text::ascii_lower(method)),
    ensures
        spec::verb_of(method) is Some,
{
    reveal_strlit("get");
    assert("get"@.len() == 3);
    assert("get"@[0] == 'g');
    assert("get"@[1] == 'e');
    assert("get"@[2] == 't');
    reveal_strlit("put");
    assert("put"@.len() == 3);
    assert("put"@[0] == 'p');
    assert("put"@[1] == 'u');
    assert("put"@[2] == 't');
    reveal_strlit("post");
    assert("post"@.len() == 4);
    assert("post"@[0] == 'p');
    assert("post"@[1] == 'o');
    assert("post"@[2] == 's');
    assert("post"@[3] == 't');
    reveal_strlit("delete");
    assert("delete"@.len() == 6);
    assert("delete"@[0] == 'd');
    assert("delete"@[1] == 'e');
    assert("delete"@[2] == 'l');
    assert("delete"@[3] == 'e');
    assert("delete"@[4] == 't');
    assert("delete"@[5] == 'e');
    reveal_strlit("options");
    assert("options"@.len() == 7);
    assert("options"@[0] == 'o');
    assert("options"@[1] == 'p');
    assert("options"@[2] == 't');
    assert("options"@[3] == 'i');
    assert("options"@[4] == 'o');
    assert("options"@[5] == 'n');
    assert("options"@[6] == 's');
    reveal_strlit("head");
    assert("head"@.len() == 4);
    assert("head"@[0] == 'h');
    assert("head"@[1] == 'e');
    assert("head"@[2] == 'a');
    assert("head"@[3] == 'd');
    reveal_strlit("patch");
    assert("patch"@.len() == 5);
    assert("patch"@[0] == 'p');
    assert("patch"@[1] == 'a');
    assert("patch"@[2] == 't');
    assert("patch"@[3] == 'c');
    assert("patch"@[4] == 'h');
    reveal_strlit("trace");
    assert("trace"@.len() == 5);
    assert("trace"@[0] == 't');
    assert("trace"@[1] == 'r');
    assert("trace"@[2] == 'a');
    assert("trace"@[3] == 'c');
    assert("trace"@[4] == 'e');
    reveal_strlit("GET");
    assert("GET"@.len() == 3);
    assert("GET"@[0] == 'G');
    assert("GET"@[1] == 'E');
    assert("GET"@[2] == 'T');
    reveal_strlit("PUT");
    assert("PUT"@.len() == 3);
    assert("PUT"@[0] == 'P');
    assert("PUT"@[1] == 'U');
    assert("PUT"@[2] == 'T');
    reveal_strlit("POST");
    assert("POST"@.len() == 4);
    assert("POST"@[0] == 'P');
    assert("POST"@[1] == 'O');
    assert("POST"@[2] == 'S');
    assert("POST"@[3] == 'T');
    reveal_strlit("DELETE");
    assert("DELETE"@.len() == 6);
    assert("DELETE"@[0] == 'D');
    assert("DELETE"@[1] == 'E');
    assert("DELETE"@[2] == 'L');
    assert("DELETE"@[3] == 'E');
    assert("DELETE"@[4] == 'T');
    assert("DELETE"@[5] == 'E');
    reveal_strlit("OPTIONS");
    assert("OPTIONS"@.len() == 7);
    assert("OPTIONS"@[0] == 'O');
    assert("OPTIONS"@[1] == 'P');
    assert("OPTIONS"@[2] == 'T');
    assert("OPTIONS"@[3] == 'I');
    assert("OPTIONS"@[4] == 'O');
    assert("OPTIONS"@[5] == 'N');
    assert("OPTIONS"@[6] == 'S');
    reveal_strlit("HEAD");
    assert("HEAD"@.len() == 4);
    assert("HEAD"@[0] == 'H');
    assert("HEAD"@[1] == 'E');
    assert("HEAD"@[2] == 'A');
    assert("HEAD"@[3] == 'D');
    reveal_strlit("PATCH");
    assert("PATCH"@.len() == 5);
    assert("PATCH"@[0] == 'P');
    assert("PATCH"@[1] == 'A');
    assert("PATCH"@[2] == 'T');
    assert("PATCH"@[3] == 'C');
    assert("PATCH"@[4] == 'H');
    reveal_strlit("TRACE");
    assert("TRACE"@.len() == 5);
    assert("TRACE"@[0] == 'T');
    assert("TRACE"@[1] == 'R');
    assert("TRACE"@[2] == 'A');
    assert("TRACE"@[3] == 'C');
    assert("TRACE"@[4] == 'E');
    lemma_capital_letters(method);
    let name = text::ascii_lower(method);
    let upper = text::ascii_upper(name);
    if name == "get"@ {
        assert(upper =~= "GET"@);
    } else if name == "put"@ {
        assert(upper =~= "PUT"@);
    } else if name == "post"@ {
        assert(upper =~= "POST"@);
    } else if name == "delete"@ {
        assert(upper =~= "DELETE"@);
    } else if name == "options"@ {
        assert(upper =~= "OPTIONS"@);
    } else if name == "head"@ {
        assert(upper =~= "HEAD"@);
    } else if name == "patch"@ {
        assert(upper =~= "PATCH"@);
    } else {
        assert(upper =~= "TRACE"@);
    }
}

/// A written path item says what is in it.
spec fn says(w: ValueModel, v: PathItemModel) -> bool {
    &&& read(w, "summary"@) == opt_text_json(v.summary)
    &&& read(w, "description"@) == opt_text_json(v.description)
    &&& read(w, "get"@) == match v.get { Some(o) => Some(operation_json(o)), None => None, }
    &&& read(w, "put"@) == match v.put { Some(o) => Some(operation_json(o)), None => None, }
    &&& read(w, "post"@) == match v.post { Some(o) => Some(operation_json(o)), None => None, }
    &&& read(w, "delete"@) == match v.delete { Some(o) => Some(operation_json(o)), None => None, }
    &&& read(w, "options"@) == match v.options { Some(o) => Some(operation_json(o)), None => None, }
    &&& read(w, "head"@) == match v.head { Some(o) => Some(operation_json(o)), None => None, }
    &&& read(w, "patch"@) == match v.patch { Some(o) => Some(operation_json(o)), None => None, }
    &&& read(w, "trace"@) == match v.trace { Some(o) => Some(operation_json(o)), None => None, }
    &&& read(w, "servers"@) == list_json(items::<Server>(v.servers))
    &&& read(w, "parameters"@) == list_json(items::<Parameter>(v.parameters))
    &&& forall|key: Seq<char>| (#[trigger] read(w, key)) is Some ==> key == "summary"@ || key == "description"@ || key == "get"@ || key == "put"@ || key == "post"@ || key == "delete"@ || key == "options"@ || key == "head"@ || key == "patch"@ || key == "trace"@ || key == "servers"@ || key == "parameters"@
}

proof fn lemma_change(
    before: ValueModel,
    after: ValueModel,
    item: PathItemModel,
    verb: Verb,
    operation: OperationModel,
    key: Seq<char>,
)
    requires
        says(before, item),
        says(after, item.with(verb, Some(operation))),
    ensures
        verb is Get ==> read(after, "get"@) == Some(operation_json(operation)) && (key
            != "get"@ ==> read(after, key) == read(before, key)),
        verb is Put ==> read(after, "put"@) == Some(operation_json(operation)) && (key
            != "put"@ ==> read(after, key) == read(before, key)),
        verb is Post ==> read(after, "post"@) == Some(operation_json(operation)) && (key
            != "post"@ ==> read(after, key) == read(before, key)),
        verb is Delete ==> read(after, "delete"@) == Some(operation_json(operation)) && (key
            != "delete"@ ==> read(after, key) == read(before, key)),
        verb is Options ==> read(after, "options"@) == Some(operation_json(operation)) && (key
            != "options"@ ==> read(after, key) == read(before, key)),
        verb is Head ==> read(after, "head"@) == Some(operation_json(operation)) && (key
            != "head"@ ==> read(after, key) == read(before, key)),
        verb is Patch ==> read(after, "patch"@) == Some(operation_json(operation)) && (key
            != "patch"@ ==> read(after, key) == read(before, key)),
        verb is Trace ==> read(after, "trace"@) == Some(operation_json(operation)) && (key
            != "trace"@ ==> read(after, key) == read(before, key)),
{
    assert(read(before, key) is Some || read(before, key) is None);
    assert(read(after, key) is Some || read(after, key) is None);
}

/// An operation put in the place of a method is written under the method's name
/// in small letters, however the method was spelled, and no other member of the
/// path changes. A method has such a place exactly where its name is one of
/// OpenAPI's eight.
pub proof fn an_operation_is_written_under_its_method(
    item: PathItemModel,
    method: Seq<char>,
    operation: OperationModel,
    key: Seq<char>,
)
    ensures
        spec::verb_of(method) is Some <==> is_method_name(text::ascii_lower(method)),
        spec::verb_of(method) matches Some(verb) ==> {
            let after = path_item_json(item.with(verb, Some(operation)));
            &&& read(after, text::ascii_lower(method)) == Some(operation_json(operation))
            &&& key != text::ascii_lower(method) ==> read(after, key) == read(
                path_item_json(item),
                key,
            )
        },
{
    lemma_verb_name(method);
    if is_method_name(text::ascii_lower(method)) {
        lemma_name_verb(method);
    }
    if let Some(verb) = spec::verb_of(method) {
        let changed = item.with(verb, Some(operation));
        a_path_item_is_written_under_its_names(item);
        a_path_item_is_written_under_its_names(changed);
        assert(says(path_item_json(item), item));
        assert(says(path_item_json(changed), changed));
        lemma_change(path_item_json(item), path_item_json(changed), item, verb, operation, key);
    }
}

/// What a written path item holds under the name of a method is the operation
/// in that method's place.
proof fn lemma_item_member(item: PathItemModel, method: Seq<char>, verb: Verb)
    requires
        spec::verb_of(method) == Some(verb),
    ensures
        read(path_item_json(item), text::ascii_lower(method)) == match item.at(verb) {
            Some(o) => Some(operation_json(o)),
            None => None,
        },
{
    lemma_verb_name(method);
    a_path_item_is_written_under_its_names(item);
}

/// The written paths hold under each template what is in the document under it.
proof fn lemma_paths_member(paths: Seq<(Seq<char>, PathItemModel)>, key: Seq<char>)
    ensures
        held(entries::<PathItem>(paths), key) == match ordered::lookup(paths, key) {
            Some(item) => Some(path_item_json(item)),
            None => None,
        },
    decreases paths.len(),
{
    reveal_with_fuel(held, 2);
    let list = entries::<PathItem>(paths);
    if paths.len() > 0 {
        lemma_paths_member(paths.drop_last(), key);
        assert(list.drop_last() =~= entries::<PathItem>(paths.drop_last()));
        assert(list.last() == (paths.last().0, path_item_json(paths.last().1)));
        if paths.last().0 != key {
            assert(ordered::position(paths, key) == ordered::position(paths.drop_last(), key));
            ordered::lemma_position(paths.drop_last(), key);
        }
    }
}

/// What a reader of a written document finds at `paths`, a template, a method.
pub open spec fn operation_written(
    doc: ValueModel,
    template: Seq<char>,
    method: Seq<char>,
) -> Option<ValueModel> {
    match read(doc, "paths"@) {
        Some(paths) => match read(paths, template) {
            Some(item) => read(item, method),
            None => None,
        },
        None => None,
    }
}

/// The routes of the written document are those that are mounted: under `paths`,
/// a template and a method in small letters there is an operation exactly where
/// a route of that method is mounted at that template.
pub proof fn the_written_document_lists_the_mounted_routes<H: Describe, L, V>(
    app: AppModel<H, L, V>,
    template: Seq<char>,
    method: Seq<char>,
)
    requires
        is_method_name(method),
    ensures
        operation_written(OpenApi::json(app.document()), template, method) is Some <==> exists|
            i: int,
        |
            0 <= i < app.router.routes.len() && naming::without_catch_alls(
                (#[trigger] app.router.routes[i]).path,
            ) == template && text::ascii_lower(app.router.routes[i].method) == method,
{
    reveal_strlit("get");
    assert("get"@.len() == 3);
    assert("get"@[0] == 'g');
    assert("get"@[1] == 'e');
    assert("get"@[2] == 't');
    reveal_strlit("put");
    assert("put"@.len() == 3);
    assert("put"@[0] == 'p');
    assert("put"@[1] == 'u');
    assert("put"@[2] == 't');
    reveal_strlit("post");
    assert("post"@.len() == 4);
    assert("post"@[0] == 'p');
    assert("post"@[1] == 'o');
    assert("post"@[2] == 's');
    assert("post"@[3] == 't');
    reveal_strlit("delete");
    assert("delete"@.len() == 6);
    assert("delete"@[0] == 'd');
    assert("delete"@[1] == 'e');
    assert("delete"@[2] == 'l');
    assert("delete"@[3] == 'e');
    assert("delete"@[4] == 't');
    assert("delete"@[5] == 'e');
    reveal_strlit("options");
    assert("options"@.len() == 7);
    assert("options"@[0] == 'o');
    assert("options"@[1] == 'p');
    assert("options"@[2] == 't');
    assert("options"@[3] == 'i');
    assert("options"@[4] == 'o');
    assert("options"@[5] == 'n');
    assert("options"@[6] == 's');
    reveal_strlit("head");
    assert("head"@.len() == 4);
    assert("head"@[0] == 'h');
    assert("head"@[1] == 'e');
    assert("head"@[2] == 'a');
    assert("head"@[3] == 'd');
    reveal_strlit("patch");
    assert("patch"@.len() == 5);
    assert("patch"@[0] == 'p');
    assert("patch"@[1] == 'a');
    assert("patch"@[2] == 't');
    assert("patch"@[3] == 'c');
    assert("patch"@[4] == 'h');
    reveal_strlit("trace");
    assert("trace"@.len() == 5);
    assert("trace"@[0] == 't');
    assert("trace"@[1] == 'r');
    assert("trace"@[2] == 'a');
    assert("trace"@[3] == 'c');
    assert("trace"@[4] == 'e');
    let routes = app.router.routes;
    let doc = app.document();
    let paths = document::documented(routes).1;
    assert(doc.paths == paths);
    an_open_api_is_written_under_its_names(doc);
    lemma_paths_member(paths, template);
    assert(text::ascii_lower(method) =~= method);
    lemma_name_verb(method);
    let verb = spec::verb_of(method)->0;
    let written = operation_written(OpenApi::json(doc), template, method);
    reveal(held);
    assert(held(doc.extensions, "paths"@) is None);
    match ordered::lookup(paths, template) {
        Some(item) => {
            lemma_item_member(item, method, verb);
        },
        None => {},
    }
    assert(written is Some <==> document::operation_at(paths, template, verb) is Some);
    if written is Some {
        document::every_documented_operation_has_a_route(routes, template, verb);
        let i = choose|i: int|
            0 <= i < routes.len() && naming::without_catch_alls((#[trigger] routes[i]).path)
                == template && spec::verb_of(routes[i].method) == Some(verb);
        lemma_verb_name(routes[i].method);
        lemma_verb_name(method);
        assert(text::ascii_lower(routes[i].method) == method);
    }
    if exists|i: int|
        0 <= i < routes.len() && naming::without_catch_alls((#[trigger] routes[i]).path)
            == template && text::ascii_lower(routes[i].method) == method {
        let i = choose|i: int|
            0 <= i < routes.len() && naming::without_catch_alls((#[trigger] routes[i]).path)
                == template && text::ascii_lower(routes[i].method) == method;
        lemma_capital_letters(routes[i].method);
        lemma_capital_letters(method);
        assert(spec::verb_of(routes[i].method) == Some(verb));
        document::every_route_is_documented(routes, i);
    }
}

} // verus!
