//! Self-serving API documentation.
//!
//! Mounting an application gives you `/openapi.json` and a browsable UI with no
//! extra wiring, because the document is generated from the same route
//! definitions the server dispatches on.

use crate::body::{BodyModel, ResBody};
use crate::response;
use crate::response::{Reply, Response};
use crate::router::RouteDef;
use crate::text;
use vstd::prelude::*;
use vstd::string::*;
use vstd::utf8::*;

verus! {

/// Which documentation renderer to serve.
#[derive(Clone, Copy, Debug, PartialEq, Eq, Structural)]
pub enum Renderer {
    /// Scalar, the modern default: fast, searchable, dark-mode aware.
    Scalar,
    /// Swagger UI, the one everyone recognises, with a "try it" console.
    SwaggerUi,
    /// Redoc: three-pane reference layout, good for large documents.
    Redoc,
}

impl Renderer {
    /// Where a renderer is served by convention.
    pub open spec fn home(self) -> Seq<char> {
        match self {
            Renderer::Scalar => "/docs"@,
            Renderer::SwaggerUi => "/swagger"@,
            Renderer::Redoc => "/redoc"@,
        }
    }

    fn default_path(self) -> (path: &'static str)
        ensures
            path@ == self.home(),
    {
        match self {
            Renderer::Scalar => "/docs",
            Renderer::SwaggerUi => "/swagger",
            Renderer::Redoc => "/redoc",
        }
    }
}

/// Where documentation UI assets are loaded from.
pub enum AssetBase {
    /// Public CDNs.
    Cdn,
    /// A prefix you host yourself. Each renderer's script is looked up
    /// underneath it, e.g. `{prefix}/scalar.js`.
    SelfHosted(String),
}

/// Where assets are loaded from, as a value.
pub enum BaseModel {
    Cdn,
    SelfHosted(Seq<char>),
}

impl View for AssetBase {
    type V = BaseModel;

    open spec fn view(&self) -> BaseModel {
        match self {
            AssetBase::Cdn => BaseModel::Cdn,
            AssetBase::SelfHosted(prefix) => BaseModel::SelfHosted(prefix@),
        }
    }
}

/// Documentation endpoint configuration.
pub struct Docs {
    openapi_path: String,
    uis: Vec<(String, Renderer)>,
    /// Where the renderer's assets come from. Point this at your own host to
    /// serve documentation from an air-gapped network.
    asset_base: AssetBase,
    title: Option<String>,
}

/// Documentation endpoints, as a value.
#[verifier::ext_equal]
pub struct DocsModel {
    pub openapi_path: Seq<char>,
    pub uis: Seq<(Seq<char>, Renderer)>,
    pub asset_base: BaseModel,
    pub title: Option<Seq<char>>,
}

pub open spec fn ui_models(uis: Seq<(String, Renderer)>) -> Seq<(Seq<char>, Renderer)> {
    uis.map_values(|ui: (String, Renderer)| (ui.0@, ui.1))
}

impl View for Docs {
    type V = DocsModel;

    closed spec fn view(&self) -> DocsModel {
        DocsModel {
            openapi_path: self.openapi_path@,
            uis: ui_models(self.uis@),
            asset_base: self.asset_base@,
            title: text::opt(self.title),
        }
    }
}

impl DocsModel {
    /// The document at `/openapi.json`, under these UIs.
    pub open spec fn with_uis(uis: Seq<(Seq<char>, Renderer)>) -> DocsModel {
        DocsModel {
            openapi_path: "/openapi.json"@,
            uis,
            asset_base: BaseModel::Cdn,
            title: None,
        }
    }

    /// Scalar at `/docs`, Redoc at `/redoc`, document at `/openapi.json`.
    pub open spec fn standard() -> DocsModel {
        DocsModel::with_uis(seq![("/docs"@, Renderer::Scalar), ("/redoc"@, Renderer::Redoc)])
    }

    /// The paths that are occupied.
    pub open spec fn paths(self) -> Seq<Seq<char>> {
        seq![self.openapi_path] + self.uis.map_values(|ui: (Seq<char>, Renderer)| ui.0)
    }
}

impl Default for Docs {
    fn default() -> (docs: Self)
        ensures
            docs@ == DocsModel::standard(),
    {
        let mut uis: Vec<(String, Renderer)> = Vec::new();
        uis.push(("/docs".to_owned(), Renderer::Scalar));
        uis.push(("/redoc".to_owned(), Renderer::Redoc));
        let docs = Docs {
            openapi_path: "/openapi.json".to_owned(),
            uis,
            asset_base: AssetBase::Cdn,
            title: None,
        };
        assert(docs@ =~= DocsModel::standard());
        docs
    }
}

impl Docs {
    /// The default set: Scalar at `/docs`, Redoc at `/redoc`, document at
    /// `/openapi.json`.
    pub fn new() -> (docs: Self)
        ensures
            docs@ == DocsModel::standard(),
    {
        Self::default()
    }

    /// Serves only the JSON document, with no UI.
    pub fn json_only() -> (docs: Self)
        ensures
            docs@ == DocsModel::with_uis(Seq::empty()),
    {
        let docs = Docs { uis: Vec::new(), ..Self::default() };
        assert(docs@ =~= DocsModel::with_uis(Seq::empty()));
        docs
    }

    /// Serves a single renderer at its conventional path.
    pub fn only(renderer: Renderer) -> (docs: Self)
        ensures
            docs@ == DocsModel::with_uis(seq![(renderer.home(), renderer)]),
    {
        Self::only_at(renderer.default_path(), renderer)
    }

    /// Serves a single renderer at a path you choose.
    ///
    /// `/docs` is where people look regardless of which renderer is behind it,
    /// so swapping renderers should not mean moving the URL.
    pub fn only_at(path: &str, renderer: Renderer) -> (docs: Self)
        ensures
            docs@ == DocsModel::with_uis(seq![(path@, renderer)]),
    {
        let mut uis: Vec<(String, Renderer)> = Vec::new();
        uis.push((path.to_owned(), renderer));
        let docs = Docs { uis, ..Self::default() };
        assert(docs@ =~= DocsModel::with_uis(seq![(path@, renderer)]));
        docs
    }

    /// Adds a renderer at a specific path.
    pub fn with(self, path: &str, renderer: Renderer) -> (docs: Self)
        ensures
            docs@ == (DocsModel { uis: self@.uis.push((path@, renderer)), ..self@ }),
    {
        let ghost before = self@;
        let mut docs = self;
        docs.uis.push((path.to_owned(), renderer));
        assert(docs@ =~= DocsModel { uis: before.uis.push((path@, renderer)), ..before });
        docs
    }

    /// Changes where the JSON document is served.
    pub fn openapi_path(self, path: &str) -> (docs: Self)
        ensures
            docs@ == (DocsModel { openapi_path: path@, ..self@ }),
    {
        let mut docs = self;
        docs.openapi_path = path.to_owned();
        docs
    }

    /// Loads UI assets from a prefix you control rather than a public CDN.
    pub fn self_hosted_assets(self, prefix: &str) -> (docs: Self)
        ensures
            docs@ == (DocsModel { asset_base: BaseModel::SelfHosted(prefix@), ..self@ }),
    {
        let mut docs = self;
        docs.asset_base = AssetBase::SelfHosted(prefix.to_owned());
        docs
    }

    /// Overrides the browser tab title, which defaults to the document title.
    pub fn page_title(self, title: &str) -> (docs: Self)
        ensures
            docs@ == (DocsModel { title: Some(title@), ..self@ }),
    {
        let mut docs = self;
        docs.title = Some(title.to_owned());
        docs
    }

    /// The paths this configuration occupies, so an app can report them.
    pub fn paths(&self) -> (out: Vec<String>)
        ensures
            text::views(out@) == self@.paths(),
    {
        let mut out: Vec<String> = Vec::new();
        out.push(self.openapi_path.clone());
        for i in 0..self.uis.len()
            invariant
                out@.len() == i + 1,
                out@[0]@ == self.openapi_path@,
                forall|j: int| 0 <= j < i ==> (#[trigger] out@[j + 1])@ == self.uis@[j].0@,
        {
            out.push(self.uis[i].0.clone());
        }
        assert forall|j: int| 0 <= j < out@.len() implies text::views(out@)[j] == self@.paths()[j] by {
            if j > 0 {
                assert(out@[(j - 1) + 1]@ == self.uis@[j - 1].0@);
            }
        }
        assert(text::views(out@) =~= self@.paths());
        out
    }
}

// ---------------------------------------------------------------------------
// pages
// ---------------------------------------------------------------------------

/// A character as it stands in HTML.
pub open spec fn entity(c: char) -> Seq<char> {
    if c == '&' {
        "&amp;"@
    } else if c == '<' {
        "&lt;"@
    } else if c == '>' {
        "&gt;"@
    } else if c == '"' {
        "&quot;"@
    } else if c == '\'' {
        "&#39;"@
    } else {
        seq![c]
    }
}

/// Text as it stands in HTML.
pub open spec fn html(s: Seq<char>) -> Seq<char>
    decreases s.len(),
{
    if s.len() == 0 {
        Seq::empty()
    } else {
        html(s.drop_last()) + entity(s.last())
    }
}

/// HTML-escapes text destined for an attribute or element body.
pub fn escape(s: &str) -> (out: String)
    ensures
        out@ == html(s@),
{
    let v = text::chars(s);
    let mut out = String::new();
    assert(s@.take(0) =~= Seq::<char>::empty());
    for i in 0..v.len()
        invariant
            v@ == s@,
            out@ == html(s@.take(i as int)),
    {
        assert(s@.take(i + 1).drop_last() =~= s@.take(i as int));
        let c = v[i];
        let ghost before = out@;
        if c == '&' {
            out.append("&amp;");
        } else if c == '<' {
            out.append("&lt;");
        } else if c == '>' {
            out.append("&gt;");
        } else if c == '"' {
            out.append("&quot;");
        } else if c == '\'' {
            out.append("&#39;");
        } else {
            out.push(c);
            assert(out@ =~= before + seq![c]);
        }
    }
    assert(s@.take(v@.len() as int) =~= s@);
    out
}

/// A text without the slashes at its end.
pub open spec fn without_slashes(s: Seq<char>) -> Seq<char>
    decreases s.len(),
{
    if s.len() > 0 && s.last() == '/' {
        without_slashes(s.drop_last())
    } else {
        s
    }
}

/// Removes the slashes at the end of a text.
pub fn trim_slashes(s: &str) -> (out: String)
    ensures
        out@ == without_slashes(s@),
{
    let v = text::chars(s);
    let mut to: usize = v.len();
    assert(s@.take(to as int) =~= s@);
    while to > 0 && v[to - 1] == '/'
        invariant
            to <= v@.len(),
            v@ == s@,
            without_slashes(s@) == without_slashes(s@.take(to as int)),
        decreases to,
    {
        assert(s@.take(to as int).drop_last() =~= s@.take(to - 1));
        to -= 1;
    }
    assert(v@.subrange(0, to as int) =~= s@.take(to as int));
    text::text_of(&v, 0, to)
}

/// A file below a prefix.
pub open spec fn hosted(prefix: Seq<char>, file: Seq<char>) -> Seq<char> {
    without_slashes(prefix) + file
}

fn host(prefix: &str, file: &str) -> (out: String)
    ensures
        out@ == hosted(prefix@, file@),
{
    let mut out = trim_slashes(prefix);
    out.append(file);
    out
}

/// Where a renderer's script is loaded from.
pub open spec fn script_of(base: BaseModel, renderer: Renderer) -> Seq<char> {
    match base {
        BaseModel::Cdn => match renderer {
            Renderer::Scalar => "https://cdn.jsdelivr.net/npm/@scalar/api-reference"@,
            Renderer::SwaggerUi => {
                "https://cdn.jsdelivr.net/npm/swagger-ui-dist/swagger-ui-bundle.js"@
            },
            Renderer::Redoc => "https://cdn.jsdelivr.net/npm/redoc/bundles/redoc.standalone.js"@,
        },
        BaseModel::SelfHosted(prefix) => match renderer {
            Renderer::Scalar => hosted(prefix, "/scalar.js"@),
            Renderer::SwaggerUi => hosted(prefix, "/swagger-ui-bundle.js"@),
            Renderer::Redoc => hosted(prefix, "/redoc.standalone.js"@),
        },
    }
}

/// Where the style sheet of Swagger UI is loaded from.
pub open spec fn stylesheet_of(base: BaseModel) -> Seq<char> {
    match base {
        BaseModel::Cdn => "https://cdn.jsdelivr.net/npm/swagger-ui-dist/swagger-ui.css"@,
        BaseModel::SelfHosted(prefix) => hosted(prefix, "/swagger-ui.css"@),
    }
}

/// Where a renderer's script is loaded from.
pub fn asset(base: &AssetBase, renderer: Renderer) -> (out: String)
    ensures
        out@ == script_of(base@, renderer),
{
    match base {
        AssetBase::Cdn => match renderer {
            Renderer::Scalar => "https://cdn.jsdelivr.net/npm/@scalar/api-reference".to_owned(),
            Renderer::SwaggerUi => {
                "https://cdn.jsdelivr.net/npm/swagger-ui-dist/swagger-ui-bundle.js".to_owned()
            },
            Renderer::Redoc => {
                "https://cdn.jsdelivr.net/npm/redoc/bundles/redoc.standalone.js".to_owned()
            },
        },
        AssetBase::SelfHosted(prefix) => match renderer {
            Renderer::Scalar => host(prefix.as_str(), "/scalar.js"),
            Renderer::SwaggerUi => host(prefix.as_str(), "/swagger-ui-bundle.js"),
            Renderer::Redoc => host(prefix.as_str(), "/redoc.standalone.js"),
        },
    }
}

fn stylesheet(base: &AssetBase) -> (out: String)
    ensures
        out@ == stylesheet_of(base@),
{
    match base {
        AssetBase::Cdn => "https://cdn.jsdelivr.net/npm/swagger-ui-dist/swagger-ui.css".to_owned(),
        AssetBase::SelfHosted(prefix) => host(prefix.as_str(), "/swagger-ui.css"),
    }
}

pub const PAGE_OPENING: &'static str = "<!doctype html>\n<html>\n  <head>\n    <meta charset=\"utf-8\" />\n    <meta name=\"viewport\" content=\"width=device-width, initial-scale=1\" />\n    <title>";

pub const SCALAR_BODY: &'static str = "</title>\n  </head>\n  <body>\n    <script id=\"api-reference\" data-url=\"";

pub const SCRIPT: &'static str = "\"></script>\n    <script src=\"";

pub const PAGE_CLOSING: &'static str = "\"></script>\n  </body>\n</html>";

pub const SWAGGER_STYLE: &'static str = "</title>\n    <link rel=\"stylesheet\" href=\"";

pub const SWAGGER_BODY: &'static str = "\" />\n  </head>\n  <body>\n    <div id=\"swagger-ui\"></div>\n    <script src=\"";

pub const SWAGGER_URL: &'static str = "\"></script>\n    <script>\n      window.ui = SwaggerUIBundle({\n        url: \"";

pub const SWAGGER_CLOSING: &'static str = "\",\n        dom_id: \"#swagger-ui\",\n        deepLinking: true\n      });\n    </script>\n  </body>\n</html>";

pub const REDOC_BODY: &'static str = "</title>\n    <style>body { margin: 0; padding: 0; }</style>\n  </head>\n  <body>\n    <redoc spec-url=\"";

pub const REDOC_SCRIPT: &'static str = "\"></redoc>\n    <script src=\"";

/// The page of a renderer. The title, the document's address and the assets
/// stand in it escaped.
pub open spec fn page(
    renderer: Renderer,
    title: Seq<char>,
    spec_url: Seq<char>,
    base: BaseModel,
) -> Seq<char> {
    let title = html(title);
    let url = html(spec_url);
    let script = html(script_of(base, renderer));
    match renderer {
        Renderer::Scalar => PAGE_OPENING@ + title + SCALAR_BODY@ + url + SCRIPT@ + script
            + PAGE_CLOSING@,
        Renderer::SwaggerUi => PAGE_OPENING@ + title + SWAGGER_STYLE@ + html(stylesheet_of(base))
            + SWAGGER_BODY@ + script + SWAGGER_URL@ + url + SWAGGER_CLOSING@,
        Renderer::Redoc => PAGE_OPENING@ + title + REDOC_BODY@ + url + REDOC_SCRIPT@ + script
            + PAGE_CLOSING@,
    }
}

/// Writes the page of a renderer.
pub fn render(renderer: Renderer, title: &str, spec_url: &str, base: &AssetBase) -> (out: String)
    ensures
        out@ == page(renderer, title@, spec_url@, base@),
{
    let title = escape(title);
    let url = escape(spec_url);
    let script = escape(asset(base, renderer).as_str());
    let mut out = PAGE_OPENING.to_owned();
    out.append(title.as_str());
    match renderer {
        Renderer::Scalar => {
            out.append(SCALAR_BODY);
            out.append(url.as_str());
            out.append(SCRIPT);
            out.append(script.as_str());
            out.append(PAGE_CLOSING);
        },
        Renderer::SwaggerUi => {
            out.append(SWAGGER_STYLE);
            out.append(escape(stylesheet(base).as_str()).as_str());
            out.append(SWAGGER_BODY);
            out.append(script.as_str());
            out.append(SWAGGER_URL);
            out.append(url.as_str());
            out.append(SWAGGER_CLOSING);
        },
        Renderer::Redoc => {
            out.append(REDOC_BODY);
            out.append(url.as_str());
            out.append(REDOC_SCRIPT);
            out.append(script.as_str());
            out.append(PAGE_CLOSING);
        },
    }
    out
}

/// Escaped text can neither open or close a tag nor end an attribute value: it
/// cannot break out of the page.
pub proof fn escaped_text_stays_text(s: Seq<char>, i: int)
    requires
        0 <= i < html(s).len(),
    ensures
        html(s)[i] != '<',
        html(s)[i] != '>',
        html(s)[i] != '"',
        html(s)[i] != '\'',
    decreases s.len(),
{
    reveal_strlit("&amp;");
    reveal_strlit("&lt;");
    reveal_strlit("&gt;");
    reveal_strlit("&quot;");
    reveal_strlit("&#39;");
    let before = html(s.drop_last());
    if i < before.len() {
        escaped_text_stays_text(s.drop_last(), i);
    } else {
        assert(html(s)[i] == entity(s.last())[i - before.len()]);
    }
}

// ---------------------------------------------------------------------------
// routes
// ---------------------------------------------------------------------------

/// What a documentation route answers.
pub enum Page {
    /// The document, written out as JSON.
    Document(Vec<u8>),
    /// A browsable page.
    Html(String),
}

/// What a documentation route answers, as a value.
pub enum PageModel {
    Document(Seq<u8>),
    Html(Seq<char>),
}

impl View for Page {
    type V = PageModel;

    open spec fn view(&self) -> PageModel {
        match self {
            Page::Document(bytes) => PageModel::Document(bytes@),
            Page::Html(html) => PageModel::Html(html@),
        }
    }
}

impl PageModel {
    /// The response of a documentation route. The document changes only when
    /// the program does.
    pub open spec fn reply<S>(self) -> Reply<S> {
        match self {
            PageModel::Document(bytes) => Reply::of_type(
                BodyModel::full(bytes),
                "application/json"@,
            ).with_header("cache-control"@, "no-cache"@),
            PageModel::Html(html) => Reply::of_type(
                BodyModel::full(encode_utf8(html)),
                "text/html; charset=utf-8"@,
            ),
        }
    }
}

impl Page {
    /// The bytes, copied: a route answers again and again.
    fn bytes(&self) -> (out: Vec<u8>)
        ensures
            out@ == match self@ {
                PageModel::Document(bytes) => bytes,
                PageModel::Html(html) => encode_utf8(html),
            },
    {
        match self {
            Page::Document(bytes) => vstd::slice::slice_to_vec(bytes.as_slice()),
            Page::Html(html) => html.as_str().as_bytes_vec(),
        }
    }

    /// Answers a request.
    pub fn respond<S>(&self) -> (r: Response<S>)
        ensures
            r@ == self@.reply::<S>(),
    {
        proof {
            response::lemma_known_names();
            response::lemma_known_types();
            reveal_strlit("no-cache");
        }
        let body = ResBody::full(self.bytes());
        match self {
            Page::Document(_) => {
                let mut r = Response::of_type(body, "application/json");
                r.set_header("cache-control", "no-cache");
                r
            },
            Page::Html(_) => Response::of_type(body, "text/html; charset=utf-8"),
        }
    }
}

/// A documentation route, as a value.
pub struct DocsRoute {
    pub path: Seq<char>,
    pub page: PageModel,
}

/// The bytes served as the document. Serialising it should be infallible; if it
/// is not, serving a broken document is worse than serving none.
pub open spec fn payload(written: Result<Vec<u8>, String>) -> Seq<u8> {
    match written {
        Ok(bytes) => bytes@,
        Err(cause) => encode_utf8("{\"error\":\""@ + cause@ + "\"}"@),
    }
}

impl DocsModel {
    /// The page title.
    pub open spec fn heading(self, document_title: Seq<char>) -> Seq<char> {
        match self.title {
            Some(title) => title,
            None => document_title,
        }
    }

    /// The routes: the document first, then each UI.
    pub open spec fn routes(
        self,
        document_title: Seq<char>,
        document: Seq<u8>,
    ) -> Seq<DocsRoute> {
        seq![DocsRoute { path: self.openapi_path, page: PageModel::Document(document) }]
            + self.uis.map_values(
            |ui: (Seq<char>, Renderer)|
                DocsRoute {
                    path: ui.0,
                    page: PageModel::Html(
                        page(
                            ui.1,
                            self.heading(document_title),
                            self.openapi_path,
                            self.asset_base,
                        ),
                    ),
                },
        )
    }
}

/// The routes of a list, all of them `GET`.
pub open spec fn are_routes(list: Seq<RouteDef<Page>>, routes: Seq<DocsRoute>) -> bool {
    &&& list.len() == routes.len()
    &&& forall|i: int|
        0 <= i < list.len() ==> (#[trigger] list[i]).method@ == "GET"@ && list[i].path@
            == routes[i].path && list[i].handler@ == routes[i].page
}

impl Docs {
    /// Builds the routes that serve this configuration, given the document's
    /// title and what came of writing it out.
    pub fn routes(&self, document_title: &str, written: Result<Vec<u8>, String>) -> (out: Vec<
        RouteDef<Page>,
    >)
        ensures
            are_routes(out@, self@.routes(document_title@, payload(written))),
    {
        let ghost model = self@.routes(document_title@, payload(written));
        let document = match written {
            Ok(bytes) => bytes,
            Err(cause) => {
                let mut message = "{\"error\":\"".to_owned();
                message.append(cause.as_str());
                message.append("\"}");
                message.as_str().as_bytes_vec()
            },
        };
        let mut out: Vec<RouteDef<Page>> = Vec::new();
        out.push(RouteDef::raw("GET", self.openapi_path.as_str(), Page::Document(document)));
        let title = match &self.title {
            Some(title) => title.as_str(),
            None => document_title,
        };
        for i in 0..self.uis.len()
            invariant
                title@ == self@.heading(document_title@),
                model == self@.routes(document_title@, payload(written)),
                out@.len() == i + 1,
                forall|j: int|
                    0 <= j < out@.len() ==> (#[trigger] out@[j]).method@ == "GET"@
                        && out@[j].path@ == model[j].path && out@[j].handler@ == model[j].page,
        {
            let (path, renderer) = &self.uis[i];
            let html = render(*renderer, title, self.openapi_path.as_str(), &self.asset_base);
            assert(self@.uis[i as int] == (path@, *renderer));
            assert(model[i + 1] == self@.routes(document_title@, payload(written))[i + 1]);
            out.push(RouteDef::raw("GET", path.as_str(), Page::Html(html)));
        }
        out
    }
}

} // verus!
