//! What the documentation routes serve.

use crate::docs;
use crate::docs::{BaseModel, DocsModel, PageModel, Renderer};
use crate::headers;
use crate::laws::answers::{payload, sent};
use crate::response;
use vstd::prelude::*;
use vstd::string::*;
use vstd::utf8::*;

verus! {

/// `part` stands somewhere in `s`.
pub open spec fn holds_text(s: Seq<char>, part: Seq<char>) -> bool {
    exists|a: Seq<char>, b: Seq<char>| s == #[trigger] (a + part + b)
}

proof fn lemma_holds(s: Seq<char>, a: Seq<char>, part: Seq<char>, b: Seq<char>)
    requires
        s =~= a + part + b,
    ensures
        holds_text(s, part),
{
    assert(s == a + part + b);
}

/// In HTML five characters are written as entities, and every other as it is.
pub proof fn five_characters_are_entities(s: Seq<char>, c: char)
    ensures
        docs::html(Seq::empty()) == Seq::<char>::empty(),
        docs::html(s.push('&')) == docs::html(s) + "&amp;"@,
        docs::html(s.push('<')) == docs::html(s) + "&lt;"@,
        docs::html(s.push('>')) == docs::html(s) + "&gt;"@,
        docs::html(s.push('"')) == docs::html(s) + "&quot;"@,
        docs::html(s.push('\'')) == docs::html(s) + "&#39;"@,
        c != '&' && c != '<' && c != '>' && c != '"' && c != '\'' ==> docs::html(s.push(c))
            == docs::html(s).push(c),
{
    assert(s.push('&').drop_last() =~= s);
    assert(s.push('<').drop_last() =~= s);
    assert(s.push('>').drop_last() =~= s);
    assert(s.push('"').drop_last() =~= s);
    assert(s.push('\'').drop_last() =~= s);
    assert(s.push(c).drop_last() =~= s);
    assert(docs::html(s) + seq![c] =~= docs::html(s).push(c));
}

/// Scripts come from the public network by default, and from below a prefix
/// where one is given, however many slashes it ends in.
pub proof fn scripts_come_from_where_they_are_hosted(prefix: Seq<char>)
    ensures
        docs::script_of(BaseModel::Cdn, Renderer::Scalar)
            == "https://cdn.jsdelivr.net/npm/@scalar/api-reference"@,
        docs::script_of(BaseModel::Cdn, Renderer::SwaggerUi)
            == "https://cdn.jsdelivr.net/npm/swagger-ui-dist/swagger-ui-bundle.js"@,
        docs::script_of(BaseModel::Cdn, Renderer::Redoc)
            == "https://cdn.jsdelivr.net/npm/redoc/bundles/redoc.standalone.js"@,
        docs::stylesheet_of(BaseModel::Cdn)
            == "https://cdn.jsdelivr.net/npm/swagger-ui-dist/swagger-ui.css"@,
        !(prefix.len() > 0 && prefix.last() == '/') ==> {
            &&& docs::script_of(BaseModel::SelfHosted(prefix), Renderer::Scalar) == prefix
                + "/scalar.js"@
            &&& docs::script_of(BaseModel::SelfHosted(prefix), Renderer::SwaggerUi) == prefix
                + "/swagger-ui-bundle.js"@
            &&& docs::script_of(BaseModel::SelfHosted(prefix), Renderer::Redoc) == prefix
                + "/redoc.standalone.js"@
            &&& docs::stylesheet_of(BaseModel::SelfHosted(prefix)) == prefix + "/swagger-ui.css"@
        },
        forall|r: Renderer|
            #[trigger] docs::script_of(BaseModel::SelfHosted(prefix.push('/')), r)
                == docs::script_of(BaseModel::SelfHosted(prefix), r),
        docs::stylesheet_of(BaseModel::SelfHosted(prefix.push('/'))) == docs::stylesheet_of(
            BaseModel::SelfHosted(prefix),
        ),
{
    assert(prefix.push('/').drop_last() =~= prefix);
    assert(docs::without_slashes(prefix.push('/')) == docs::without_slashes(prefix));
}

/// A page shows the title, loads the script of its renderer, and hands it the
/// address of the document.
pub proof fn a_page_loads_its_document(
    renderer: Renderer,
    title: Seq<char>,
    url: Seq<char>,
    base: BaseModel,
)
    ensures
        holds_text(
            docs::page(renderer, title, url, base),
            "<title>"@ + docs::html(title) + "</title>"@,
        ),
        holds_text(
            docs::page(renderer, title, url, base),
            "<script src=\""@ + docs::html(docs::script_of(base, renderer)) + "\"></script>"@,
        ),
        renderer == Renderer::Scalar ==> holds_text(
            docs::page(renderer, title, url, base),
            "data-url=\""@ + docs::html(url) + "\""@,
        ),
        renderer == Renderer::SwaggerUi ==> holds_text(
            docs::page(renderer, title, url, base),
            "url: \""@ + docs::html(url) + "\""@,
        ) && holds_text(
            docs::page(renderer, title, url, base),
            "<link rel=\"stylesheet\" href=\""@ + docs::html(docs::stylesheet_of(base)) + "\""@,
        ),
        renderer == Renderer::Redoc ==> holds_text(
            docs::page(renderer, title, url, base),
            "spec-url=\""@ + docs::html(url) + "\""@,
        ),
{
    let t = docs::html(title);
    let u = docs::html(url);
    let s = docs::html(docs::script_of(base, renderer));
    lemma_opening();
    match renderer {
        Renderer::Scalar => {
            lemma_scalar();
            lemma_closing();
            lemma_three(
                docs::PAGE_OPENING@,
                t,
                docs::SCALAR_BODY@,
                u,
                docs::SCRIPT@,
                s,
                docs::PAGE_CLOSING@,
                "data-url=\""@,
            );
        },
        Renderer::SwaggerUi => {
            let css = docs::html(docs::stylesheet_of(base));
            lemma_four(t, css, s, u);
        },
        Renderer::Redoc => {
            lemma_redoc();
            lemma_closing();
            lemma_three(
                docs::PAGE_OPENING@,
                t,
                docs::REDOC_BODY@,
                u,
                docs::REDOC_SCRIPT@,
                s,
                docs::PAGE_CLOSING@,
                "spec-url=\""@,
            );
        },
    }
}

/// What stands between two pieces, with what they end and start in.
proof fn lemma_slot(
    pre: Seq<char>,
    a: Seq<char>,
    x: Seq<char>,
    b: Seq<char>,
    post: Seq<char>,
    end: Seq<char>,
    start: Seq<char>,
)
    requires
        a == cut_end(a, end) + end,
        b == start + cut_start(b, start),
    ensures
        holds_text(pre + a + x + b + post, end + x + start),
{
    let a0 = cut_end(a, end);
    let b0 = cut_start(b, start);
    let needle = end + x + start;
    assert(pre + (a0 + end) + x + (start + b0) + post =~= (pre + a0) + needle + (b0 + post));
    lemma_holds(pre + a + x + b + post, pre + a0, needle, b0 + post);
}

proof fn lemma_three(
    a: Seq<char>,
    t: Seq<char>,
    b: Seq<char>,
    u: Seq<char>,
    c: Seq<char>,
    s: Seq<char>,
    d: Seq<char>,
    address: Seq<char>,
)
    requires
        a == cut_end(a, "<title>"@) + "<title>"@,
        b == "</title>"@ + cut_start(b, "</title>"@),
        b == cut_end(b, address) + address,
        c == "\""@ + cut_start(c, "\""@),
        c == cut_end(c, "<script src=\""@) + "<script src=\""@,
        d == "\"></script>"@ + cut_start(d, "\"></script>"@),
    ensures
        holds_text(a + t + b + u + c + s + d, "<title>"@ + t + "</title>"@),
        holds_text(a + t + b + u + c + s + d, address + u + "\""@),
        holds_text(a + t + b + u + c + s + d, "<script src=\""@ + s + "\"></script>"@),
{
    let p = a + t + b + u + c + s + d;
    let none = Seq::<char>::empty();
    lemma_slot(none, a, t, b, u + c + s + d, "<title>"@, "</title>"@);
    assert(none + a + t + b + (u + c + s + d) =~= p);
    lemma_slot(a + t, b, u, c, s + d, address, "\""@);
    assert(a + t + b + u + c + (s + d) =~= p);
    lemma_slot(a + t + b + u, c, s, d, none, "<script src=\""@, "\"></script>"@);
    assert(a + t + b + u + c + s + d + none =~= p);
}

proof fn lemma_four(t: Seq<char>, css: Seq<char>, s: Seq<char>, u: Seq<char>)
    ensures
        ({
            let p = docs::PAGE_OPENING@ + t + docs::SWAGGER_STYLE@ + css + docs::SWAGGER_BODY@ + s
                + docs::SWAGGER_URL@ + u + docs::SWAGGER_CLOSING@;
            &&& holds_text(p, "<title>"@ + t + "</title>"@)
            &&& holds_text(p, "<link rel=\"stylesheet\" href=\""@ + css + "\""@)
            &&& holds_text(p, "<script src=\""@ + s + "\"></script>"@)
            &&& holds_text(p, "url: \""@ + u + "\""@)
        }),
{
    lemma_opening();
    lemma_swagger();
    lemma_nine(
        docs::PAGE_OPENING@,
        t,
        docs::SWAGGER_STYLE@,
        css,
        docs::SWAGGER_BODY@,
        s,
        docs::SWAGGER_URL@,
        u,
        docs::SWAGGER_CLOSING@,
    );
}

proof fn lemma_nine(
    a: Seq<char>,
    t: Seq<char>,
    b: Seq<char>,
    css: Seq<char>,
    c: Seq<char>,
    s: Seq<char>,
    d: Seq<char>,
    u: Seq<char>,
    e: Seq<char>,
)
    requires
        a == cut_end(a, "<title>"@) + "<title>"@,
        b == "</title>"@ + cut_start(b, "</title>"@),
        b == cut_end(b, "<link rel=\"stylesheet\" href=\""@)
            + "<link rel=\"stylesheet\" href=\""@,
        c == "\""@ + cut_start(c, "\""@),
        c == cut_end(c, "<script src=\""@) + "<script src=\""@,
        d == "\"></script>"@ + cut_start(d, "\"></script>"@),
        d == cut_end(d, "url: \""@) + "url: \""@,
        e == "\""@ + cut_start(e, "\""@),
    ensures
        ({
            let p = a + t + b + css + c + s + d + u + e;
            &&& holds_text(p, "<title>"@ + t + "</title>"@)
            &&& holds_text(p, "<link rel=\"stylesheet\" href=\""@ + css + "\""@)
            &&& holds_text(p, "<script src=\""@ + s + "\"></script>"@)
            &&& holds_text(p, "url: \""@ + u + "\""@)
        }),
{
    let p = a + t + b + css + c + s + d + u + e;
    let none = Seq::<char>::empty();
    lemma_slot(none, a, t, b, css + c + s + d + u + e, "<title>"@, "</title>"@);
    assert(none + a + t + b + (css + c + s + d + u + e) =~= p);
    lemma_slot(
        a + t,
        b,
        css,
        c,
        s + d + u + e,
        "<link rel=\"stylesheet\" href=\""@,
        "\""@,
    );
    assert(a + t + b + css + c + (s + d + u + e) =~= p);
    lemma_slot(a + t + b + css, c, s, d, u + e, "<script src=\""@, "\"></script>"@);
    assert(a + t + b + css + c + s + d + (u + e) =~= p);
    lemma_slot(a + t + b + css + c + s, d, u, e, none, "url: \""@, "\""@);
    assert(p + none =~= p);
}

/// A text without what it ends in.
spec fn cut_end(s: Seq<char>, end: Seq<char>) -> Seq<char> {
    s.take(s.len() - end.len())
}

/// A text without what it starts with.
spec fn cut_start(s: Seq<char>, start: Seq<char>) -> Seq<char> {
    s.skip(start.len() as int)
}

proof fn lemma_opening()
    ensures
        docs::PAGE_OPENING@ == cut_end(docs::PAGE_OPENING@, "<title>"@) + "<title>"@,
{
    reveal_strlit(
        "<!doctype html>\n<html>\n  <head>\n    <meta charset=\"utf-8\" />\n    <meta name=\"viewport\" content=\"width=device-width, initial-scale=1\" />\n    <title>",
    );
    reveal_strlit("<title>");
    assert(docs::PAGE_OPENING@ =~= cut_end(docs::PAGE_OPENING@, "<title>"@) + "<title>"@);
}

proof fn lemma_scalar()
    ensures
        docs::SCALAR_BODY@ == "</title>"@ + cut_start(docs::SCALAR_BODY@, "</title>"@),
        docs::SCALAR_BODY@ == cut_end(docs::SCALAR_BODY@, "data-url=\""@) + "data-url=\""@,
        docs::SCRIPT@ == "\""@ + cut_start(docs::SCRIPT@, "\""@),
        docs::SCRIPT@ == cut_end(docs::SCRIPT@, "<script src=\""@) + "<script src=\""@,
{
    reveal_strlit(
        "</title>\n  </head>\n  <body>\n    <script id=\"api-reference\" data-url=\"",
    );
    reveal_strlit("</title>");
    reveal_strlit("data-url=\"");
    reveal_strlit("\"></script>\n    <script src=\"");
    reveal_strlit("\"");
    reveal_strlit("<script src=\"");
    assert(docs::SCALAR_BODY@ =~= "</title>"@ + cut_start(docs::SCALAR_BODY@, "</title>"@));
    assert(docs::SCALAR_BODY@ =~= cut_end(docs::SCALAR_BODY@, "data-url=\""@) + "data-url=\""@);
    assert(docs::SCRIPT@ =~= "\""@ + cut_start(docs::SCRIPT@, "\""@));
    assert(docs::SCRIPT@ =~= cut_end(docs::SCRIPT@, "<script src=\""@) + "<script src=\""@);
}

proof fn lemma_closing()
    ensures
        docs::PAGE_CLOSING@ == "\"></script>"@ + cut_start(docs::PAGE_CLOSING@, "\"></script>"@),
{
    reveal_strlit("\"></script>\n  </body>\n</html>");
    reveal_strlit("\"></script>");
    assert(docs::PAGE_CLOSING@ =~= "\"></script>"@ + cut_start(docs::PAGE_CLOSING@, "\"></script>"@));
}

proof fn lemma_swagger()
    ensures
        docs::SWAGGER_STYLE@ == "</title>"@ + cut_start(docs::SWAGGER_STYLE@, "</title>"@),
        docs::SWAGGER_STYLE@ == cut_end(docs::SWAGGER_STYLE@, "<link rel=\"stylesheet\" href=\""@) + "<link rel=\"stylesheet\" href=\""@,
        docs::SWAGGER_BODY@ == "\""@ + cut_start(docs::SWAGGER_BODY@, "\""@),
        docs::SWAGGER_BODY@ == cut_end(docs::SWAGGER_BODY@, "<script src=\""@) + "<script src=\""@,
        docs::SWAGGER_URL@ == "\"></script>"@ + cut_start(docs::SWAGGER_URL@, "\"></script>"@),
        docs::SWAGGER_URL@ == cut_end(docs::SWAGGER_URL@, "url: \""@) + "url: \""@,
        docs::SWAGGER_CLOSING@ == "\""@ + cut_start(docs::SWAGGER_CLOSING@, "\""@),
{
    reveal_strlit("</title>\n    <link rel=\"stylesheet\" href=\"");
    reveal_strlit("</title>");
    reveal_strlit("<link rel=\"stylesheet\" href=\"");
    reveal_strlit(
        "\" />\n  </head>\n  <body>\n    <div id=\"swagger-ui\"></div>\n    <script src=\"",
    );
    reveal_strlit("\"");
    reveal_strlit("<script src=\"");
    reveal_strlit(
        "\"></script>\n    <script>\n      window.ui = SwaggerUIBundle({\n        url: \"",
    );
    reveal_strlit("\"></script>");
    reveal_strlit("url: \"");
    reveal_strlit(
        "\",\n        dom_id: \"#swagger-ui\",\n        deepLinking: true\n      });\n    </script>\n  </body>\n</html>",
    );
    assert(docs::SWAGGER_STYLE@ =~= "</title>"@ + cut_start(docs::SWAGGER_STYLE@, "</title>"@));
    assert(docs::SWAGGER_STYLE@ =~= cut_end(docs::SWAGGER_STYLE@, "<link rel=\"stylesheet\" href=\""@) + "<link rel=\"stylesheet\" href=\""@);
    assert(docs::SWAGGER_BODY@ =~= "\""@ + cut_start(docs::SWAGGER_BODY@, "\""@));
    assert(docs::SWAGGER_BODY@ =~= cut_end(docs::SWAGGER_BODY@, "<script src=\""@) + "<script src=\""@);
    assert(docs::SWAGGER_URL@ =~= "\"></script>"@ + cut_start(docs::SWAGGER_URL@, "\"></script>"@));
    assert(docs::SWAGGER_URL@ =~= cut_end(docs::SWAGGER_URL@, "url: \""@) + "url: \""@);
    assert(docs::SWAGGER_CLOSING@ =~= "\""@ + cut_start(docs::SWAGGER_CLOSING@, "\""@));
}

proof fn lemma_redoc()
    ensures
        docs::REDOC_BODY@ == "</title>"@ + cut_start(docs::REDOC_BODY@, "</title>"@),
        docs::REDOC_BODY@ == cut_end(docs::REDOC_BODY@, "spec-url=\""@) + "spec-url=\""@,
        docs::REDOC_SCRIPT@ == "\""@ + cut_start(docs::REDOC_SCRIPT@, "\""@),
        docs::REDOC_SCRIPT@ == cut_end(docs::REDOC_SCRIPT@, "<script src=\""@) + "<script src=\""@,
{
    reveal_strlit(
        "</title>\n    <style>body { margin: 0; padding: 0; }</style>\n  </head>\n  <body>\n    <redoc spec-url=\"",
    );
    reveal_strlit("</title>");
    reveal_strlit("spec-url=\"");
    reveal_strlit("\"></redoc>\n    <script src=\"");
    reveal_strlit("\"");
    reveal_strlit("<script src=\"");
    assert(docs::REDOC_BODY@ =~= "</title>"@ + cut_start(docs::REDOC_BODY@, "</title>"@));
    assert(docs::REDOC_BODY@ =~= cut_end(docs::REDOC_BODY@, "spec-url=\""@) + "spec-url=\""@);
    assert(docs::REDOC_SCRIPT@ =~= "\""@ + cut_start(docs::REDOC_SCRIPT@, "\""@));
    assert(docs::REDOC_SCRIPT@ =~= cut_end(docs::REDOC_SCRIPT@, "<script src=\""@) + "<script src=\""@);
}

/// Each renderer has a place of its own, and the standard set-up serves the
/// document and two of them.
pub proof fn renderers_have_their_places()
    ensures
        Renderer::Scalar.home() == "/docs"@,
        Renderer::SwaggerUi.home() == "/swagger"@,
        Renderer::Redoc.home() == "/redoc"@,
        DocsModel::standard().openapi_path == "/openapi.json"@,
        DocsModel::standard().uis == seq![
            ("/docs"@, Renderer::Scalar),
            ("/redoc"@, Renderer::Redoc),
        ],
        DocsModel::standard().title is None,
{
}

/// The document is served where it is said to be, and every page, at its own
/// place, is told that place. A title of the docs' own comes before that of the
/// document.
pub proof fn pages_are_told_where_the_document_is(
    d: DocsModel,
    document_title: Seq<char>,
    document: Seq<u8>,
    i: int,
)
    requires
        0 <= i < d.uis.len(),
    ensures
        d.routes(document_title, document).len() == 1 + d.uis.len(),
        d.routes(document_title, document)[0].path == d.openapi_path,
        d.routes(document_title, document)[0].page == PageModel::Document(document),
        d.routes(document_title, document)[i + 1].path == d.uis[i].0,
        d.routes(document_title, document)[i + 1].page == PageModel::Html(
            docs::page(
                d.uis[i].1,
                if d.title is Some {
                    d.title->0
                } else {
                    document_title
                },
                d.openapi_path,
                d.asset_base,
            ),
        ),
{
}

/// The document is served as JSON that is to be asked for again, a page as HTML.
pub proof fn pages_are_served_as_what_they_are<S>(document: Seq<u8>, page: Seq<char>)
    ensures
        PageModel::Document(document).reply::<S>().status == 200,
        payload(PageModel::Document(document).reply::<S>().body) == Some(document),
        sent(PageModel::Document(document).reply::<S>(), "content-type"@) == Some(
            "application/json"@,
        ),
        sent(PageModel::Document(document).reply::<S>(), "cache-control"@) == Some("no-cache"@),
        PageModel::Html(page).reply::<S>().status == 200,
        payload(PageModel::Html(page).reply::<S>().body) == Some(encode_utf8(page)),
        sent(PageModel::Html(page).reply::<S>(), "content-type"@) == Some(
            "text/html; charset=utf-8"@,
        ),
{
    response::lemma_known_names();
    reveal_strlit("application/json");
    reveal_strlit("text/html; charset=utf-8");
    reveal_strlit("no-cache");
    reveal_strlit("content-type");
    reveal_strlit("cache-control");
    assert("content-type"@.len() == 12);
    assert("cache-control"@.len() == 13);
    headers::lemma_visible("application/json"@);
    headers::lemma_visible("text/html; charset=utf-8"@);
    headers::lemma_visible("no-cache"@);
    let none = headers::no_fields();
    let typed = headers::set(none, "content-type"@, "application/json"@);
    headers::a_field_reads_back(none, "content-type"@, "application/json"@, "content-type"@);
    headers::a_field_reads_back(
        none,
        "content-type"@,
        "text/html; charset=utf-8"@,
        "content-type"@,
    );
    headers::a_field_reads_back(typed, "cache-control"@, "no-cache"@, "content-type"@);
    headers::a_field_reads_back(typed, "cache-control"@, "no-cache"@, "cache-control"@);
    assert(document.len() == 0 ==> document =~= Seq::empty());
    let bytes = encode_utf8(page);
    assert(bytes.len() == 0 ==> bytes =~= Seq::empty());
}

} // verus!
