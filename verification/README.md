# velo

The core of an async web framework that derives its OpenAPI document from handler
signatures, written in Verus.

`src/` holds everything that is decided or computed: routing, extraction,
validation, error documents, schemas and the document built from them, what the
`Schema` derive and the method attributes say of a declaration, middleware
decisions, the life of the server, and a small example service. Every function
states what it returns, and Verus checks it.

`app/` is ordinary Rust around that core: sockets and tasks, streams and timers,
serde, and the reading and writing of macro tokens. It performs what the core
decides and hands back what came of it.

| Module | What it decides |
|---|---|
| `router` | which template matches a path, what conflicts, which methods are allowed |
| `app` | how routes are named, grouped and documented; dispatch; the steps from a request to its handler; the server's life |
| `openapi` | schemas, the registry of components, the document and its JSON |
| `derive` | what a declaration with its attributes documents and enforces |
| `validate` | the rules, and pointers to the fields that break them |
| `extract` | query strings, forms, multipart bodies, JSON bodies, cookies, tokens |
| `error`, `response`, `outputs` | problem details, responses, and their documentation |
| `middleware` | request ids, CORS, timeouts, panics, logging |
| `json`, `span` | JSON values and how they are written; spans of time |
| `sse`, `docs`, `state`, `testing`, `example` | events, documentation pages, state, test requests, an example |

## Trust

Where the core leans on another crate, the call stands behind a small function
marked `#[verifier::external_body]` whose contract says what is relied on: header
maps, header names and values, methods and URIs (`http`), insertion-ordered keys
(`indexmap`), percent-decoding (`percent-encoding`), patterns (`regex`), the
paths of custom checks (`syn`), JSON strings and raw JSON (`serde_json`), and
letters, UTF-8, `Debug` forms and the walk of a `BTreeMap` with texts for keys
(`std`).
