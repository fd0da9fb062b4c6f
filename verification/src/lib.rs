//! The verified core of an HTTP framework.

pub mod app;
pub mod body;
pub mod derive;
pub mod docs;
pub mod error;
pub mod example;
pub mod extract;
pub mod headers;
pub mod json;
pub mod laws;
pub mod middleware;
pub mod openapi;
pub mod operation;
pub mod outputs;
pub mod percent;
pub mod request;
pub mod response;
pub mod router;
pub mod span;
pub mod sse;
pub mod state;
pub mod status;
pub mod testing;
pub mod text;
pub mod utf8;
pub mod validate;
