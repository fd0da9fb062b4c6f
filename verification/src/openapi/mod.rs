//! OpenAPI 3.1 document model and JSON Schema 2020-12 generation.

pub mod ordered;
pub mod schema;
pub mod schema_map;
pub mod gen;
pub mod impls;
pub mod spec;
pub mod write;
pub mod foreign;
