//! What the derive and route attributes mean.
//!
//! A declaration is handed over as plain values: its attributes as lists of
//! keys and literals, its fields by name. From those this module computes the
//! schema, the checks and the operation the declaration stands for.

pub mod attr;
pub mod decl;
pub mod schema;
pub mod variants;
pub mod checks;
pub mod input;
pub mod route;
