//! The application: routes, state, documentation, and server settings.

pub mod document;
pub mod group;
pub mod invocation;
pub mod lifecycle;
pub mod naming;
pub mod service;
