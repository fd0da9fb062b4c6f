//! What holds of whole operations: how what goes in relates to what comes out.

pub mod answers;
pub mod applications;
pub mod attributes;
pub mod conventions;
pub mod declarations;
pub mod documents;
pub mod formats;
pub mod forms;
pub mod naming;
pub mod pages;
pub mod payloads;
pub mod replies;
pub mod requests;
pub mod routing;
pub mod texts;
pub mod types;
pub mod uploads;
pub mod users;
pub mod wire;
