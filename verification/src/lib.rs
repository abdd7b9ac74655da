//! An HTTP request composer: a form state holding a method, URL, query
//! parameters, headers and a body draft, an event-driven state machine that
//! applies edits and submissions to it, and a builder that turns the form
//! into an immutable request descriptor for a transport layer to dispatch.

pub mod json;
pub mod request;
pub mod store;
pub mod suggest;
pub mod text;
