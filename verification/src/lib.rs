//! Ranking engine and query vocabulary for a bulletin-board post search
//! service.
//!
//! The heart of the crate is the ranking engine: given a set of optional
//! filters and a ranking policy it produces a ranked list of posting
//! identities with per-identity aggregates. Around it stand the request
//! adapter (dates, defaults), the SQL builder that the storage-backed
//! deployment feeds to its database, the response adapter, and the
//! free-form query parser used by the chat front-end.

pub mod botquery;
pub mod chat;
pub mod error;
pub mod engine;
pub mod laws;
pub mod like;
pub mod model;
pub mod query;
pub mod render;
pub mod request;
pub mod response;
