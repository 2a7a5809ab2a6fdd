//! Field projection over untyped JSON documents, rendered as aligned text tables.
pub mod json;
pub mod path;
pub mod project;
pub mod table;
pub mod query;
pub mod config;
