//! Verified core of an embedded, schema-first property graph database.

pub mod answer_laws;
pub mod arrow;
pub mod catalog;
pub mod catalog_laws;
pub mod cli;
pub mod embedding_local;
pub mod error;
pub mod json;
pub mod json_laws;
pub mod names;
pub mod path;
pub mod plan;
pub mod schema;
pub mod sort;
pub mod store;
pub mod string_laws;
pub mod strings;
pub mod text;
pub mod types;
