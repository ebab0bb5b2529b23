//! Storage: manifests, logs, snapshots, and the decisions of a commit.

pub mod batch;
pub mod commit_laws;
pub mod database;
pub mod embed;
pub mod embed_laws;
pub mod graph_log;
pub mod graph_types;
pub mod index_laws;
pub mod indexing;
pub mod lineage;
pub mod location;
pub mod log_laws;
pub mod manifest;
pub mod media;
pub mod media_laws;
pub mod metadata;
pub mod persist;
pub mod place_laws;
pub mod read_laws;
pub mod runtime;
pub mod schema_ir;
pub mod search;
pub mod snapshot;
pub mod storage_generation;
pub mod tables;
pub mod txlog;
pub mod uri;
pub mod vectors;
