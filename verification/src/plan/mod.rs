//! Query plans: the columns of bindings, and the cache of compiled queries.

pub mod bindings;
pub mod cache;
