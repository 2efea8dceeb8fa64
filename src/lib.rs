//! A request-catching service's core: a store of key/value pairs split into
//! named contexts, with a content-aware read path, and the dispatch and result
//! handling of client-submitted scripts.

pub mod kv_store;
pub mod negotiate;
pub mod runtime;
pub mod script;
pub mod config;
