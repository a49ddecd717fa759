//! A graph-data storage core: it reads statements ("triples") out of
//! documents in four serialization formats, resolves externally-described
//! terms through a prefix map, interns repeated namespace texts under
//! stable integer keys, enforces configurable resource quotas while a
//! batch runs, and persists each statement under a content-addressed key,
//! committing namespace and statistics changes in one final pass.

pub mod codec;
pub mod cursor;
pub mod engine;
pub mod errors;
pub mod hashing;
pub mod mapper;
pub mod msg;
pub mod rdf;
pub mod state;
pub mod tables;
