//! A schema-less JSON document store core: the codec between JSON values and
//! stored document values, identifier resolution, per-collection and global
//! store operations, the write gate and the collection-then-global resolver.

pub mod bson;
pub mod codec;
pub mod engine;
pub mod error;
pub mod gate;
pub mod global;
pub mod identifier;
pub mod json;
pub mod legacy;
mod seqs;
pub mod repository;
pub mod resolver;
pub mod response;
pub mod store;
pub mod text;
