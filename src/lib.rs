//! Persistent block, transaction and receipt storage for a chain node, with
//! the number/hash indices and the atomic block-ingestion path verified.

pub mod primitives;
pub mod table;
pub mod model;
pub mod db;
pub mod state;
pub mod laws;
