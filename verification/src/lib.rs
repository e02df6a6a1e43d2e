//! A registry of courses and their modules, kept in a key-value store that
//! mirrors the persistent storage of the course contract.
pub mod utils;
pub mod table;
pub mod schema;
pub mod storage;
pub mod errors;
pub mod functions;
pub mod laws;
