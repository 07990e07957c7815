//! A versioned store of notes that form a graph.
pub mod errors;
pub mod fresh;
pub mod idset;
pub mod note;
pub mod notemetadata;
pub mod notestore;
pub mod notetype;
pub mod search;
