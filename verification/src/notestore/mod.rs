//! Stores of notes: what a store holds and what its operations do to it.
pub mod in_memory;
pub mod laws;
pub mod model;
pub mod outcome;
pub mod preservation;
pub mod revise;
pub mod rules;
pub mod snapshot;
pub mod transaction;
