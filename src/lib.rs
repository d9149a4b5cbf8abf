//! Statement-retention marking for dead-code elimination.
//!
//! The marker walks a statement tree bottom-up and records, in a mark store
//! keyed by each node's identity tag, which statements must be kept because
//! they may have an observable effect. A later sweep drops the others.
pub mod ast;
pub mod laws;
pub mod marker;
pub mod store;
