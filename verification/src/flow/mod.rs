//! The type of a variable at a place in the flow of control.

pub mod assign;
pub mod engine;
pub mod infer_cache;
pub mod query;
pub mod replay;
pub mod resume;
pub mod scheduler;
pub mod state;
pub mod tree;
pub mod walk;
