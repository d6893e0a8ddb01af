//! What the operations on types promise their callers, whatever way they go.

pub mod assigned;
pub mod classes;
pub mod conditions;
pub mod equal;
pub mod expressions;
pub mod fitting;
pub mod indexing;
pub mod instances;
pub mod joining;
pub mod keyed;
pub mod lists;
pub mod members;
pub mod operators;
pub mod overloads;
pub mod questions;
pub mod reports;
pub mod shapes;
pub mod stand_ins;
