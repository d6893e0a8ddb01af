//! When a value of one type may stand where another type is wanted.

pub mod assignable;
pub mod error_chain;
pub mod branches;
pub mod callable;
pub mod callable_types;
pub mod entries;
pub mod intersection;
pub mod normalize;
pub mod records;
pub mod relation;
pub mod simple;
pub mod structured;
pub mod union;
