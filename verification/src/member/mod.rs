//! The members that values of a type have.

pub mod collect;
pub mod inherit;
pub mod raw;
