//! The types of expressions.

pub mod expected;
pub mod expr;
pub mod keys;
pub mod lookup;
pub mod methods;
pub mod operator;
pub mod or_rule;
pub mod range;
pub mod table;
