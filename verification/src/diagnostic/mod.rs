//! What is wrong with calls and tables.

pub mod args;
pub mod call_check;
pub mod table_fields;
pub mod table_target;
