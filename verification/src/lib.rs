//! Types of the Lua language and the relations between them.

pub mod db;
pub mod diagnostic;
pub mod flow;
pub mod generic;
pub mod infer;
pub mod laws;
pub mod member;
pub mod overload;
pub mod tables;
pub mod type_check;
pub mod types;
