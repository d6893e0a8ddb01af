//! Types that are compared by their structure.

pub mod array;
pub mod declared;
pub mod dispatch;
pub mod generic;
pub mod index;
pub mod member;
pub mod object_type;
pub mod table_const;
pub mod tuple;
