//! Which signature a call goes to.

pub mod choice;
pub mod params;
pub mod resolve;
