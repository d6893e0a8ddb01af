//! Generic types: putting types in the place of templates, and the operators on types.

pub mod actualize;
pub mod conditional;
pub mod infer_match;
pub mod instantiate;
pub mod special;
pub mod substitutor;
