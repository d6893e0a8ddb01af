//! Indexes that stay within an array.

use vstd::prelude::*;

use crate::types;
use crate::flow::query::VarRefId;
use crate::types::{LuaType, Ty};

verus! {

/// An expression, as far as it may be the length of a variable.
#[derive(Debug, Clone, Copy, PartialEq, Eq, Structural)]
pub enum BoundExpr {
    /// The length of an expression, with the variable or field that the expression is.
    Length(Option<VarRefId>),
    Other,
}

/// An expression by which an array is indexed.
#[derive(Debug)]
pub enum IndexVar {
    /// A name: the bounds and the step of the loop that declares it, and the type of the step.
    Name { bounds: Vec<BoundExpr>, step_type: Option<LuaType> },
    Unary(BoundExpr),
    Other,
}

/// Whether an expression is the length of a variable. Where it is no length, or one of the two is no
/// variable, nothing is known.
pub open spec fn is_length_of(expr: BoundExpr, prefix: Option<VarRefId>) -> Option<bool> {
    match (expr, prefix) {
        (BoundExpr::Length(Some(id)), Some(prefix)) => Some(id == prefix),
        _ => None,
    }
}

/// The bound that a loop variable never goes beyond: the second one, or the first one of a loop that
/// counts down. The direction of a loop is known where its step is a number other than zero.
pub open spec fn upper_bound(bounds: Seq<BoundExpr>, step: Option<Ty>) -> Option<BoundExpr> {
    if bounds.len() == 2 {
        Some(bounds[1])
    } else if bounds.len() == 3 {
        match step {
            Some(Ty::IntegerConst(n)) => if n > 0 {
                Some(bounds[1])
            } else if n < 0 {
                Some(bounds[0])
            } else {
                None
            },
            _ => None,
        }
    } else {
        None
    }
}

/// Whether an index stays within the array: it runs up to the length of the array or is its length.
pub open spec fn stays_in_range(index: IndexVar, prefix: Option<VarRefId>) -> Option<bool> {
    match index {
        IndexVar::Name { bounds, step_type } => match upper_bound(bounds@, types::opt_ty(step_type)) {
            Some(bound) => is_length_of(bound, prefix),
            None => None,
        },
        IndexVar::Unary(expr) => is_length_of(expr, prefix),
        IndexVar::Other => None,
    }
}

fn check_is_len(expr: BoundExpr, prefix: Option<VarRefId>) -> (r: Option<bool>)
    ensures
        r == is_length_of(expr, prefix),
{
    match (expr, prefix) {
        (BoundExpr::Length(Some(id)), Some(prefix)) => Some(id == prefix),
        _ => None,
    }
}

fn check_index_var_in_range(
    bounds: &Vec<BoundExpr>,
    step_type: &Option<LuaType>,
    prefix: Option<VarRefId>,
) -> (r: Option<bool>)
    ensures
        r == (match upper_bound(bounds@, types::opt_ty(*step_type)) {
            Some(bound) => is_length_of(bound, prefix),
            None => None,
        }),
{
    if bounds.len() == 2 {
        return check_is_len(bounds[1], prefix);
    }
    if bounds.len() == 3 {
        if let Some(LuaType::IntegerConst(step)) = step_type {
            if *step > 0 {
                return check_is_len(bounds[1], prefix);
            }
            if *step < 0 {
                return check_is_len(bounds[0], prefix);
            }
        }
    }
    None
}

/// Whether the index of an array element is known to stay within the array.
pub fn check_iter_var_range(index: &IndexVar, prefix: Option<VarRefId>) -> (r: Option<bool>)
    ensures
        r == stays_in_range(*index, prefix),
{
    match index {
        IndexVar::Name { bounds, step_type } => check_index_var_in_range(bounds, step_type, prefix),
        IndexVar::Unary(expr) => check_is_len(*expr, prefix),
        IndexVar::Other => None,
    }
}

/// An index is in the range of an array only if it is bound to the length of that very array.
pub proof fn range_is_of_one_array(index: IndexVar, prefix: VarRefId, other: VarRefId)
    requires
        stays_in_range(index, Some(prefix)) == Some(true),
        other != prefix,
    ensures
        stays_in_range(index, Some(other)) == Some(false),
{
}

} // verus!
