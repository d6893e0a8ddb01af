//! The types of index expressions and of choices between two values.

use vstd::prelude::*;

use crate::db;
use crate::db::{DbIndex, TypeOps};
use crate::infer::operator;
use crate::infer::lookup::MemberLookupQuery;
use crate::infer::operator::infer_member;
use crate::member::raw;
use crate::member::raw::InferFailReason;
use crate::types::{LuaType, Ty, predicates};

verus! {

/// The type of an index expression: what the flow of control leaves of the type of the member, with
/// nil added where the index is a safe one and the prefix may be nil. Where the flow of control says
/// nothing without a reason, the member keeps its type.
pub open spec fn indexed(
    member: Ty,
    narrowed: Option<Result<Ty, InferFailReason>>,
    is_safe: bool,
    prefix: Ty,
) -> Result<Ty, InferFailReason> {
    let result = match narrowed {
        None => Ok(member),
        Some(Err(InferFailReason::Unsupported)) => Ok(member),
        Some(answer) => answer,
    };
    match result {
        Ok(t) => Ok(
            if is_safe && predicates::ty_is_optional(prefix) {
                db::union_ty(t, Ty::Nil)
            } else {
                t
            },
        ),
        Err(reason) => Err(reason),
    }
}

pub open spec fn opt_answer(r: Option<Result<LuaType, InferFailReason>>) -> Option<
    Result<Ty, InferFailReason>,
> {
    match r {
        Some(r) => Some(raw::res_ty(r)),
        None => None,
    }
}

/// The type of an index expression, given the type of the member, what the flow of control leaves of
/// it where that is asked for, and the type of the prefix.
pub fn infer_index_result(
    member: LuaType,
    narrowed: Option<Result<LuaType, InferFailReason>>,
    is_safe: bool,
    prefix: &LuaType,
) -> (r: Result<LuaType, InferFailReason>)
    ensures
        raw::res_ty(r) == indexed(member@, opt_answer(narrowed), is_safe, prefix@),
{
    let result = match narrowed {
        None => member,
        Some(Err(InferFailReason::Unsupported)) => member,
        Some(Ok(t)) => t,
        Some(Err(reason)) => {
            return Err(reason);
        },
    };
    if is_safe && prefix.is_optional() {
        return Ok(TypeOps::union(&result, &LuaType::Nil));
    }
    Ok(result)
}

/// The type of an index expression: the member of the prefix, then what the flow of control leaves of
/// it. The member is looked up first, and its failure is that of the expression.
pub fn infer_index_expr(
    db: &DbIndex,
    prefix: &LuaType,
    lookup: &MemberLookupQuery,
    narrowed: Option<Result<LuaType, InferFailReason>>,
    is_safe: bool,
) -> (r: Result<LuaType, InferFailReason>)
    ensures
        raw::res_ty(r) == (match operator::member_or_index(db@, prefix@, lookup@) {
            Ok(member) => indexed(member, opt_answer(narrowed), is_safe, prefix@),
            Err(reason) => Err(reason),
        }),
{
    match infer_member(db, prefix, lookup) {
        Ok(member) => infer_index_result(member, narrowed, is_safe, prefix),
        Err(reason) => Err(reason),
    }
}

/// The type of a choice between two values, either of which may be the result.
pub fn infer_ternary_expr(
    branches: Option<(Result<LuaType, InferFailReason>, Result<LuaType, InferFailReason>)>,
) -> (r: Result<LuaType, InferFailReason>)
    ensures
        raw::res_ty(r) == (match branches {
            Some((Ok(first), Ok(second))) => Ok(db::union_ty(first@, second@)),
            Some((Err(reason), _)) => Err(reason),
            Some((Ok(_), Err(reason))) => Err(reason),
            None => Err(InferFailReason::Unsupported),
        }),
{
    match branches {
        Some((Ok(first), Ok(second))) => Ok(TypeOps::union(&first, &second)),
        Some((Err(reason), _)) => Err(reason),
        Some((Ok(_), Err(reason))) => Err(reason),
        None => Err(InferFailReason::Unsupported),
    }
}

} // verus!
