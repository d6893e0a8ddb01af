//! The type that a written table is expected to have.

use std::sync::Arc;
use vstd::prelude::*;

use crate::types;
use crate::db::{DbIndex, DbTy};
use crate::infer::{operator, table};
use crate::infer::lookup::{LookupTy, MemberLookupQuery};
use crate::infer::operator::infer_member;
use crate::infer::table::union_remove_non_table_type;
use crate::member::raw;
use crate::member::raw::InferFailReason;
use crate::overload::resolve;
use crate::types::{FunctionTy, InFiled, LuaFunctionType, LuaTupleStatus, LuaType, Ty, complex};

verus! {

/// What stands around a written table.
#[derive(Debug)]
pub enum TablePlace {
    /// An argument of a call: the function that is called, and which argument it is.
    Argument {
        function: Result<Arc<LuaFunctionType>, InferFailReason>,
        arg_index: Option<usize>,
        is_colon_call: bool,
    },
    Field(Box<FieldPlace>),
    /// The value of a declared variable: what is known of its type, or what has to be known first.
    Declared(Result<LuaType, InferFailReason>),
    /// The value of something else that is assigned to.
    Assigned(Result<LuaType, InferFailReason>),
    /// A returned value: what is known of the type that is returned, and the table itself.
    Returned { known: Option<LuaType>, range: InFiled },
    Other,
}

/// A field of a written table.
#[derive(Debug)]
pub struct FieldPlace {
    /// What is known of the type of the field, and whether it was written down.
    pub known: Option<(LuaType, bool)>,
    /// Whether the field is a value without a key.
    pub is_value_field: bool,
    /// The field, for those who wait until its type is known.
    pub member: u32,
    pub lookup: MemberLookupQuery,
    pub parent: TablePlace,
}

/// The parameter that an argument goes to, which is shifted by one where only the call or only the
/// function is written with a colon.
pub open spec fn argument_place(f: FunctionTy, arg_index: nat, is_colon_call: bool) -> nat {
    if !f.is_colon_define && is_colon_call {
        arg_index + 1
    } else if f.is_colon_define && !is_colon_call && arg_index > 0 {
        (arg_index - 1) as nat
    } else {
        arg_index
    }
}

/// The type that a table has as an argument: that of the parameter, or the part of a union that a
/// table may be of.
pub open spec fn expected_argument(db: DbTy, f: FunctionTy, place: nat) -> Result<
    Ty,
    InferFailReason,
> {
    if place < f.params.len() {
        Ok(
            match f.params[place as int].1 {
                Some(Ty::Union(union)) => table::table_part(db, complex::union_tys(*union)),
                Some(t) => t,
                None => Ty::Any,
            },
        )
    } else {
        Err(InferFailReason::Unsupported)
    }
}

/// A written type that says more than that a field is some table.
pub open spec fn is_telling(t: Ty) -> bool {
    match t {
        Ty::TableConst(_) => false,
        Ty::Tuple(tuple) => !(tuple.status == LuaTupleStatus::InferResolve && tuple.types.len() == 1
            && tuple.types[0] is Unknown),
        _ => true,
    }
}

/// The type that a table is expected to have as a field: a telling type that was written down, or what
/// the table around it says of its members.
pub open spec fn expected_field(db: DbTy, field: FieldPlace) -> Result<Ty, InferFailReason>
    decreases field, 1nat,
{
    let known = match field.known {
        Some((t, is_doc)) => Some((t@, is_doc)),
        None => None,
    };
    match known {
        Some((t, is_doc)) => if is_doc && is_telling(t) {
            Ok(t)
        } else {
            match expected_table(db, field.parent) {
                Ok(parent) => operator::member_or_index(db, parent, field.lookup@),
                Err(reason) => Err(reason),
            }
        },
        None => if field.is_value_field {
            match expected_table(db, field.parent) {
                Ok(parent) => known_member(db, parent, field.lookup@, None),
                Err(reason) => Err(reason),
            }
        } else {
            Err(InferFailReason::NeedResolve(field.member))
        },
    }
}

/// The type that a table is expected to have in its place.
pub open spec fn expected_table(db: DbTy, place: TablePlace) -> Result<Ty, InferFailReason>
    decreases place, 0nat,
{
    match place {
        TablePlace::Argument { function, arg_index, is_colon_call } => match (
            resolve::res_function(function),
            arg_index,
        ) {
            (Err(reason), _) => Err(reason),
            (Ok(_), None) => Err(InferFailReason::Unsupported),
            (Ok(f), Some(i)) => expected_argument(db, f, argument_place(f, i as nat, is_colon_call)),
        },
        TablePlace::Field(field) => expected_field(db, *field),
        TablePlace::Declared(known) => match raw::res_ty(known) {
            Ok(Ty::TableConst(_)) => Err(InferFailReason::Unsupported),
            other => other,
        },
        TablePlace::Assigned(known) => raw::res_ty(known),
        TablePlace::Returned { known, range } => match types::opt_ty(known) {
            Some(t) => Ok(t),
            None => Ok(Ty::TableConst(range)),
        },
        TablePlace::Other => Err(InferFailReason::Unsupported),
    }
}

/// A member of a type, or what is known of it otherwise where the type has none.
pub open spec fn known_member(
    db: DbTy,
    parent: Ty,
    lookup: LookupTy,
    known: Option<Ty>,
) -> Result<Ty, InferFailReason> {
    match operator::member_or_index(db, parent, lookup) {
        Err(InferFailReason::FieldNotFound) => match known {
            Some(t) => Ok(t),
            None => Err(InferFailReason::FieldNotFound),
        },
        other => other,
    }
}

/// The type that the value of a field is expected to have.
pub open spec fn expected_field_value(db: DbTy, field: FieldPlace) -> Result<Ty, InferFailReason> {
    match expected_table(db, field.parent) {
        Ok(parent) => known_member(
            db,
            parent,
            field.lookup@,
            match field.known {
                Some((t, _)) => Some(t@),
                None => None,
            },
        ),
        Err(reason) => Err(reason),
    }
}

fn infer_table_type_by_callee(
    db: &DbIndex,
    function: &LuaFunctionType,
    arg_index: usize,
    is_colon_call: bool,
) -> (r: Result<LuaType, InferFailReason>)
    ensures
        raw::res_ty(r) == expected_argument(
            db@,
            function@,
            argument_place(function@, arg_index as nat, is_colon_call),
        ),
{
    let params = function.get_params();
    let place = if !function.is_colon_define && is_colon_call {
        if arg_index >= params.len() {
            return Err(InferFailReason::Unsupported);
        }
        arg_index + 1
    } else if function.is_colon_define && !is_colon_call && arg_index > 0 {
        arg_index - 1
    } else {
        arg_index
    };
    if place >= params.len() {
        return Err(InferFailReason::Unsupported);
    }
    assert(function@.params[place as int].1 == types::opt_ty(params@[place as int].1));
    match &params[place].1 {
        Some(LuaType::Union(union)) => Ok(union_remove_non_table_type(db, union)),
        Some(t) => Ok(t.clone()),
        None => Ok(LuaType::Any),
    }
}

fn is_telling_type(t: &LuaType) -> (r: bool)
    ensures
        r == is_telling(t@),
{
    match t {
        LuaType::TableConst(_) => false,
        LuaType::Tuple(tuple) => {
            assert(tuple@.types == types::tys(tuple.types@));
            !(tuple.is_infer_resolve() && tuple.types.len() == 1 && tuple.types[0].is_unknown())
        },
        _ => true,
    }
}

fn infer_table_field_type_by_parent(db: &DbIndex, field: &FieldPlace) -> (r: Result<
    LuaType,
    InferFailReason,
>)
    ensures
        raw::res_ty(r) == expected_field(db@, *field),
    decreases field, 1nat,
{
    match &field.known {
        Some((t, is_doc)) => {
            if *is_doc && is_telling_type(t) {
                return Ok(t.clone());
            }
        },
        None => {
            if field.is_value_field {
                return infer_table_field_value_should_be(db, field);
            }
            return Err(InferFailReason::NeedResolve(field.member));
        },
    }
    match infer_table_should_be(db, &field.parent) {
        Ok(parent) => infer_member(db, &parent, &field.lookup),
        Err(reason) => Err(reason),
    }
}

/// The type that the value of a field is expected to have.
pub fn infer_table_field_value_should_be(db: &DbIndex, field: &FieldPlace) -> (r: Result<
    LuaType,
    InferFailReason,
>)
    ensures
        raw::res_ty(r) == expected_field_value(db@, *field),
    decreases field, 0nat,
{
    let parent = match infer_table_should_be(db, &field.parent) {
        Ok(parent) => parent,
        Err(reason) => {
            return Err(reason);
        },
    };
    match infer_member(db, &parent, &field.lookup) {
        Err(InferFailReason::FieldNotFound) => match &field.known {
            Some((t, _)) => Ok(t.clone()),
            None => Err(InferFailReason::FieldNotFound),
        },
        other => other,
    }
}

/// The type that a written table is expected to have in its place.
pub fn infer_table_should_be(db: &DbIndex, place: &TablePlace) -> (r: Result<
    LuaType,
    InferFailReason,
>)
    ensures
        raw::res_ty(r) == expected_table(db@, *place),
    decreases place, 0nat,
{
    match place {
        TablePlace::Argument { function, arg_index, is_colon_call } => match function {
            Ok(f) => match arg_index {
                Some(i) => infer_table_type_by_callee(db, f, *i, *is_colon_call),
                None => Err(InferFailReason::Unsupported),
            },
            Err(reason) => Err(*reason),
        },
        TablePlace::Field(field) => infer_table_field_type_by_parent(db, field),
        TablePlace::Declared(known) => match known {
            Ok(LuaType::TableConst(_)) => Err(InferFailReason::Unsupported),
            Ok(t) => Ok(t.clone()),
            Err(reason) => Err(*reason),
        },
        TablePlace::Assigned(known) => match known {
            Ok(t) => Ok(t.clone()),
            Err(reason) => Err(*reason),
        },
        TablePlace::Returned { known, range } => match known {
            Some(t) => Ok(t.clone()),
            None => Ok(LuaType::TableConst(*range)),
        },
        TablePlace::Other => Err(InferFailReason::Unsupported),
    }
}

/// A field whose type is written down has it, whatever table it stands in.
pub proof fn written_field_type_is_expected(db: DbTy, field: FieldPlace, t: LuaType)
    requires
        field.known == Some((t, true)),
        is_telling(t@),
    ensures
        expected_field(db, field) == Ok::<Ty, InferFailReason>(t@),
{
}

} // verus!
