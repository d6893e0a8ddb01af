//! What is said of a call whose arguments do not fit.

use std::sync::Arc;
use vstd::prelude::*;

use crate::db;
use crate::db::{DbIndex, DbTy};
use crate::diagnostic::{args, table_fields};
use crate::diagnostic::args::{
    ArgumentsTy, CallArguments, DiagnosticArg, check_param_type_mismatch, is_whole_number,
};
use crate::diagnostic::table_fields::{
    FieldMismatch, LiteralTy, MismatchTy, OutcomeTy, TableAssignmentOutcome, TableLiteral,
    check_table_type_mismatch,
};
use crate::type_check::{assignable, error_chain};
use crate::type_check::assignable::{AssignabilityResult, check_assignable};
use crate::type_check::error_chain::{ErrorChain, MessageTy};
use crate::type_check::relation::RelationFailure;
use crate::types::{FunctionTy, LuaFunctionType, LuaType, Ty};

verus! {

/// What is to be said of the arguments of a call.
#[derive(Debug)]
pub enum CallDiagnostic {
    Nothing,
    /// An argument that is written as a table, and its fields that do not fit.
    Fields { arg: DiagnosticArg, found: Vec<FieldMismatch> },
    /// An argument that fits no signature, what was wanted, and the reason.
    Argument { arg: DiagnosticArg, param_type: LuaType, chain: Option<ErrorChain> },
}

pub enum CallDiagnosticTy {
    Nothing,
    Fields { arg: (Ty, Option<usize>), found: Seq<MismatchTy> },
    Argument { arg: (Ty, Option<usize>), param: Ty, chain: Seq<MessageTy> },
}

impl View for CallDiagnostic {
    type V = CallDiagnosticTy;

    open spec fn view(&self) -> CallDiagnosticTy {
        match self {
            CallDiagnostic::Nothing => CallDiagnosticTy::Nothing,
            CallDiagnostic::Fields { arg, found } => CallDiagnosticTy::Fields {
                arg: args::arg_ty(*arg),
                found: table_fields::mismatch_tys(found@),
            },
            CallDiagnostic::Argument { arg, param_type, chain } => CallDiagnosticTy::Argument {
                arg: args::arg_ty(*arg),
                param: param_type@,
                chain: error_chain::opt_chain(*chain),
            },
        }
    }
}

pub open spec fn opt_literals(s: Seq<Option<TableLiteral>>) -> Seq<Option<LiteralTy>> {
    Seq::new(
        s.len(),
        |i: int|
            match s[i] {
                Some(table) => Some(table_fields::literal_ty(table)),
                None => None,
            },
    )
}

/// The table that an argument is written as.
pub open spec fn literal_at(literals: Seq<Option<LiteralTy>>, at: Option<usize>) -> Option<
    LiteralTy,
> {
    match at {
        Some(i) => if i < literals.len() {
            literals[i as int]
        } else {
            None
        },
        None => None,
    }
}

/// A whole number may stand for an integer, whatever its notation.
pub open spec fn is_whole_for_integer(t: Ty, param: Ty) -> bool {
    match (param, t) {
        (Ty::Integer, Ty::FloatConst(value)) => args::is_whole_bits(value),
        _ => false,
    }
}

/// The reason why a type does not fit, where it is known not to.
pub open spec fn reason_for(db: DbTy, source: Ty, target: Ty) -> Seq<MessageTy> {
    let rel = assignable::compared(db, assignable::nothing_kept(), source, target, true);
    if rel.res == Err::<(), RelationFailure>(RelationFailure::Unrelated) {
        rel.st.chain
    } else {
        Seq::empty()
    }
}

pub open spec fn argument_diagnostic(
    db: DbTy,
    arg: (Ty, Option<usize>),
    param: Ty,
) -> CallDiagnosticTy {
    if is_whole_for_integer(arg.0, param) {
        CallDiagnosticTy::Nothing
    } else {
        CallDiagnosticTy::Argument { arg, param, chain: reason_for(db, arg.0, param) }
    }
}

/// Of the first argument that fits no signature, a written table is compared field by field; nothing
/// more is said of it where that settles the matter.
pub open spec fn call_diagnostic(
    db: DbTy,
    call: ArgumentsTy,
    candidates: Seq<FunctionTy>,
    literals: Seq<Option<LiteralTy>>,
) -> CallDiagnosticTy {
    match args::first_misfit(db, call, candidates, 0) {
        None => CallDiagnosticTy::Nothing,
        Some((arg, param)) => match literal_at(literals, arg.1) {
            Some(table) => match table_fields::table_outcome(db, table, arg.0, param) {
                OutcomeTy::Assignable => CallDiagnosticTy::Nothing,
                OutcomeTy::FieldMismatch(found) => CallDiagnosticTy::Fields { arg, found },
                OutcomeTy::Fallback => argument_diagnostic(db, arg, param),
            },
            None => argument_diagnostic(db, arg, param),
        },
    }
}

fn report_argument(db: &DbIndex, arg: DiagnosticArg, param_type: LuaType) -> (r: CallDiagnostic)
    ensures
        r@ == argument_diagnostic(db@, args::arg_ty(arg), param_type@),
{
    if let (LuaType::Integer, LuaType::FloatConst(value)) = (&param_type, &arg.typ) {
        if is_whole_number(*value) {
            return CallDiagnostic::Nothing;
        }
    }
    let chain = match check_assignable(db, &arg.typ, &param_type, None) {
        AssignabilityResult::NotAssignable(chain) => chain,
        _ => None,
    };
    CallDiagnostic::Argument { arg, param_type, chain }
}

/// What is to be said of the arguments of a call, given the tables that arguments are written as.
pub fn check_call_arguments(
    db: &DbIndex,
    call: &CallArguments,
    candidates: Vec<Arc<LuaFunctionType>>,
    literals: &Vec<Option<TableLiteral>>,
) -> (r: CallDiagnostic)
    ensures
        r@ == call_diagnostic(db@, call@, db::function_tys(candidates@), opt_literals(literals@)),
{
    let (arg, param_type) = match check_param_type_mismatch(db, call, candidates) {
        Some(found) => found,
        None => {
            return CallDiagnostic::Nothing;
        },
    };
    if let Some(i) = arg.expr_index {
        if i < literals.len() {
            assert(opt_literals(literals@)[i as int] == (match literals@[i as int] {
                Some(table) => Some(table_fields::literal_ty(table)),
                None => None,
            }));
            if let Some(table) = &literals[i] {
                match check_table_type_mismatch(db, table, &arg.typ, &param_type) {
                    TableAssignmentOutcome::Assignable => {
                        return CallDiagnostic::Nothing;
                    },
                    TableAssignmentOutcome::FieldMismatch(found) => {
                        return CallDiagnostic::Fields { arg, found };
                    },
                    TableAssignmentOutcome::Fallback => {},
                }
            }
        }
    }
    report_argument(db, arg, param_type)
}

/// A call is reported only where an argument fits no signature.
pub proof fn fitting_call_is_not_reported(
    db: DbTy,
    call: ArgumentsTy,
    candidates: Seq<FunctionTy>,
    literals: Seq<Option<LiteralTy>>,
)
    requires
        args::first_misfit(db, call, candidates, 0) is None,
    ensures
        call_diagnostic(db, call, candidates, literals) is Nothing,
{
}

} // verus!
