//! Checking the arguments of a call.

use std::sync::Arc;
use vstd::prelude::*;

use crate::{db, types};
use crate::db::{DbIndex, DbTy};
use crate::overload::params;
use crate::overload::params::get_func_param_type;
use crate::type_check::assignable;
use crate::type_check::assignable::is_surely_assignable;
use crate::types::{FunctionTy, LuaFloat, LuaFunctionType, LuaType, Ty, predicates};

verus! {

/// A number without a fraction, as its bits show.
pub open spec fn is_whole_bits(bits: u64) -> bool {
    let exponent = (bits >> 52u64) & 0x7ffu64;
    let mantissa = bits & 0xf_ffff_ffff_ffffu64;
    if exponent == 0 {
        mantissa == 0
    } else if exponent < 1023 {
        false
    } else if exponent == 0x7ff {
        false
    } else if exponent >= 1075 {
        true
    } else {
        (mantissa << ((exponent - 1011) as u64)) == 0
    }
}

pub fn is_whole_number(value: LuaFloat) -> (r: bool)
    ensures
        r == is_whole_bits(value.bits),
{
    let exponent: u64 = (value.bits >> 52u64) & 0x7ffu64;
    let mantissa: u64 = value.bits & 0xf_ffff_ffff_ffffu64;
    if exponent == 0 {
        mantissa == 0
    } else if exponent < 1023 {
        false
    } else if exponent == 0x7ff {
        false
    } else if exponent >= 1075 {
        true
    } else {
        (mantissa << (exponent - 1011)) == 0
    }
}

/// The arguments of a call: their types, that of the receiver, whether the call is written with a
/// colon, and whether the place of the colon is known.
#[derive(Debug)]
pub struct CallArguments {
    pub arg_types: Vec<LuaType>,
    pub self_type: Option<LuaType>,
    pub is_colon_call: bool,
    pub has_colon_range: bool,
}

pub struct ArgumentsTy {
    pub args: Seq<Ty>,
    pub receiver: Option<Ty>,
    pub colon_call: bool,
    pub has_colon_range: bool,
}

impl View for CallArguments {
    type V = ArgumentsTy;

    open spec fn view(&self) -> ArgumentsTy {
        ArgumentsTy {
            args: types::tys(self.arg_types@),
            receiver: types::opt_ty(self.self_type),
            colon_call: self.is_colon_call,
            has_colon_range: self.has_colon_range,
        }
    }
}

/// An argument that is compared, with its place among the written ones. The receiver has none.
#[derive(Debug)]
pub struct DiagnosticArg {
    pub typ: LuaType,
    pub expr_index: Option<usize>,
}

pub open spec fn arg_ty(arg: DiagnosticArg) -> (Ty, Option<usize>) {
    (arg.typ@, arg.expr_index)
}

pub open spec fn opt_arg(arg: Option<DiagnosticArg>) -> Option<(Ty, Option<usize>)> {
    match arg {
        Some(arg) => Some(arg_ty(arg)),
        None => None,
    }
}

/// The argument at place `i` of a signature. The receiver comes first where the signature is no
/// method.
pub open spec fn compared_arg(call: ArgumentsTy, f: FunctionTy, i: nat) -> Option<
    (Ty, Option<usize>),
> {
    if call.colon_call && !f.is_colon_define {
        if i == 0 {
            match call.receiver {
                Some(t) => if call.has_colon_range {
                    Some((t, None))
                } else {
                    None
                },
                None => None,
            }
        } else if i - 1 < call.args.len() {
            Some((call.args[i - 1], Some((i - 1) as usize)))
        } else {
            None
        }
    } else if i < call.args.len() {
        Some((call.args[i as int], Some(i as usize)))
    } else {
        None
    }
}

pub fn get_diagnostic_arg(call: &CallArguments, func: &LuaFunctionType, arg_index: usize) -> (r:
    Option<DiagnosticArg>)
    ensures
        opt_arg(r) == compared_arg(call@, func@, arg_index as nat),
{
    assert(call@.args.len() == call.arg_types@.len());
    let index = if call.is_colon_call && !func.is_colon_define {
        if arg_index == 0 {
            return match &call.self_type {
                Some(t) => if call.has_colon_range {
                    Some(DiagnosticArg { typ: t.clone(), expr_index: None })
                } else {
                    None
                },
                None => None,
            };
        }
        arg_index - 1
    } else {
        arg_index
    };
    if index < call.arg_types.len() {
        assert(call@.args[index as int] == call.arg_types@[index as int]@);
        Some(DiagnosticArg { typ: call.arg_types[index].clone(), expr_index: Some(index) })
    } else {
        None
    }
}

/// The parameter at place `i` of a call. A method that is called as a function has its receiver
/// first.
pub open spec fn wanted_param(call: ArgumentsTy, f: FunctionTy, i: nat) -> Option<Ty> {
    if !call.colon_call && f.is_colon_define {
        if i == 0 {
            match call.receiver {
                Some(t) => Some(t),
                None => Some(Ty::SelfInfer),
            }
        } else {
            params::param_type(f, (i - 1) as nat)
        }
    } else {
        params::param_type(f, i)
    }
}

fn get_wanted_param(call: &CallArguments, func: &LuaFunctionType, i: usize) -> (r: Option<LuaType>)
    ensures
        types::opt_ty(r) == wanted_param(call@, func@, i as nat),
{
    if !call.is_colon_call && func.is_colon_define {
        if i == 0 {
            return match &call.self_type {
                Some(t) => Some(t.clone()),
                None => Some(LuaType::SelfInfer),
            };
        }
        return get_func_param_type(func, i - 1);
    }
    get_func_param_type(func, i)
}

/// The argument may be passed to the parameter. A whole number counts as an integer.
pub open spec fn may_pass(db: DbTy, t: Ty, param: Ty) -> bool {
    param is Any || (param is Integer && match t {
        Ty::FloatConst(bits) => is_whole_bits(bits),
        _ => false,
    }) || assignable::surely_fits(db, t, param)
}

fn is_passable(db: &DbIndex, t: &LuaType, param: &LuaType) -> (r: bool)
    ensures
        r == may_pass(db@, t@, param@),
{
    if param.is_any() {
        return true;
    }
    if matches!(param, LuaType::Integer) {
        if let LuaType::FloatConst(value) = t {
            if is_whole_number(*value) {
                return true;
            }
        }
    }
    is_surely_assignable(db, t, param)
}

/// What comparing one argument with all signatures showed so far: the signatures that stay, the
/// parameters that were not fit, the first argument that did not fit, and whether there was one.
pub struct PlaceTy {
    pub kept: Seq<FunctionTy>,
    pub unfit: Seq<Ty>,
    pub failed: Option<(Ty, Option<usize>)>,
    pub checked: bool,
}

pub open spec fn no_place() -> PlaceTy {
    PlaceTy { kept: Seq::empty(), unfit: Seq::empty(), failed: None, checked: false }
}

pub open spec fn first_arg(
    failed: Option<(Ty, Option<usize>)>,
    arg: (Ty, Option<usize>),
) -> Option<(Ty, Option<usize>)> {
    match failed {
        Some(arg) => Some(arg),
        None => Some(arg),
    }
}

/// Argument `i` compared with the first signatures of a list.
pub open spec fn place_check(db: DbTy, call: ArgumentsTy, funcs: Seq<FunctionTy>, i: nat) -> PlaceTy
    decreases funcs.len(),
{
    if funcs.len() == 0 {
        no_place()
    } else {
        let front = place_check(db, call, funcs.drop_last(), i);
        let f = funcs.last();
        match compared_arg(call, f, i) {
            None => PlaceTy { kept: front.kept.push(f), ..front },
            Some(arg) => match wanted_param(call, f, i) {
                None => PlaceTy {
                    failed: first_arg(front.failed, arg),
                    checked: true,
                    ..front
                },
                Some(param) => if may_pass(db, arg.0, param) {
                    PlaceTy { kept: front.kept.push(f), checked: true, ..front }
                } else {
                    PlaceTy {
                        unfit: front.unfit.push(param),
                        failed: first_arg(front.failed, arg),
                        checked: true,
                        ..front
                    }
                },
            },
        }
    }
}

/// What comparing one argument with all signatures shows.
#[derive(Debug)]
pub enum ArgIndexCheckResult {
    NoDiagnostic,
    MatchedCandidates(Vec<Arc<LuaFunctionType>>),
    Mismatch { failed_arg: DiagnosticArg, param_type: LuaType },
}

pub enum PlaceResultTy {
    NoDiagnostic,
    Matched(Seq<FunctionTy>),
    Mismatch { arg: (Ty, Option<usize>), param: Ty },
}

impl View for ArgIndexCheckResult {
    type V = PlaceResultTy;

    open spec fn view(&self) -> PlaceResultTy {
        match self {
            ArgIndexCheckResult::NoDiagnostic => PlaceResultTy::NoDiagnostic,
            ArgIndexCheckResult::MatchedCandidates(funcs) => PlaceResultTy::Matched(
                db::function_tys(funcs@),
            ),
            ArgIndexCheckResult::Mismatch { failed_arg, param_type } => PlaceResultTy::Mismatch {
                arg: arg_ty(*failed_arg),
                param: param_type@,
            },
        }
    }
}

pub open spec fn place_result(p: PlaceTy) -> PlaceResultTy {
    if !p.checked {
        PlaceResultTy::NoDiagnostic
    } else if p.kept.len() > 0 {
        PlaceResultTy::Matched(p.kept)
    } else {
        match p.failed {
            Some(arg) => if p.unfit.len() == 0 {
                PlaceResultTy::NoDiagnostic
            } else {
                PlaceResultTy::Mismatch { arg, param: predicates::ty_from_list(p.unfit) }
            },
            None => PlaceResultTy::NoDiagnostic,
        }
    }
}

/// Compares one argument with all signatures.
pub fn check_arg_index_candidates(
    db: &DbIndex,
    call: &CallArguments,
    candidates: &Vec<Arc<LuaFunctionType>>,
    arg_index: usize,
) -> (r: ArgIndexCheckResult)
    ensures
        r@ == place_result(
            place_check(db@, call@, db::function_tys(candidates@), arg_index as nat),
        ),
{
    let ghost all = db::function_tys(candidates@);
    let mut kept: Vec<Arc<LuaFunctionType>> = Vec::new();
    let mut unfit: Vec<LuaType> = Vec::new();
    let mut failed: Option<DiagnosticArg> = None;
    let mut checked = false;
    let mut j: usize = 0;
    proof {
        assert(all.take(0) =~= Seq::<FunctionTy>::empty());
        assert(db::function_tys(kept@) =~= Seq::<FunctionTy>::empty());
        assert(types::tys(unfit@) =~= Seq::<Ty>::empty());
    }
    while j < candidates.len()
        invariant
            j <= candidates@.len(),
            all == db::function_tys(candidates@),
            place_check(db@, call@, all.take(j as int), arg_index as nat) == (PlaceTy {
                kept: db::function_tys(kept@),
                unfit: types::tys(unfit@),
                failed: opt_arg(failed),
                checked,
            }),
        decreases candidates@.len() - j,
    {
        let func = &candidates[j];
        proof {
            assert(all.take(j + 1).drop_last() =~= all.take(j as int));
            assert(all.take(j + 1).last() == all[j as int]);
            assert(all[j as int] == func@);
        }
        let ghost kept_before = db::function_tys(kept@);
        match get_diagnostic_arg(call, func, arg_index) {
            None => {
                kept.push(Arc::clone(func));
                assert(db::function_tys(kept@) =~= kept_before.push(func@));
            },
            Some(arg) => {
                checked = true;
                match get_wanted_param(call, func, arg_index) {
                    None => {
                        if failed.is_none() {
                            failed = Some(arg);
                        }
                    },
                    Some(param) => {
                        if is_passable(db, &arg.typ, &param) {
                            kept.push(Arc::clone(func));
                            assert(db::function_tys(kept@) =~= kept_before.push(func@));
                        } else {
                            let ghost before = types::tys(unfit@);
                            let ghost added = param@;
                            unfit.push(param);
                            assert(types::tys(unfit@) =~= before.push(added));
                            if failed.is_none() {
                                failed = Some(arg);
                            }
                        }
                    },
                }
            },
        }
        j += 1;
    }
    proof {
        assert(all.take(j as int) =~= all);
        assert(db::function_tys(kept@).len() == kept@.len());
        assert(types::tys(unfit@).len() == unfit@.len());
    }
    if !checked {
        return ArgIndexCheckResult::NoDiagnostic;
    }
    if kept.len() > 0 {
        return ArgIndexCheckResult::MatchedCandidates(kept);
    }
    match failed {
        Some(failed_arg) => {
            if unfit.len() == 0 {
                return ArgIndexCheckResult::NoDiagnostic;
            }
            ArgIndexCheckResult::Mismatch { failed_arg, param_type: LuaType::from_vec(unfit) }
        },
        None => ArgIndexCheckResult::NoDiagnostic,
    }
}

/// The first argument from argument `i` on that fits no signature which fits all before it, with
/// what was wanted.
pub open spec fn first_misfit(
    db: DbTy,
    call: ArgumentsTy,
    funcs: Seq<FunctionTy>,
    i: nat,
) -> Option<((Ty, Option<usize>), Ty)>
    decreases call.args.len() + 2 - i,
{
    if i > call.args.len() + 1 {
        None
    } else {
        match place_result(place_check(db, call, funcs, i)) {
            PlaceResultTy::NoDiagnostic => None,
            PlaceResultTy::Matched(kept) => first_misfit(db, call, kept, i + 1),
            PlaceResultTy::Mismatch { arg, param } => Some((arg, param)),
        }
    }
}

/// Finds the first argument that fits no signature, with what was wanted.
#[verifier::loop_isolation(false)]
pub fn check_param_type_mismatch(
    db: &DbIndex,
    call: &CallArguments,
    candidates: Vec<Arc<LuaFunctionType>>,
) -> (r: Option<(DiagnosticArg, LuaType)>)
    ensures
        (match r {
            Some((arg, param)) => Some((arg_ty(arg), param@)),
            None => None,
        }) == first_misfit(db@, call@, db::function_tys(candidates@), 0),
{
    let ghost whole = first_misfit(db@, call@, db::function_tys(candidates@), 0);
    let mut current = candidates;
    let mut i: usize = 0;
    assert(call@.args.len() == call.arg_types@.len());
    let last = call.arg_types.len();
    loop
        invariant
            i <= call@.args.len() + 1,
            last == call@.args.len(),
            whole == first_misfit(db@, call@, db::function_tys(current@), i as nat),
        decreases call@.args.len() + 2 - i,
    {
        match check_arg_index_candidates(db, call, &current, i) {
            ArgIndexCheckResult::NoDiagnostic => {
                return None;
            },
            ArgIndexCheckResult::MatchedCandidates(kept) => {
                current = kept;
            },
            ArgIndexCheckResult::Mismatch { failed_arg, param_type } => {
                return Some((failed_arg, param_type));
            },
        }
        if i > last || i == usize::MAX {
            proof {
                if i <= last {
                    lemma_no_more_args(db@, call@, db::function_tys(current@), (i + 1) as nat);
                }
            }
            return None;
        }
        i += 1;
    }
}

/// Past the last argument nothing is compared.
proof fn lemma_no_more_args(db: DbTy, call: ArgumentsTy, funcs: Seq<FunctionTy>, i: nat)
    requires
        i > call.args.len(),
    ensures
        first_misfit(db, call, funcs, i) is None,
{
    lemma_nothing_checked(db, call, funcs, i);
}

proof fn lemma_nothing_checked(db: DbTy, call: ArgumentsTy, funcs: Seq<FunctionTy>, i: nat)
    requires
        i > call.args.len(),
    ensures
        !place_check(db, call, funcs, i).checked,
    decreases funcs.len(),
{
    if funcs.len() > 0 {
        lemma_nothing_checked(db, call, funcs.drop_last(), i);
    }
}

} // verus!
