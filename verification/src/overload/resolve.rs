//! Choosing among several signatures.

use std::sync::Arc;
use vstd::prelude::*;

use crate::{db, types};
use crate::db::{DbIndex, DbTy};
use crate::member::raw::InferFailReason;
use crate::overload::params;
use crate::overload::params::{
    ParamMatchResult, Specificity, compare_callable_specificity, get_call_param_index,
    get_func_param_type, is_func_last_param_variadic, is_silent,
};
use crate::type_check::assignable;
use crate::type_check::assignable::is_surely_assignable;
use crate::types::{FunctionTy, LuaFunctionType, LuaType, Ty, equality, predicates};

verus! {

/// A call: the types of its arguments, how it is written, how many arguments it has and which of
/// them were left out of consideration.
pub struct CallShape {
    pub args: Seq<Ty>,
    pub colon_call: bool,
    pub arg_count: nat,
    pub declined: Seq<bool>,
}

pub open spec fn is_declined(call: CallShape, i: nat) -> bool {
    i < call.declined.len() && call.declined[i as int]
}

pub open spec fn any_declined(declined: Seq<bool>) -> bool {
    exists|i: int| 0 <= i < declined.len() && #[trigger] declined[i]
}

/// What an argument says of a signature.
pub enum ArgVerdict {
    /// The argument has no parameter.
    Passes,
    /// There is no place for the argument.
    Drops,
    Fits(ParamMatchResult),
}

/// What argument `i` says of a signature.
pub open spec fn arg_verdict(db: DbTy, f: FunctionTy, call: CallShape, i: nat) -> ArgVerdict {
    if f.params.len() < call.arg_count && !params::last_is_rest(f) {
        ArgVerdict::Drops
    } else {
        match params::param_place(f, i, call.colon_call) {
            None => ArgVerdict::Passes,
            Some(place) => match params::param_type(f, place) {
                None => ArgVerdict::Drops,
                Some(p) => ArgVerdict::Fits(
                    if is_declined(call, i) && call.args[i as int] is Unknown {
                        ParamMatchResult::Any
                    } else if p is Any {
                        ParamMatchResult::Any
                    } else if assignable::surely_fits(db, call.args[i as int], p) {
                        ParamMatchResult::Type
                    } else {
                        ParamMatchResult::Not
                    },
                ),
            },
        }
    }
}

/// The signatures still in question, the best match so far and how good it is in this round.
pub struct RoundTy {
    pub funcs: Seq<Option<FunctionTy>>,
    pub best: FunctionTy,
    pub level: ParamMatchResult,
}

/// The round with what was found of signature `j`.
pub open spec fn with_verdict(r: RoundTy, j: int, f: FunctionTy, verdict: ArgVerdict) -> RoundTy {
    match verdict {
        ArgVerdict::Passes => r,
        ArgVerdict::Drops => RoundTy { funcs: r.funcs.update(j, None), ..r },
        ArgVerdict::Fits(m) => RoundTy {
            funcs: if m == ParamMatchResult::Not {
                r.funcs.update(j, None)
            } else {
                r.funcs
            },
            best: if params::match_rank(m) > params::match_rank(r.level) {
                f
            } else {
                r.best
            },
            level: if params::match_rank(m) > params::match_rank(r.level) {
                m
            } else {
                r.level
            },
        },
    }
}

/// One round: argument `i` against all signatures from signature `j` on.
pub open spec fn arg_round(db: DbTy, r: RoundTy, call: CallShape, i: nat, j: nat) -> RoundTy
    decreases r.funcs.len() - j,
{
    if j >= r.funcs.len() {
        r
    } else {
        match r.funcs[j as int] {
            None => arg_round(db, r, call, i, j + 1),
            Some(f) => {
                let next = with_verdict(r, j as int, f, arg_verdict(db, f, call, i));
                arg_round(db, next, call, i, j + 1)
            },
        }
    }
}

/// All arguments from argument `i` on, until one fits no signature.
pub open spec fn arg_rounds(
    db: DbTy,
    funcs: Seq<Option<FunctionTy>>,
    best: FunctionTy,
    call: CallShape,
    i: nat,
) -> (Seq<Option<FunctionTy>>, FunctionTy)
    decreases call.args.len() - i,
{
    if i >= call.args.len() {
        (funcs, best)
    } else {
        let r = arg_round(
            db,
            RoundTy { funcs, best, level: ParamMatchResult::Not },
            call,
            i,
            0,
        );
        if r.level == ParamMatchResult::Not {
            (r.funcs, r.best)
        } else {
            arg_rounds(db, r.funcs, r.best, call, i + 1)
        }
    }
}

pub open spec fn remaining(funcs: Seq<Option<FunctionTy>>) -> Seq<FunctionTy>
    decreases funcs.len(),
{
    if funcs.len() == 0 {
        Seq::empty()
    } else {
        let front = remaining(funcs.drop_last());
        match funcs.last() {
            Some(f) => front.push(f),
            None => front,
        }
    }
}

/// All arguments say nothing about which signature is meant.
pub open spec fn all_silent(call: CallShape) -> bool {
    forall|i: int|
        0 <= i < call.args.len() ==> #[trigger] params::is_silent_arg(call.args, call.declined, i)
}

/// The most specific signature from signature `j` on, where one is strictly more specific than
/// another and none is incomparable.
pub open spec fn most_specific(
    db: DbTy,
    funcs: Seq<FunctionTy>,
    call: CallShape,
    j: nat,
    best: FunctionTy,
    strict: bool,
) -> Option<FunctionTy>
    decreases funcs.len() - j,
{
    if j >= funcs.len() {
        if strict {
            Some(best)
        } else {
            None
        }
    } else {
        match params::call_order(
            db,
            funcs[j as int],
            best,
            call.args,
            0,
            Specificity::Equal,
            call.colon_call,
            call.declined,
        ) {
            None => None,
            Some(Specificity::Greater) => most_specific(
                db,
                funcs,
                call,
                j + 1,
                funcs[j as int],
                true,
            ),
            Some(Specificity::Less) => most_specific(db, funcs, call, j + 1, best, true),
            Some(Specificity::Equal) => most_specific(db, funcs, call, j + 1, best, strict),
        }
    }
}

pub open spec fn chosen(db: DbTy, funcs: Seq<FunctionTy>, call: CallShape) -> Option<FunctionTy> {
    if call.args.len() == 0 || all_silent(call) || funcs.len() == 0 {
        None
    } else {
        most_specific(db, funcs, call, 1, funcs[0], false)
    }
}

/// How many parameters a signature has beside one that takes the rest.
pub open spec fn own_params(f: FunctionTy) -> nat {
    if params::last_is_rest(f) {
        (f.params.len() - 1) as nat
    } else {
        f.params.len()
    }
}

pub open spec fn most_params(funcs: Seq<FunctionTy>) -> nat
    decreases funcs.len(),
{
    if funcs.len() == 0 {
        0
    } else {
        let front = most_params(funcs.drop_last());
        if own_params(funcs.last()) > front {
            own_params(funcs.last())
        } else {
            front
        }
    }
}

/// What a parameter without an argument says of a signature.
pub enum TailVerdict {
    Passes,
    Wins,
    Fits(ParamMatchResult, nat),
}

pub open spec fn tail_verdict(f: FunctionTy, call: CallShape, p: nat) -> TailVerdict {
    match params::param_place(f, p, call.colon_call) {
        None => TailVerdict::Passes,
        Some(place) => if place >= f.params.len() {
            if params::last_is_rest(f) {
                TailVerdict::Fits(ParamMatchResult::Any, place)
            } else if any_declined(call.declined) {
                TailVerdict::Fits(ParamMatchResult::Type, place)
            } else {
                TailVerdict::Wins
            }
        } else {
            let t = params::or_any(f.params[place as int].1);
            TailVerdict::Fits(
                if t is Any {
                    ParamMatchResult::Any
                } else if predicates::ty_is_nullable(t) {
                    ParamMatchResult::Type
                } else {
                    ParamMatchResult::Not
                },
                place,
            )
        },
    }
}

/// A round over the parameters without an argument: it ends with a winner or goes on.
pub enum TailTy {
    Won(FunctionTy),
    Open(RoundTy),
}

pub open spec fn tail_round(r: RoundTy, call: CallShape, p: nat, j: nat) -> TailTy
    decreases r.funcs.len() - j,
{
    if j >= r.funcs.len() {
        TailTy::Open(r)
    } else {
        match r.funcs[j as int] {
            None => tail_round(r, call, p, j + 1),
            Some(f) => match tail_verdict(f, call, p) {
                TailVerdict::Passes => tail_round(r, call, p, j + 1),
                TailVerdict::Wins => TailTy::Won(f),
                TailVerdict::Fits(m, place) => {
                    let next = with_verdict(r, j as int, f, ArgVerdict::Fits(m));
                    if m != ParamMatchResult::Not && !any_declined(call.declined) && j + 1
                        == r.funcs.len() && place + 1 == f.params.len() {
                        TailTy::Won(f)
                    } else {
                        tail_round(next, call, p, j + 1)
                    }
                },
            },
        }
    }
}

/// All parameters without an argument from parameter `p` on, up to `end`.
pub open spec fn tail_rounds(
    funcs: Seq<Option<FunctionTy>>,
    best: FunctionTy,
    call: CallShape,
    p: nat,
    end: nat,
) -> TailTy
    decreases end - p,
{
    if p >= end {
        TailTy::Open(RoundTy { funcs, best, level: ParamMatchResult::Not })
    } else {
        match tail_round(
            RoundTy { funcs, best, level: ParamMatchResult::Not },
            call,
            p,
            0,
        ) {
            TailTy::Won(f) => TailTy::Won(f),
            TailTy::Open(r) => if r.level == ParamMatchResult::Not {
                TailTy::Open(r)
            } else {
                tail_rounds(r.funcs, r.best, call, p + 1, end)
            },
        }
    }
}

pub open spec fn all_some(funcs: Seq<FunctionTy>) -> Seq<Option<FunctionTy>> {
    Seq::new(funcs.len(), |i: int| Some(funcs[i]))
}

/// The first signature, where all return the same.
pub open spec fn agreed(funcs: Seq<FunctionTy>) -> Result<FunctionTy, InferFailReason> {
    if funcs.len() > 0 && all_return(funcs, funcs[0].ret) {
        Ok(funcs[0])
    } else {
        Err(InferFailReason::Unsupported)
    }
}

pub open spec fn all_return(funcs: Seq<FunctionTy>, ret: Ty) -> bool {
    forall|i: int| 1 <= i < funcs.len() ==> equality::ty_eq((#[trigger] funcs[i]).ret, ret)
}

pub open spec fn first_without_params(funcs: Seq<FunctionTy>) -> Option<FunctionTy>
    decreases funcs.len(),
{
    if funcs.len() == 0 {
        None
    } else if funcs[0].params.len() == 0 {
        Some(funcs[0])
    } else {
        first_without_params(funcs.skip(1))
    }
}

/// The signature among those that are left that the call goes to.
pub open spec fn settled(
    db: DbTy,
    rest: Seq<FunctionTy>,
    best: FunctionTy,
    call: CallShape,
) -> Result<FunctionTy, InferFailReason> {
    let declined = any_declined(call.declined);
    if rest.len() == 0 {
        if declined {
            Err(InferFailReason::Unsupported)
        } else {
            Ok(best)
        }
    } else if rest.len() == 1 {
        Ok(rest[0])
    } else if !declined && chosen(db, rest, call) is Some {
        Ok(chosen(db, rest, call).unwrap())
    } else {
        match tail_rounds(all_some(rest), best, call, call.args.len(), most_params(rest)) {
            TailTy::Won(f) => Ok(f),
            TailTy::Open(r) => if declined {
                agreed(remaining(r.funcs))
            } else {
                Ok(r.best)
            },
        }
    }
}

/// The signature that a call goes to.
pub open spec fn resolved(
    db: DbTy,
    overloads: Seq<FunctionTy>,
    call: CallShape,
) -> Result<FunctionTy, InferFailReason> {
    if overloads.len() == 0 {
        Err(InferFailReason::Unsupported)
    } else if overloads.len() == 1 {
        Ok(overloads[0])
    } else if call.args.len() == 0 && first_without_params(overloads) is Some {
        Ok(first_without_params(overloads).unwrap())
    } else {
        let (funcs, best) = arg_rounds(db, all_some(overloads), overloads[0], call, 0);
        settled(db, remaining(funcs), best, call)
    }
}

/// A single signature is always taken.
pub proof fn single_signature_wins(db: DbTy, f: FunctionTy, call: CallShape)
    ensures
        resolved(db, seq![f], call) == Ok::<FunctionTy, InferFailReason>(f),
{
}

// ----------------------------------------------------------------------------
// The code.

pub open spec fn opt_function(f: Option<Arc<LuaFunctionType>>) -> Option<FunctionTy> {
    match f {
        Some(f) => Some(f@),
        None => None,
    }
}

pub open spec fn opt_functions(s: Seq<Option<Arc<LuaFunctionType>>>) -> Seq<Option<FunctionTy>> {
    Seq::new(s.len(), |i: int| opt_function(s[i]))
}

pub open spec fn res_function(r: Result<Arc<LuaFunctionType>, InferFailReason>) -> Result<
    FunctionTy,
    InferFailReason,
> {
    match r {
        Ok(f) => Ok(f@),
        Err(reason) => Err(reason),
    }
}

/// A call: the types of its arguments, how it is written, how many arguments it has and which of
/// them were left out of consideration.
#[derive(Debug, Clone, Copy)]
pub struct CallArgs<'a> {
    pub expr_types: &'a [LuaType],
    pub is_colon_call: bool,
    pub arg_count: usize,
    pub declined_no_flow_args: &'a [bool],
}

impl<'a> View for CallArgs<'a> {
    type V = CallShape;

    open spec fn view(&self) -> CallShape {
        CallShape {
            args: types::tys(self.expr_types@),
            colon_call: self.is_colon_call,
            arg_count: self.arg_count as nat,
            declined: self.declined_no_flow_args@,
        }
    }
}

/// The signatures still in question, the best match so far and how good it is in this round.
struct Round {
    funcs: Vec<Option<Arc<LuaFunctionType>>>,
    best: Arc<LuaFunctionType>,
    level: ParamMatchResult,
}

impl View for Round {
    type V = RoundTy;

    closed spec fn view(&self) -> RoundTy {
        RoundTy { funcs: opt_functions(self.funcs@), best: self.best@, level: self.level }
    }
}

#[derive(Debug)]
enum Verdict {
    Passes,
    Drops,
    Fits(ParamMatchResult),
}

spec fn verdict_ty(v: Verdict) -> ArgVerdict {
    match v {
        Verdict::Passes => ArgVerdict::Passes,
        Verdict::Drops => ArgVerdict::Drops,
        Verdict::Fits(m) => ArgVerdict::Fits(m),
    }
}

fn has_declined(declined: &[bool]) -> (r: bool)
    ensures
        r == any_declined(declined@),
{
    let mut i: usize = 0;
    while i < declined.len()
        invariant
            i <= declined@.len(),
            forall|j: int| 0 <= j < i ==> !(#[trigger] declined@[j]),
        decreases declined@.len() - i,
    {
        if declined[i] {
            return true;
        }
        i += 1;
    }
    false
}

fn judge_arg(db: &DbIndex, func: &LuaFunctionType, call: &CallArgs, i: usize) -> (r: Verdict)
    requires
        i < call.expr_types@.len(),
    ensures
        verdict_ty(r) == arg_verdict(db@, func@, call@, i as nat),
{
    assert(func@.params == types::named_tys(func.params@));
    assert(call@.args[i as int] == call.expr_types@[i as int]@);
    if func.params.len() < call.arg_count && !is_func_last_param_variadic(func) {
        return Verdict::Drops;
    }
    let expr_len = call.expr_types.len();
    assert(i < expr_len);
    let param_index = match get_call_param_index(func, i, call.is_colon_call) {
        Some(param_index) => param_index,
        None => {
            return Verdict::Passes;
        },
    };
    let param_type = match get_func_param_type(func, param_index) {
        Some(param_type) => param_type,
        None => {
            return Verdict::Drops;
        },
    };
    let expr_type = &call.expr_types[i];
    let declined = i < call.declined_no_flow_args.len() && call.declined_no_flow_args[i];
    if declined && expr_type.is_unknown() {
        Verdict::Fits(ParamMatchResult::Any)
    } else if param_type.is_any() {
        Verdict::Fits(ParamMatchResult::Any)
    } else if is_surely_assignable(db, expr_type, &param_type) {
        Verdict::Fits(ParamMatchResult::Type)
    } else {
        Verdict::Fits(ParamMatchResult::Not)
    }
}

fn apply_verdict(round: &mut Round, j: usize, func: Arc<LuaFunctionType>, verdict: Verdict)
    requires
        j < old(round)@.funcs.len(),
    ensures
        final(round)@ == with_verdict(old(round)@, j as int, func@, verdict_ty(verdict)),
{
    let ghost before = round@;
    let drops = match verdict {
        Verdict::Passes => false,
        Verdict::Drops => true,
        Verdict::Fits(m) => {
            if m.is_better(round.level) {
                round.level = m;
                round.best = func;
            }
            m == ParamMatchResult::Not
        },
    };
    if drops {
        round.funcs.set(j, None);
        assert(opt_functions(round.funcs@) =~= before.funcs.update(j as int, None));
    }
}

#[verifier::loop_isolation(false)]
fn run_arg_round(db: &DbIndex, round: &mut Round, call: &CallArgs, i: usize)
    requires
        i < call.expr_types@.len(),
    ensures
        final(round)@ == arg_round(db@, old(round)@, call@, i as nat, 0),
        final(round)@.funcs.len() == old(round)@.funcs.len(),
{
    let ghost whole = arg_round(db@, round@, call@, i as nat, 0);
    let ghost n = round@.funcs.len();
    let mut j: usize = 0;
    while j < round.funcs.len()
        invariant
            j <= n,
            n == round@.funcs.len(),
            n == round.funcs@.len(),
            i < call.expr_types@.len(),
            whole == arg_round(db@, round@, call@, i as nat, j as nat),
        decreases n - j,
    {
        assert(round@.funcs[j as int] == opt_function(round.funcs@[j as int]));
        let func = match &round.funcs[j] {
            Some(func) => Some(Arc::clone(func)),
            None => None,
        };
        if let Some(func) = func {
            let verdict = judge_arg(db, &func, call, i);
            apply_verdict(round, j, func, verdict);
            assert(opt_functions(round.funcs@).len() == round.funcs@.len());
        }
        j += 1;
    }
}

#[verifier::loop_isolation(false)]
fn run_arg_rounds(
    db: &DbIndex,
    funcs: Vec<Option<Arc<LuaFunctionType>>>,
    best: Arc<LuaFunctionType>,
    call: &CallArgs,
) -> (r: (Vec<Option<Arc<LuaFunctionType>>>, Arc<LuaFunctionType>))
    ensures
        ({
            let (left, winner) = arg_rounds(db@, opt_functions(funcs@), best@, call@, 0);
            opt_functions(r.0@) == left && r.1@ == winner
        }),
{
    let ghost whole = arg_rounds(db@, opt_functions(funcs@), best@, call@, 0);
    let mut round = Round { funcs, best, level: ParamMatchResult::Not };
    let mut i: usize = 0;
    assert(call@.args.len() == call.expr_types@.len());
    while i < call.expr_types.len()
        invariant
            i <= call.expr_types@.len(),
            call@.args.len() == call.expr_types@.len(),
            whole == arg_rounds(db@, round@.funcs, round@.best, call@, i as nat),
        decreases call.expr_types@.len() - i,
    {
        round.level = ParamMatchResult::Not;
        run_arg_round(db, &mut round, call, i);
        if round.level == ParamMatchResult::Not {
            return (round.funcs, round.best);
        }
        i += 1;
    }
    (round.funcs, round.best)
}

fn list_remaining(funcs: &Vec<Option<Arc<LuaFunctionType>>>) -> (r: Vec<Arc<LuaFunctionType>>)
    ensures
        db::function_tys(r@) == remaining(opt_functions(funcs@)),
{
    let ghost all = opt_functions(funcs@);
    let mut r: Vec<Arc<LuaFunctionType>> = Vec::new();
    let mut i: usize = 0;
    proof {
        assert(all.take(0) =~= Seq::<Option<FunctionTy>>::empty());
        assert(db::function_tys(r@) =~= remaining(all.take(0)));
    }
    while i < funcs.len()
        invariant
            i <= funcs@.len(),
            all == opt_functions(funcs@),
            db::function_tys(r@) == remaining(all.take(i as int)),
        decreases funcs@.len() - i,
    {
        proof {
            assert(all.take(i + 1).drop_last() =~= all.take(i as int));
            assert(all.take(i + 1).last() == all[i as int]);
        }
        if let Some(func) = &funcs[i] {
            let ghost before = db::function_tys(r@);
            r.push(Arc::clone(func));
            assert(db::function_tys(r@) =~= before.push(func@));
        }
        i += 1;
    }
    assert(all.take(i as int) =~= all);
    r
}

fn wrap_all(funcs: &[Arc<LuaFunctionType>]) -> (r: Vec<Option<Arc<LuaFunctionType>>>)
    ensures
        opt_functions(r@) == all_some(db::function_tys(funcs@)),
{
    let mut r: Vec<Option<Arc<LuaFunctionType>>> = Vec::new();
    let mut i: usize = 0;
    while i < funcs.len()
        invariant
            i <= funcs@.len(),
            r@.len() == i,
            forall|j: int| 0 <= j < i ==> opt_function(#[trigger] r@[j]) == Some(funcs@[j]@),
        decreases funcs@.len() - i,
    {
        r.push(Some(Arc::clone(&funcs[i])));
        i += 1;
    }
    assert(opt_functions(r@) =~= all_some(db::function_tys(funcs@)));
    r
}

fn is_all_silent(call: &CallArgs) -> (r: bool)
    ensures
        r == all_silent(call@),
{
    let mut i: usize = 0;
    assert(call@.args.len() == call.expr_types@.len());
    while i < call.expr_types.len()
        invariant
            i <= call.expr_types@.len(),
            call@.args.len() == call.expr_types@.len(),
            forall|j: int|
                0 <= j < i ==> #[trigger] params::is_silent_arg(call@.args, call@.declined, j),
        decreases call.expr_types@.len() - i,
    {
        if !is_silent(call.expr_types, call.declined_no_flow_args, i) {
            assert(!params::is_silent_arg(call@.args, call@.declined, i as int));
            return false;
        }
        i += 1;
    }
    true
}

/// The most specific of the signatures, where one is.
pub fn choose_more_specific_callable(
    db: &DbIndex,
    funcs: &Vec<Arc<LuaFunctionType>>,
    call: &CallArgs,
) -> (r: Option<Arc<LuaFunctionType>>)
    ensures
        opt_function(r) == chosen(db@, db::function_tys(funcs@), call@),
{
    let ghost all = db::function_tys(funcs@);
    assert(call@.args.len() == call.expr_types@.len());
    if call.expr_types.len() == 0 || is_all_silent(call) || funcs.len() == 0 {
        return None;
    }
    let mut best = Arc::clone(&funcs[0]);
    let mut has_strict_better = false;
    let mut j: usize = 1;
    while j < funcs.len()
        invariant
            1 <= j <= funcs@.len(),
            all == db::function_tys(funcs@),
            most_specific(db@, all, call@, 1, all[0], false) == most_specific(
                db@,
                all,
                call@,
                j as nat,
                best@,
                has_strict_better,
            ),
        decreases funcs@.len() - j,
    {
        let func = &funcs[j];
        match compare_callable_specificity(
            db,
            func,
            &best,
            call.expr_types,
            call.is_colon_call,
            call.declined_no_flow_args,
        ) {
            Some(Specificity::Greater) => {
                best = Arc::clone(func);
                has_strict_better = true;
            },
            Some(Specificity::Less) => {
                has_strict_better = true;
            },
            Some(Specificity::Equal) => {},
            None => {
                return None;
            },
        }
        j += 1;
    }
    if has_strict_better {
        Some(best)
    } else {
        None
    }
}

fn count_own_params(func: &LuaFunctionType) -> (r: usize)
    ensures
        r == own_params(func@),
{
    assert(func@.params == types::named_tys(func.params@));
    if is_func_last_param_variadic(func) {
        func.params.len() - 1
    } else {
        func.params.len()
    }
}

fn count_most_params(funcs: &Vec<Arc<LuaFunctionType>>) -> (r: usize)
    ensures
        r == most_params(db::function_tys(funcs@)),
{
    let ghost all = db::function_tys(funcs@);
    let mut most: usize = 0;
    let mut i: usize = 0;
    assert(all.take(0) =~= Seq::<FunctionTy>::empty());
    while i < funcs.len()
        invariant
            i <= funcs@.len(),
            all == db::function_tys(funcs@),
            most == most_params(all.take(i as int)),
        decreases funcs@.len() - i,
    {
        proof {
            assert(all.take(i + 1).drop_last() =~= all.take(i as int));
            assert(all.take(i + 1).last() == all[i as int]);
        }
        let own = count_own_params(&funcs[i]);
        if own > most {
            most = own;
        }
        i += 1;
    }
    assert(all.take(i as int) =~= all);
    most
}

#[derive(Debug)]
enum Tail {
    Passes,
    Wins,
    Fits(ParamMatchResult, usize),
}

spec fn tail_ty(t: Tail) -> TailVerdict {
    match t {
        Tail::Passes => TailVerdict::Passes,
        Tail::Wins => TailVerdict::Wins,
        Tail::Fits(m, place) => TailVerdict::Fits(m, place as nat),
    }
}

fn judge_tail(func: &LuaFunctionType, call: &CallArgs, p: usize, declined: bool) -> (r: Tail)
    requires
        p < usize::MAX,
        declined == any_declined(call@.declined),
    ensures
        tail_ty(r) == tail_verdict(func@, call@, p as nat),
{
    assert(func@.params == types::named_tys(func.params@));
    let param_index = match get_call_param_index(func, p, call.is_colon_call) {
        Some(param_index) => param_index,
        None => {
            return Tail::Passes;
        },
    };
    if param_index >= func.params.len() {
        if is_func_last_param_variadic(func) {
            return Tail::Fits(ParamMatchResult::Any, param_index);
        }
        if declined {
            return Tail::Fits(ParamMatchResult::Type, param_index);
        }
        return Tail::Wins;
    }
    match get_func_param_type(func, param_index) {
        Some(param_type) => {
            if param_type.is_any() {
                Tail::Fits(ParamMatchResult::Any, param_index)
            } else if param_type.is_nullable() {
                Tail::Fits(ParamMatchResult::Type, param_index)
            } else {
                Tail::Fits(ParamMatchResult::Not, param_index)
            }
        },
        None => Tail::Passes,
    }
}

#[verifier::loop_isolation(false)]
fn run_tail_round(round: &mut Round, call: &CallArgs, p: usize, declined: bool) -> (r: Option<
    Arc<LuaFunctionType>,
>)
    requires
        p < usize::MAX,
        declined == any_declined(call@.declined),
    ensures
        match tail_round(old(round)@, call@, p as nat, 0) {
            TailTy::Won(f) => opt_function(r) == Some(f),
            TailTy::Open(next) => r is None && final(round)@ == next,
        },
        final(round)@.funcs.len() == old(round)@.funcs.len(),
{
    let ghost whole = tail_round(round@, call@, p as nat, 0);
    let ghost n = round@.funcs.len();
    let mut j: usize = 0;
    while j < round.funcs.len()
        invariant
            j <= n,
            n == round@.funcs.len(),
            n == round.funcs@.len(),
            p < usize::MAX,
            declined == any_declined(call@.declined),
            whole == tail_round(round@, call@, p as nat, j as nat),
        decreases n - j,
    {
        assert(round@.funcs[j as int] == opt_function(round.funcs@[j as int]));
        let func = match &round.funcs[j] {
            Some(func) => Some(Arc::clone(func)),
            None => None,
        };
        if let Some(func) = func {
            assert(func@.params == types::named_tys(func.params@));
            assert(types::named_tys(func.params@).len() == func.params@.len());
            match judge_tail(&func, call, p, declined) {
                Tail::Passes => {},
                Tail::Wins => {
                    return Some(func);
                },
                Tail::Fits(m, place) => {
                    if m != ParamMatchResult::Not && !declined && j == round.funcs.len() - 1
                        && place < func.params.len() && place == func.params.len() - 1 {
                        return Some(func);
                    }
                    apply_verdict(round, j, func, Verdict::Fits(m));
                    assert(opt_functions(round.funcs@).len() == round.funcs@.len());
                },
            }
        }
        j += 1;
    }
    None
}

fn find_first_without_params(funcs: &[Arc<LuaFunctionType>]) -> (r: Option<Arc<LuaFunctionType>>)
    ensures
        opt_function(r) == first_without_params(db::function_tys(funcs@)),
{
    let ghost all = db::function_tys(funcs@);
    let mut i: usize = 0;
    assert(all.skip(0) =~= all);
    while i < funcs.len()
        invariant
            i <= funcs@.len(),
            all == db::function_tys(funcs@),
            first_without_params(all) == first_without_params(all.skip(i as int)),
        decreases funcs@.len() - i,
    {
        proof {
            assert(all.skip(i as int)[0] == all[i as int]);
            assert(all.skip(i as int).skip(1) =~= all.skip(i + 1));
            assert(all[i as int] == funcs@[i as int]@);
            assert(funcs@[i as int]@.params == types::named_tys(funcs@[i as int].params@));
        }
        if funcs[i].params.len() == 0 {
            return Some(Arc::clone(&funcs[i]));
        }
        i += 1;
    }
    None
}

fn find_agreed(funcs: &Vec<Arc<LuaFunctionType>>) -> (r: Result<
    Arc<LuaFunctionType>,
    InferFailReason,
>)
    ensures
        res_function(r) == agreed(db::function_tys(funcs@)),
{
    let ghost all = db::function_tys(funcs@);
    if funcs.len() == 0 {
        return Err(InferFailReason::Unsupported);
    }
    assert(all[0].ret == funcs@[0].ret@);
    let mut i: usize = 1;
    while i < funcs.len()
        invariant
            1 <= i <= funcs@.len(),
            all == db::function_tys(funcs@),
            all[0].ret == funcs@[0].ret@,
            forall|j: int| 1 <= j < i ==> equality::ty_eq((#[trigger] all[j]).ret, all[0].ret),
        decreases funcs@.len() - i,
    {
        assert(all[i as int] == funcs@[i as int]@);
        assert(funcs@[i as int]@.ret == funcs@[i as int].ret@);
        if !funcs[i].ret.same(&funcs[0].ret) {
            assert(!all_return(all, all[0].ret));
            return Err(InferFailReason::Unsupported);
        }
        i += 1;
    }
    Ok(Arc::clone(&funcs[0]))
}

#[verifier::loop_isolation(false)]
fn settle_by_tail(
    rest: &Vec<Arc<LuaFunctionType>>,
    best: Arc<LuaFunctionType>,
    call: &CallArgs,
    declined: bool,
) -> (r: Result<Arc<LuaFunctionType>, InferFailReason>)
    requires
        declined == any_declined(call@.declined),
    ensures
        res_function(r) == (match tail_rounds(
            all_some(db::function_tys(rest@)),
            best@,
            call@,
            call@.args.len(),
            most_params(db::function_tys(rest@)),
        ) {
            TailTy::Won(f) => Ok(f),
            TailTy::Open(open) => if declined {
                agreed(remaining(open.funcs))
            } else {
                Ok(open.best)
            },
        }),
{
    let end = count_most_params(rest);
    let ghost whole = tail_rounds(
        all_some(db::function_tys(rest@)),
        best@,
        call@,
        call@.args.len(),
        end as nat,
    );
    let mut round = Round { funcs: wrap_all(rest.as_slice()), best, level: ParamMatchResult::Not };
    let mut p: usize = call.expr_types.len();
    let mut open = true;
    assert(call@.args.len() == call.expr_types@.len());
    while open && p < end
        invariant
            declined == any_declined(call@.declined),
            open ==> whole == tail_rounds(
                round@.funcs,
                round@.best,
                call@,
                p as nat,
                end as nat,
            ),
            !open ==> whole == TailTy::Open(round@),
        decreases end - p, (if open {
            1int
        } else {
            0int
        }),
    {
        round.level = ParamMatchResult::Not;
        if let Some(func) = run_tail_round(&mut round, call, p, declined) {
            return Ok(func);
        }
        if round.level == ParamMatchResult::Not {
            open = false;
        } else {
            p += 1;
        }
    }
    if declined {
        let left = list_remaining(&round.funcs);
        find_agreed(&left)
    } else {
        Ok(round.best)
    }
}

fn settle_rest(
    db: &DbIndex,
    rest: &Vec<Arc<LuaFunctionType>>,
    best: Arc<LuaFunctionType>,
    call: &CallArgs,
) -> (r: Result<Arc<LuaFunctionType>, InferFailReason>)
    ensures
        res_function(r) == settled(db@, db::function_tys(rest@), best@, call@),
{
    let declined = has_declined(call.declined_no_flow_args);
    assert(db::function_tys(rest@).len() == rest@.len());
    if rest.len() == 0 {
        if declined {
            return Err(InferFailReason::Unsupported);
        }
        return Ok(best);
    }
    if rest.len() == 1 {
        assert(db::function_tys(rest@)[0] == rest@[0]@);
        return Ok(Arc::clone(&rest[0]));
    }
    if !declined {
        if let Some(func) = choose_more_specific_callable(db, rest, call) {
            return Ok(func);
        }
    }
    settle_by_tail(rest, best, call, declined)
}

/// The signature that a call goes to.
pub fn resolve_signature_by_args(
    db: &DbIndex,
    overloads: &[Arc<LuaFunctionType>],
    expr_types: &[LuaType],
    is_colon_call: bool,
    arg_count: Option<usize>,
    declined_no_flow_args: &[bool],
) -> (r: Result<Arc<LuaFunctionType>, InferFailReason>)
    ensures
        res_function(r) == resolved(
            db@,
            db::function_tys(overloads@),
            (CallShape {
                args: types::tys(expr_types@),
                colon_call: is_colon_call,
                arg_count: match arg_count {
                    Some(n) => n as nat,
                    None => expr_types@.len(),
                },
                declined: declined_no_flow_args@,
            }),
        ),
{
    let call = CallArgs {
        expr_types,
        is_colon_call,
        arg_count: match arg_count {
            Some(n) => n,
            None => expr_types.len(),
        },
        declined_no_flow_args,
    };
    assert(db::function_tys(overloads@).len() == overloads@.len());
    assert(call@.args.len() == expr_types@.len());
    if overloads.len() == 0 {
        return Err(InferFailReason::Unsupported);
    }
    assert(db::function_tys(overloads@)[0] == overloads@[0]@);
    if overloads.len() == 1 {
        return Ok(Arc::clone(&overloads[0]));
    }
    if expr_types.len() == 0 {
        if let Some(func) = find_first_without_params(overloads) {
            return Ok(func);
        }
    }
    let (funcs, best) = run_arg_rounds(
        db,
        wrap_all(overloads),
        Arc::clone(&overloads[0]),
        &call,
    );
    let rest = list_remaining(&funcs);
    settle_rest(db, &rest, best, &call)
}

} // verus!
