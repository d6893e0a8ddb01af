//! Arguments and the parameters they go to.

use vstd::prelude::*;

use crate::types;
use crate::db::{DbIndex, DbTy};
use crate::type_check::{assignable, simple};
use crate::type_check::assignable::is_surely_assignable;
use crate::types::{FunctionTy, LuaFunctionType, LuaType, Ty, equality};
use crate::types::complex::text_is;

verus! {

/// How well an argument fits a parameter, from worst to best.
#[derive(Debug, Clone, Copy, PartialEq, Eq, Structural)]
pub enum ParamMatchResult {
    Not,
    Any,
    Type,
}

pub open spec fn match_rank(m: ParamMatchResult) -> int {
    match m {
        ParamMatchResult::Not => 0,
        ParamMatchResult::Any => 1,
        ParamMatchResult::Type => 2,
    }
}

impl ParamMatchResult {
    pub fn is_better(self, other: Self) -> (r: bool)
        ensures
            r == (match_rank(self) > match_rank(other)),
    {
        match self {
            ParamMatchResult::Not => false,
            ParamMatchResult::Any => matches!(other, ParamMatchResult::Not),
            ParamMatchResult::Type => !matches!(other, ParamMatchResult::Type),
        }
    }
}

/// Which of two parameters is the more specific one.
#[derive(Debug, Clone, Copy, PartialEq, Eq, Structural)]
pub enum Specificity {
    Less,
    Equal,
    Greater,
}

pub open spec fn last_is_rest(f: FunctionTy) -> bool {
    f.params.len() > 0 && f.params.last().0 == "..."@
}

pub fn is_func_last_param_variadic(func: &LuaFunctionType) -> (r: bool)
    ensures
        r == last_is_rest(func@),
{
    assert(func@.params == types::named_tys(func.params@));
    if func.params.len() == 0 {
        return false;
    }
    let last = func.params.len() - 1;
    assert(types::named_tys(func.params@).last().0 == func.params@[last as int].0@);
    text_is(&func.params[last].0, "...")
}

/// The parameter that an argument goes to. The receiver of a call is an argument where the function
/// is not a method, and a method called as a function takes its receiver from the first argument.
pub open spec fn param_place(f: FunctionTy, arg: nat, colon_call: bool) -> Option<nat> {
    if f.is_colon_define && !colon_call {
        if arg == 0 {
            None
        } else {
            Some((arg - 1) as nat)
        }
    } else if !f.is_colon_define && colon_call {
        Some(arg + 1)
    } else {
        Some(arg)
    }
}

pub open spec fn opt_index(i: Option<usize>) -> Option<nat> {
    match i {
        Some(i) => Some(i as nat),
        None => None,
    }
}

pub fn get_call_param_index(func: &LuaFunctionType, arg_index: usize, is_colon_call: bool) -> (r:
    Option<usize>)
    requires
        arg_index < usize::MAX,
    ensures
        opt_index(r) == param_place(func@, arg_index as nat, is_colon_call),
{
    if func.is_colon_define && !is_colon_call {
        if arg_index == 0 {
            return None;
        }
        return Some(arg_index - 1);
    }
    if !func.is_colon_define && is_colon_call {
        return Some(arg_index + 1);
    }
    Some(arg_index)
}

pub open spec fn or_any(t: Option<Ty>) -> Ty {
    match t {
        Some(t) => t,
        None => Ty::Any,
    }
}

/// The type of a parameter; past the end, that of the one that takes the rest.
pub open spec fn param_type(f: FunctionTy, i: nat) -> Option<Ty> {
    if i < f.params.len() {
        Some(or_any(f.params[i as int].1))
    } else if last_is_rest(f) {
        Some(or_any(f.params.last().1))
    } else {
        None
    }
}

fn type_or_any(t: &Option<LuaType>) -> (r: LuaType)
    ensures
        r@ == or_any(types::opt_ty(*t)),
{
    match t {
        Some(t) => t.clone(),
        None => LuaType::Any,
    }
}

pub fn get_func_param_type(func: &LuaFunctionType, param_index: usize) -> (r: Option<LuaType>)
    ensures
        types::opt_ty(r) == param_type(func@, param_index as nat),
{
    assert(func@.params == types::named_tys(func.params@));
    if param_index < func.params.len() {
        assert(types::named_tys(func.params@)[param_index as int].1 == types::opt_ty(
            func.params@[param_index as int].1,
        ));
        return Some(type_or_any(&func.params[param_index].1));
    }
    if is_func_last_param_variadic(func) {
        let last = func.params.len() - 1;
        assert(types::named_tys(func.params@).last().1 == types::opt_ty(func.params@[last as int].1));
        return Some(type_or_any(&func.params[last].1));
    }
    None
}

/// Every argument goes to a parameter that it is known to fit, and there are not too many.
pub open spec fn accepts(
    db: DbTy,
    f: FunctionTy,
    args: Seq<Ty>,
    colon_call: bool,
    arg_count: nat,
) -> bool {
    (f.params.len() >= arg_count || last_is_rest(f)) && accepts_from(db, f, args, 0, colon_call)
}

pub open spec fn accepts_arg(db: DbTy, f: FunctionTy, t: Ty, i: nat, colon_call: bool) -> bool {
    match param_place(f, i, colon_call) {
        None => true,
        Some(place) => match param_type(f, place) {
            None => false,
            Some(p) => p is Any || assignable::surely_fits(db, t, p),
        },
    }
}

pub open spec fn accepts_from(
    db: DbTy,
    f: FunctionTy,
    args: Seq<Ty>,
    i: nat,
    colon_call: bool,
) -> bool
    decreases args.len() - i,
{
    i >= args.len() || (accepts_arg(db, f, args[i as int], i, colon_call) && accepts_from(
        db,
        f,
        args,
        i + 1,
        colon_call,
    ))
}

fn is_arg_accepted(
    db: &DbIndex,
    func: &LuaFunctionType,
    expr_type: &LuaType,
    arg_index: usize,
    is_colon_call: bool,
) -> (r: bool)
    requires
        arg_index < usize::MAX,
    ensures
        r == accepts_arg(db@, func@, expr_type@, arg_index as nat, is_colon_call),
{
    match get_call_param_index(func, arg_index, is_colon_call) {
        None => true,
        Some(param_index) => match get_func_param_type(func, param_index) {
            None => false,
            Some(param_type) => param_type.is_any() || is_surely_assignable(
                db,
                expr_type,
                &param_type,
            ),
        },
    }
}

/// Whether a function can be called with the given arguments.
pub fn callable_accepts_args(
    db: &DbIndex,
    func: &LuaFunctionType,
    expr_types: &[LuaType],
    is_colon_call: bool,
    arg_count: Option<usize>,
) -> (r: bool)
    ensures
        r == accepts(
            db@,
            func@,
            types::tys(expr_types@),
            is_colon_call,
            match arg_count {
                Some(n) => n as nat,
                None => expr_types@.len(),
            },
        ),
{
    assert(func@.params == types::named_tys(func.params@));
    let arg_count = match arg_count {
        Some(n) => n,
        None => expr_types.len(),
    };
    if func.params.len() < arg_count && !is_func_last_param_variadic(func) {
        return false;
    }
    let ghost all = types::tys(expr_types@);
    let mut i: usize = 0;
    while i < expr_types.len()
        invariant
            i <= expr_types@.len(),
            all == types::tys(expr_types@),
            accepts_from(db@, func@, all, 0, is_colon_call) == accepts_from(
                db@,
                func@,
                all,
                i as nat,
                is_colon_call,
            ),
        decreases expr_types@.len() - i,
    {
        assert(all[i as int] == expr_types@[i as int]@);
        if !is_arg_accepted(db, func, &expr_types[i], i, is_colon_call) {
            return false;
        }
        i += 1;
    }
    true
}

// ----------------------------------------------------------------------------
// Which parameter is more specific.

pub open spec fn is_wide(t: Ty) -> bool {
    t is Any || t is Unknown
}

/// The parameter is the very literal that is passed, and the other one its base type.
pub open spec fn is_literal_hit(arg: Ty, literal: Ty, base: Ty) -> bool {
    match literal {
        Ty::DocIntegerConst(i) => simple::integer_value(arg) == Some(i) && (base is Integer
            || base is Number),
        Ty::DocStringConst(s) => simple::string_value(arg) == Some(s) && base is String,
        Ty::DocBooleanConst(b) => simple::bool_value(arg) == Some(b) && base is Boolean,
        _ => false,
    }
}

pub open spec fn param_order(db: DbTy, a: Ty, b: Ty, arg: Ty) -> Specificity {
    if equality::ty_eq(a, b) {
        Specificity::Equal
    } else if is_literal_hit(arg, a, b) {
        Specificity::Greater
    } else if is_literal_hit(arg, b, a) {
        Specificity::Less
    } else if is_wide(a) && !is_wide(b) {
        Specificity::Less
    } else if !is_wide(a) && is_wide(b) {
        Specificity::Greater
    } else {
        let below = assignable::surely_fits(db, a, b);
        let above = assignable::surely_fits(db, b, a);
        if below && !above {
            Specificity::Greater
        } else if !below && above {
            Specificity::Less
        } else {
            Specificity::Equal
        }
    }
}

fn hits_literal(arg: &LuaType, literal: &LuaType, base: &LuaType) -> (r: bool)
    ensures
        r == is_literal_hit(arg@, literal@, base@),
{
    match literal {
        LuaType::DocIntegerConst(i) => {
            let same = match arg {
                LuaType::IntegerConst(x) => *x == *i,
                LuaType::DocIntegerConst(x) => *x == *i,
                _ => false,
            };
            same && matches!(base, LuaType::Integer | LuaType::Number)
        },
        LuaType::DocStringConst(s) => {
            let same = match arg {
                LuaType::StringConst(x) => text_is(x, s.as_str()),
                LuaType::DocStringConst(x) => text_is(x, s.as_str()),
                _ => false,
            };
            same && matches!(base, LuaType::String)
        },
        LuaType::DocBooleanConst(b) => {
            let same = match arg {
                LuaType::BooleanConst(x) => *x == *b,
                LuaType::DocBooleanConst(x) => *x == *b,
                _ => false,
            };
            same && matches!(base, LuaType::Boolean)
        },
        _ => false,
    }
}

/// Which of two parameters is the more specific one for an argument.
pub fn compare_param_specificity(db: &DbIndex, a: &LuaType, b: &LuaType, expr_type: &LuaType) -> (r:
    Specificity)
    ensures
        r == param_order(db@, a@, b@, expr_type@),
{
    if a.same(b) {
        return Specificity::Equal;
    }
    if hits_literal(expr_type, a, b) {
        return Specificity::Greater;
    }
    if hits_literal(expr_type, b, a) {
        return Specificity::Less;
    }
    let a_wide = a.is_any() || a.is_unknown();
    let b_wide = b.is_any() || b.is_unknown();
    if a_wide && !b_wide {
        return Specificity::Less;
    }
    if !a_wide && b_wide {
        return Specificity::Greater;
    }
    let a_sub_b = is_surely_assignable(db, a, b);
    let b_sub_a = is_surely_assignable(db, b, a);
    if a_sub_b && !b_sub_a {
        Specificity::Greater
    } else if !a_sub_b && b_sub_a {
        Specificity::Less
    } else {
        Specificity::Equal
    }
}

pub open spec fn reversed(s: Specificity) -> Specificity {
    match s {
        Specificity::Less => Specificity::Greater,
        Specificity::Equal => Specificity::Equal,
        Specificity::Greater => Specificity::Less,
    }
}

/// Turning the two parameters round turns the answer round.
pub proof fn param_order_is_antisymmetric(db: DbTy, a: Ty, b: Ty, arg: Ty)
    requires
        equality::ty_eq(a, b) == equality::ty_eq(b, a),
    ensures
        param_order(db, b, a, arg) == reversed(param_order(db, a, b, arg)),
{
}

// ----------------------------------------------------------------------------
// Which signature is more specific.

/// The argument says nothing about which signature is meant.
pub open spec fn is_silent_arg(args: Seq<Ty>, declined: Seq<bool>, i: int) -> bool {
    (i < declined.len() && declined[i]) || is_wide(args[i])
}

/// Which of two signatures is the more specific one, over the arguments from argument `i` on. None
/// where each is so for some argument.
pub open spec fn call_order(
    db: DbTy,
    a: FunctionTy,
    b: FunctionTy,
    args: Seq<Ty>,
    i: nat,
    so_far: Specificity,
    colon_call: bool,
    declined: Seq<bool>,
) -> Option<Specificity>
    decreases args.len() - i,
{
    if i >= args.len() {
        Some(so_far)
    } else if is_silent_arg(args, declined, i as int) {
        call_order(db, a, b, args, i + 1, so_far, colon_call, declined)
    } else {
        match param_place(a, i, colon_call) {
            None => None,
            Some(place) => match (param_type(a, place), param_type(b, place)) {
                (Some(pa), Some(pb)) => {
                    let order = param_order(db, pa, pb, args[i as int]);
                    if so_far == Specificity::Equal {
                        call_order(db, a, b, args, i + 1, order, colon_call, declined)
                    } else if order != Specificity::Equal && order != so_far {
                        None
                    } else {
                        call_order(db, a, b, args, i + 1, so_far, colon_call, declined)
                    }
                },
                _ => None,
            },
        }
    }
}

pub fn is_silent(expr_types: &[LuaType], declined: &[bool], i: usize) -> (r: bool)
    requires
        i < expr_types@.len(),
    ensures
        r == is_silent_arg(types::tys(expr_types@), declined@, i as int),
{
    assert(types::tys(expr_types@)[i as int] == expr_types@[i as int]@);
    (i < declined.len() && declined[i]) || expr_types[i].is_any() || expr_types[i].is_unknown()
}

/// Which of two signatures is the more specific one for the arguments of a call.
pub fn compare_callable_specificity(
    db: &DbIndex,
    a: &LuaFunctionType,
    b: &LuaFunctionType,
    expr_types: &[LuaType],
    is_colon_call: bool,
    declined_no_flow_args: &[bool],
) -> (r: Option<Specificity>)
    ensures
        r == call_order(
            db@,
            a@,
            b@,
            types::tys(expr_types@),
            0,
            Specificity::Equal,
            is_colon_call,
            declined_no_flow_args@,
        ),
{
    let ghost all = types::tys(expr_types@);
    let mut result = Specificity::Equal;
    let mut i: usize = 0;
    while i < expr_types.len()
        invariant
            i <= expr_types@.len(),
            all == types::tys(expr_types@),
            call_order(
                db@,
                a@,
                b@,
                all,
                0,
                Specificity::Equal,
                is_colon_call,
                declined_no_flow_args@,
            ) == call_order(
                db@,
                a@,
                b@,
                all,
                i as nat,
                result,
                is_colon_call,
                declined_no_flow_args@,
            ),
        decreases expr_types@.len() - i,
    {
        assert(all[i as int] == expr_types@[i as int]@);
        if !is_silent(expr_types, declined_no_flow_args, i) {
            let param_index = match get_call_param_index(a, i, is_colon_call) {
                Some(param_index) => param_index,
                None => {
                    return None;
                },
            };
            let a_param = match get_func_param_type(a, param_index) {
                Some(t) => t,
                None => {
                    return None;
                },
            };
            let b_param = match get_func_param_type(b, param_index) {
                Some(t) => t,
                None => {
                    return None;
                },
            };
            let order = compare_param_specificity(db, &a_param, &b_param, &expr_types[i]);
            if result == Specificity::Equal {
                result = order;
            } else if order != Specificity::Equal && order != result {
                return None;
            }
        }
        i += 1;
    }
    Some(result)
}

} // verus!
