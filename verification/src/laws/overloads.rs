//! Which signature a call goes to.

use vstd::prelude::*;

use crate::db::DbTy;
use crate::member::raw::InferFailReason;
use crate::overload::{params, resolve};
use crate::overload::params::{ParamMatchResult, Specificity};
use crate::overload::resolve::{ArgVerdict, CallShape, RoundTy, TailTy};
use crate::type_check::assignable;
use crate::types::{FunctionTy, Ty, equality, equivalence, predicates};

verus! {

/// No argument of the call was left out of consideration.
pub open spec fn none_declined(call: CallShape) -> bool {
    forall|i: int| 0 <= i < call.declined.len() ==> !(#[trigger] call.declined[i])
}

/// The signature has no parameter that takes the rest of the arguments.
pub open spec fn has_no_rest(f: FunctionTy) -> bool {
    forall|i: int| 0 <= i < f.params.len() ==> (#[trigger] f.params[i]).0 != "..."@
}

/// The signature and the call agree on how the receiver is passed, and each argument goes to the
/// parameter of its own place, which is declared with a type.
pub open spec fn lines_up(f: FunctionTy, call: CallShape) -> bool {
    &&& f.is_colon_define == call.colon_call
    &&& call.arg_count == call.args.len()
    &&& call.args.len() <= f.params.len()
    &&& has_no_rest(f)
    &&& forall|i: int| 0 <= i < f.params.len() ==> (#[trigger] f.params[i]).1 is Some
}

/// Each argument is known to fit the parameter of its place, or the parameter takes anything.
pub open spec fn takes_all(db: DbTy, f: FunctionTy, call: CallShape) -> bool {
    forall|i: int|
        0 <= i < call.args.len() ==> (#[trigger] f.params[i]).1.unwrap() is Any || assignable::surely_fits(
            db,
            call.args[i],
            f.params[i].1.unwrap(),
        )
}

/// The signature has too few parameters for the call, or some argument is not known to fit the
/// parameter of its place.
pub open spec fn turns_down(db: DbTy, f: FunctionTy, call: CallShape) -> bool {
    ||| f.params.len() < call.arg_count && has_no_rest(f)
    ||| lines_up(f, call) && exists|i: int|
        0 <= i < call.args.len() && !((#[trigger] f.params[i]).1.unwrap() is Any) && !assignable::surely_fits(
            db,
            call.args[i],
            f.params[i].1.unwrap(),
        )
}

// ----------------------------------------------------------------------------
// Where arguments go.

/// A method that is called as a function takes its receiver from the first argument; a function that
/// is called as a method gets its receiver as its first parameter; else each argument goes to the
/// parameter of its place.
pub proof fn arguments_go_to_their_parameters(f: FunctionTy, i: nat)
    ensures
        f.is_colon_define ==> params::param_place(f, 0, false) is None && params::param_place(f, i + 1, false) == Some(
            i,
        ) && params::param_place(f, i, true) == Some(i),
        !f.is_colon_define ==> params::param_place(f, i, false) == Some(i) && params::param_place(f, i, true) == Some(
            i + 1,
        ),
{
}

/// The type of a parameter is the declared one, or any; past the last one, that of the one that takes
/// the rest.
pub proof fn parameter_type_is_declared(f: FunctionTy, i: nat)
    ensures
        i < f.params.len() && f.params[i as int].1 is Some ==> params::param_type(f, i) == Some(
            f.params[i as int].1.unwrap(),
        ),
        i < f.params.len() && f.params[i as int].1 is None ==> params::param_type(f, i) == Some(Ty::Any),
        i >= f.params.len() && has_no_rest(f) ==> params::param_type(f, i) is None,
        i >= f.params.len() && f.params.len() > 0 && f.params[f.params.len() - 1].0 == "..."@
            && f.params[f.params.len() - 1].1 is Some ==> params::param_type(f, i)
            == f.params[f.params.len() - 1].1,
{
    if f.params.len() > 0 && has_no_rest(f) {
        assert(f.params[f.params.len() - 1].0 != "..."@);
    }
}

proof fn lemma_accepts_from(db: DbTy, f: FunctionTy, call: CallShape, i: nat)
    requires
        lines_up(f, call),
        takes_all(db, f, call),
    ensures
        params::accepts_from(db, f, call.args, i, call.colon_call),
    decreases call.args.len() - i,
{
    if i < call.args.len() {
        assert(f.params[i as int].1.unwrap() is Any || assignable::surely_fits(
            db,
            call.args[i as int],
            f.params[i as int].1.unwrap(),
        ));
        assert(f.params[i as int].1 is Some);
        lemma_accepts_from(db, f, call, i + 1);
    }
}

proof fn lemma_refuses_from(db: DbTy, f: FunctionTy, call: CallShape, i: nat, k: int)
    requires
        lines_up(f, call),
        i <= k < call.args.len(),
        !(f.params[k].1.unwrap() is Any),
        !assignable::surely_fits(db, call.args[k], f.params[k].1.unwrap()),
    ensures
        !params::accepts_from(db, f, call.args, i, call.colon_call),
    decreases k - i,
{
    assert(f.params[i as int].1 is Some);
    if i < k {
        lemma_refuses_from(db, f, call, i + 1, k);
    }
}

/// A signature accepts arguments if they all fit, and only then.
pub proof fn fitting_arguments_are_accepted(db: DbTy, f: FunctionTy, call: CallShape)
    requires
        lines_up(f, call) || (f.params.len() < call.arg_count && has_no_rest(f)),
    ensures
        lines_up(f, call) && takes_all(db, f, call) ==> params::accepts(
            db,
            f,
            call.args,
            call.colon_call,
            call.arg_count,
        ),
        turns_down(db, f, call) ==> !params::accepts(db, f, call.args, call.colon_call, call.arg_count),
{
    if f.params.len() > 0 && has_no_rest(f) {
        assert(f.params[f.params.len() - 1].0 != "..."@);
    }
    if lines_up(f, call) {
        if takes_all(db, f, call) {
            lemma_accepts_from(db, f, call, 0);
        }
        if turns_down(db, f, call) {
            let k = choose|i: int|
                0 <= i < call.args.len() && !((#[trigger] f.params[i]).1.unwrap() is Any)
                    && !assignable::surely_fits(db, call.args[i], f.params[i].1.unwrap());
            lemma_refuses_from(db, f, call, 0, k);
        }
    }
}

// ----------------------------------------------------------------------------
// The rounds.

spec fn stays(db: DbTy, f: FunctionTy, call: CallShape, i: nat) -> bool {
    match resolve::arg_verdict(db, f, call, i) {
        ArgVerdict::Passes => true,
        ArgVerdict::Drops => false,
        ArgVerdict::Fits(m) => m != ParamMatchResult::Not,
    }
}

spec fn is_met(db: DbTy, f: FunctionTy, call: CallShape, i: nat) -> bool {
    match resolve::arg_verdict(db, f, call, i) {
        ArgVerdict::Fits(m) => m != ParamMatchResult::Not,
        _ => false,
    }
}

/// A round drops the signatures that the argument does not fit, and no others.
proof fn lemma_arg_round(db: DbTy, r: RoundTy, call: CallShape, i: nat, j: nat)
    requires
        j <= r.funcs.len(),
    ensures
        ({
            let after = resolve::arg_round(db, r, call, i, j);
            &&& after.funcs.len() == r.funcs.len()
            &&& forall|k: int|
                0 <= k < r.funcs.len() ==> #[trigger] after.funcs[k] == if k >= j && r.funcs[k] is Some
                    && !stays(db, r.funcs[k].unwrap(), call, i) {
                    None
                } else {
                    r.funcs[k]
                }
            &&& after.level == ParamMatchResult::Not <==> r.level == ParamMatchResult::Not && forall|
                k: int,
            |
                j <= k < r.funcs.len() && (#[trigger] r.funcs[k]) is Some ==> !is_met(
                    db,
                    r.funcs[k].unwrap(),
                    call,
                    i,
                )
        }),
    decreases r.funcs.len() - j,
{
    if j < r.funcs.len() {
        match r.funcs[j as int] {
            None => lemma_arg_round(db, r, call, i, j + 1),
            Some(f) => {
                let next = resolve::with_verdict(r, j as int, f, resolve::arg_verdict(db, f, call, i));
                lemma_arg_round(db, next, call, i, j + 1);
                let after = resolve::arg_round(db, r, call, i, j);
                assert(after == resolve::arg_round(db, next, call, i, j + 1));
                assert forall|k: int| 0 <= k < r.funcs.len() implies #[trigger] after.funcs[k] == if k
                    >= j && r.funcs[k] is Some && !stays(db, r.funcs[k].unwrap(), call, i) {
                    None
                } else {
                    r.funcs[k]
                } by {
                    if k != j {
                        assert(next.funcs[k] == r.funcs[k]);
                    }
                }
                assert forall|k: int| j < k < r.funcs.len() implies #[trigger] r.funcs[k] == next.funcs[k] by {}
                if is_met(db, f, call, i) {
                    assert(next.level != ParamMatchResult::Not);
                } else {
                    assert(next.level == r.level);
                }
                if after.level == ParamMatchResult::Not {
                    assert forall|k: int|
                        j <= k < r.funcs.len() && (#[trigger] r.funcs[k]) is Some implies !is_met(
                        db,
                        r.funcs[k].unwrap(),
                        call,
                        i,
                    ) by {
                        if k > j {
                            assert(next.funcs[k] == r.funcs[k]);
                        }
                    }
                }
            },
        }
    }
}

/// A signature that every argument fits stays to the end, and one that some argument does not fit
/// does not.
proof fn lemma_arg_rounds(
    db: DbTy,
    funcs: Seq<Option<FunctionTy>>,
    best: FunctionTy,
    call: CallShape,
    i: nat,
    k: int,
)
    requires
        0 <= k < funcs.len(),
        funcs[k] is Some,
        forall|n: nat| i <= n < call.args.len() ==> #[trigger] is_met(
            db,
            funcs[k].unwrap(),
            call,
            n,
        ),
    ensures
        ({
            let after = resolve::arg_rounds(db, funcs, best, call, i).0;
            &&& after.len() == funcs.len()
            &&& after[k] == funcs[k]
            &&& forall|j: int|
                0 <= j < funcs.len() ==> #[trigger] after[j] == if funcs[j] is Some && (exists|n: nat|
                    i <= n < call.args.len() && !(#[trigger] stays(
                        db,
                        funcs[j].unwrap(),
                        call,
                        n,
                    ))) {
                    None
                } else {
                    funcs[j]
                }
        }),
    decreases call.args.len() - i,
{
    if i < call.args.len() {
        let start = RoundTy { funcs, best, level: ParamMatchResult::Not };
        let r = resolve::arg_round(db, start, call, i, 0);
        lemma_arg_round(db, start, call, i, 0);
        assert(is_met(db, funcs[k].unwrap(), call, i));
        assert(start.funcs[k] is Some);
        assert(r.level != ParamMatchResult::Not);
        assert(r.funcs[k] == funcs[k]);
        lemma_arg_rounds(db, r.funcs, r.best, call, i + 1, k);
        let after = resolve::arg_rounds(db, funcs, best, call, i).0;
        assert forall|j: int| 0 <= j < funcs.len() implies #[trigger] after[j] == if funcs[j] is Some
            && (exists|n: nat|
            i <= n < call.args.len() && !(#[trigger] stays(db, funcs[j].unwrap(), call, n))) {
            None
        } else {
            funcs[j]
        } by {
            if funcs[j] is Some {
                let f = funcs[j].unwrap();
                if !stays(db, f, call, i) {
                    assert(r.funcs[j] is None);
                    assert(after[j] is None);
                } else {
                    assert(r.funcs[j] == funcs[j]);
                    if exists|n: nat| i <= n < call.args.len() && !(#[trigger] stays(db, f, call, n)) {
                        let n = choose|n: nat|
                            i <= n < call.args.len() && !(#[trigger] stays(db, f, call, n));
                        assert(n != i);
                        assert(i + 1 <= n < call.args.len() && !stays(db, f, call, n));
                    }
                }
            } else {
                assert(r.funcs[j] == funcs[j]);
            }
        }
    }
}

proof fn lemma_met(db: DbTy, f: FunctionTy, call: CallShape, i: nat)
    requires
        lines_up(f, call),
        none_declined(call),
        i < call.args.len(),
    ensures
        stays(db, f, call, i) == is_met(db, f, call, i),
        is_met(db, f, call, i) == (f.params[i as int].1.unwrap() is Any || assignable::surely_fits(
            db,
            call.args[i as int],
            f.params[i as int].1.unwrap(),
        )),
{
    assert(f.params[i as int].1 is Some);
    if i < call.declined.len() {
        assert(!call.declined[i as int]);
    }
}

proof fn lemma_remaining_one(funcs: Seq<Option<FunctionTy>>, k: int)
    requires
        0 <= k < funcs.len(),
        funcs[k] is Some,
        forall|j: int| 0 <= j < funcs.len() && j != k ==> (#[trigger] funcs[j]) is None,
    ensures
        resolve::remaining(funcs) == seq![funcs[k].unwrap()],
    decreases funcs.len(),
{
    let front = funcs.drop_last();
    if k < front.len() {
        assert(front[k] == funcs[k]);
        assert forall|j: int| 0 <= j < front.len() && j != k implies (#[trigger] front[j]) is None by {
            assert(front[j] == funcs[j]);
        }
        lemma_remaining_one(front, k);
        assert(funcs[funcs.len() - 1] is None);
    } else {
        assert forall|j: int| 0 <= j < front.len() implies (#[trigger] front[j]) is None by {
            assert(front[j] == funcs[j]);
        }
        lemma_remaining_none(front);
        assert(resolve::remaining(funcs) =~= seq![funcs[k].unwrap()]);
    }
}

proof fn lemma_remaining_none(funcs: Seq<Option<FunctionTy>>)
    requires
        forall|j: int| 0 <= j < funcs.len() ==> (#[trigger] funcs[j]) is None,
    ensures
        resolve::remaining(funcs) == Seq::<FunctionTy>::empty(),
    decreases funcs.len(),
{
    if funcs.len() > 0 {
        let front = funcs.drop_last();
        assert forall|j: int| 0 <= j < front.len() implies (#[trigger] front[j]) is None by {
            assert(front[j] == funcs[j]);
        }
        assert(funcs[funcs.len() - 1] is None);
        lemma_remaining_none(front);
    }
}

proof fn lemma_remaining_all(funcs: Seq<FunctionTy>)
    ensures
        resolve::remaining(resolve::all_some(funcs)) == funcs,
    decreases funcs.len(),
{
    if funcs.len() > 0 {
        let front = funcs.drop_last();
        assert(resolve::all_some(funcs).drop_last() =~= resolve::all_some(front));
        lemma_remaining_all(front);
        assert(front.push(funcs.last()) =~= funcs);
    } else {
        assert(resolve::remaining(resolve::all_some(funcs)) =~= funcs);
    }
}

proof fn lemma_turned_down(db: DbTy, f: FunctionTy, call: CallShape)
    requires
        turns_down(db, f, call),
        none_declined(call),
        call.args.len() > 0,
    ensures
        exists|n: nat| 0 <= n < call.args.len() && !(#[trigger] stays(db, f, call, n)),
{
    if f.params.len() < call.arg_count && has_no_rest(f) {
        if f.params.len() > 0 {
            assert(f.params[f.params.len() - 1].0 != "..."@);
        }
        assert(!stays(db, f, call, 0));
    } else {
        let k = choose|i: int|
            0 <= i < call.args.len() && !((#[trigger] f.params[i]).1.unwrap() is Any)
                && !assignable::surely_fits(db, call.args[i], f.params[i].1.unwrap());
        lemma_met(db, f, call, k as nat);
        assert(!stays(db, f, call, k as nat));
    }
}

proof fn lemma_all_met(db: DbTy, f: FunctionTy, call: CallShape)
    requires
        lines_up(f, call),
        takes_all(db, f, call),
        none_declined(call),
    ensures
        forall|n: nat| 0 <= n < call.args.len() ==> #[trigger] is_met(db, f, call, n),
        forall|n: nat| 0 <= n < call.args.len() ==> #[trigger] stays(db, f, call, n),
{
    assert forall|n: nat| 0 <= n < call.args.len() implies #[trigger] is_met(db, f, call, n) by {
        lemma_met(db, f, call, n);
        assert(f.params[n as int].1.unwrap() is Any || assignable::surely_fits(
            db,
            call.args[n as int],
            f.params[n as int].1.unwrap(),
        ));
    }
    assert forall|n: nat| 0 <= n < call.args.len() implies #[trigger] stays(db, f, call, n) by {
        assert(is_met(db, f, call, n));
    }
}

/// Where one signature takes all arguments and every other one turns one of them down, the call goes
/// to the one, wherever it is listed.
pub proof fn only_fitting_signature_is_called(
    db: DbTy,
    overloads: Seq<FunctionTy>,
    call: CallShape,
    k: int,
)
    requires
        0 <= k < overloads.len(),
        call.args.len() > 0,
        none_declined(call),
        lines_up(overloads[k], call),
        takes_all(db, overloads[k], call),
        forall|j: int|
            0 <= j < overloads.len() && j != k ==> turns_down(db, #[trigger] overloads[j], call),
    ensures
        resolve::resolved(db, overloads, call) == Ok::<FunctionTy, InferFailReason>(overloads[k]),
{
    let f = overloads[k];
    lemma_all_met(db, f, call);
    let funcs = resolve::all_some(overloads);
    assert(funcs[k] == Some(f));
    lemma_arg_rounds(db, funcs, overloads[0], call, 0, k);
    let after = resolve::arg_rounds(db, funcs, overloads[0], call, 0).0;
    assert forall|j: int| 0 <= j < after.len() && j != k implies (#[trigger] after[j]) is None by {
        assert(funcs[j] == Some(overloads[j]));
        assert(turns_down(db, overloads[j], call));
        lemma_turned_down(db, overloads[j], call);
        let n = choose|n: nat|
            0 <= n < call.args.len() && !(#[trigger] stays(db, overloads[j], call, n));
        assert(!stays(db, funcs[j].unwrap(), call, n));
    }
    lemma_remaining_one(after, k);
}

proof fn lemma_both_stay(db: DbTy, a: FunctionTy, b: FunctionTy, call: CallShape)
    requires
        none_declined(call),
        lines_up(a, call),
        lines_up(b, call),
        takes_all(db, a, call),
        takes_all(db, b, call),
    ensures
        resolve::remaining(resolve::arg_rounds(db, resolve::all_some(seq![a, b]), a, call, 0).0) == seq![a, b],
{
    lemma_all_met(db, a, call);
    lemma_all_met(db, b, call);
    let funcs = resolve::all_some(seq![a, b]);
    assert(funcs[0] == Some(a) && funcs[1] == Some(b));
    lemma_arg_rounds(db, funcs, a, call, 0, 0);
    let after = resolve::arg_rounds(db, funcs, a, call, 0).0;
    assert(after[1] == funcs[1]);
    assert(after =~= funcs);
    lemma_remaining_all(seq![a, b]);
}

/// At each argument the two signatures have the same parameter type.
pub open spec fn same_parameters(f: FunctionTy, g: FunctionTy, call: CallShape) -> bool {
    forall|i: int|
        0 <= i < call.args.len() ==> (#[trigger] f.params[i]).1 == g.params[i].1 && equivalence::is_sound(
            f.params[i].1.unwrap(),
        )
}

proof fn lemma_same_order(db: DbTy, f: FunctionTy, g: FunctionTy, call: CallShape, i: nat)
    requires
        lines_up(f, call),
        lines_up(g, call),
        same_parameters(f, g, call),
    ensures
        params::call_order(
            db,
            f,
            g,
            call.args,
            i,
            Specificity::Equal,
            call.colon_call,
            call.declined,
        ) == Some(Specificity::Equal),
    decreases call.args.len() - i,
{
    if i < call.args.len() {
        assert(f.params[i as int].1 == g.params[i as int].1);
        assert(f.params[i as int].1 is Some);
        equivalence::equality_is_reflexive(f.params[i as int].1.unwrap());
        lemma_same_order(db, f, g, call, i + 1);
    }
}

/// Where the arguments fit two signatures equally well, and one has exactly as many parameters as
/// there are arguments while the other still lacks one, the call goes to the former, in whatever order
/// they are listed.
pub proof fn signature_without_a_missing_argument_is_called(
    db: DbTy,
    f: FunctionTy,
    g: FunctionTy,
    call: CallShape,
)
    requires
        none_declined(call),
        lines_up(f, call),
        lines_up(g, call),
        takes_all(db, f, call),
        takes_all(db, g, call),
        same_parameters(f, g, call),
        f.params.len() == call.args.len(),
        g.params.len() > call.args.len(),
    ensures
        resolve::resolved(db, seq![f, g], call) == Ok::<FunctionTy, InferFailReason>(f),
        resolve::resolved(db, seq![g, f], call) == Ok::<FunctionTy, InferFailReason>(f),
{
    let n = call.args.len();
    assert(!resolve::any_declined(call.declined));
    assert(g.params[n as int].1 is Some);
    if f.params.len() > 0 {
        assert(f.params[f.params.len() - 1].0 != "..."@);
    }
    assert(g.params[g.params.len() - 1].0 != "..."@);
    reveal_with_fuel(resolve::first_without_params, 3);
    assert(seq![g, f].skip(1)[0] == f);
    if n > 0 {
        lemma_both_stay(db, f, g, call);
        lemma_both_stay(db, g, f, call);
        lemma_same_order(db, f, g, call, 0);
        assert(same_parameters(g, f, call)) by {
            assert forall|i: int| 0 <= i < call.args.len() implies (#[trigger] g.params[i]).1
                == f.params[i].1 && equivalence::is_sound(g.params[i].1.unwrap()) by {
                assert(f.params[i].1 == g.params[i].1);
            }
        }
        lemma_same_order(db, g, f, call, 0);
        reveal_with_fuel(resolve::most_specific, 3);
        reveal_with_fuel(resolve::most_params, 3);
        reveal_with_fuel(resolve::tail_round, 3);
        reveal_with_fuel(resolve::tail_rounds, 2);
        assert(seq![f, g].drop_last() =~= seq![f]);
        assert(seq![g, f].drop_last() =~= seq![g]);
        assert(seq![f].drop_last() =~= Seq::<FunctionTy>::empty());
        assert(seq![g].drop_last() =~= Seq::<FunctionTy>::empty());
        assert(resolve::most_params(seq![f, g]) == g.params.len());
        assert(resolve::most_params(seq![g, f]) == g.params.len());
        assert(resolve::chosen(db, seq![f, g], call) is None);
        assert(resolve::chosen(db, seq![g, f], call) is None);
        assert(resolve::all_some(seq![f, g])[0] == Some(f));
        assert(resolve::all_some(seq![g, f])[0] == Some(g));
        assert(resolve::all_some(seq![g, f])[1] == Some(f));
    }
}

/// The one type is the literal that is passed, or a narrower type than the other.
pub open spec fn is_nearer(db: DbTy, a: Ty, b: Ty, arg: Ty) -> bool {
    ||| match a {
        Ty::DocStringConst(s) => b is String && (arg == Ty::StringConst(s) || arg
            == Ty::DocStringConst(s)),
        Ty::DocIntegerConst(i) => (b is Integer || b is Number) && (arg == Ty::IntegerConst(i)
            || arg == Ty::DocIntegerConst(i)),
        Ty::DocBooleanConst(x) => b is Boolean && (arg == Ty::BooleanConst(x) || arg
            == Ty::DocBooleanConst(x)),
        _ => false,
    }
    ||| !(a is Any) && !(a is Unknown) && (b is Any || b is Unknown)
    ||| a is Ref && b is Ref && a != b && assignable::surely_fits(db, a, b) && !assignable::surely_fits(db, b, a)
}

/// A parameter that is the passed literal goes before its base type, a known type before any, and a
/// narrower class before a wider one.
pub proof fn nearer_parameter_goes_first(db: DbTy, a: Ty, b: Ty, arg: Ty)
    requires
        is_nearer(db, a, b, arg),
    ensures
        params::param_order(db, a, b, arg) == Specificity::Greater,
        params::param_order(db, b, a, arg) == Specificity::Less,
{
}

/// Where two signatures take a single argument, the call goes to the one whose parameter is nearer to
/// it, in whatever order they are listed.
pub proof fn nearer_signature_is_called(db: DbTy, f: FunctionTy, g: FunctionTy, call: CallShape)
    requires
        none_declined(call),
        lines_up(f, call),
        lines_up(g, call),
        takes_all(db, f, call),
        takes_all(db, g, call),
        call.args.len() == 1,
        !(call.args[0] is Any),
        !(call.args[0] is Unknown),
        is_nearer(db, f.params[0].1.unwrap(), g.params[0].1.unwrap(), call.args[0]),
    ensures
        resolve::resolved(db, seq![f, g], call) == Ok::<FunctionTy, InferFailReason>(f),
        resolve::resolved(db, seq![g, f], call) == Ok::<FunctionTy, InferFailReason>(f),
{
    assert(!resolve::any_declined(call.declined));
    lemma_both_stay(db, f, g, call);
    lemma_both_stay(db, g, f, call);
    nearer_parameter_goes_first(db, f.params[0].1.unwrap(), g.params[0].1.unwrap(), call.args[0]);
    assert(f.params[0].1 is Some && g.params[0].1 is Some);
    reveal_with_fuel(params::call_order, 3);
    reveal_with_fuel(resolve::most_specific, 3);
    assert(!params::is_silent_arg(call.args, call.declined, 0)) by {
        if 0 < call.declined.len() {
            assert(!call.declined[0]);
        }
    }
    assert(!resolve::all_silent(call));
    assert(seq![f, g][1] == g && seq![g, f][1] == f);
}

/// Where nothing is passed, the first signature without parameters is called.
pub proof fn call_without_arguments_goes_to_one_without_parameters(
    db: DbTy,
    overloads: Seq<FunctionTy>,
    call: CallShape,
    k: int,
)
    requires
        overloads.len() > 1,
        call.args.len() == 0,
        0 <= k < overloads.len(),
        overloads[k].params.len() == 0,
        forall|j: int| 0 <= j < k ==> (#[trigger] overloads[j]).params.len() > 0,
    ensures
        resolve::resolved(db, overloads, call) == Ok::<FunctionTy, InferFailReason>(overloads[k]),
{
    lemma_first_without_params(overloads, k);
}

proof fn lemma_first_without_params(funcs: Seq<FunctionTy>, k: int)
    requires
        0 <= k < funcs.len(),
        funcs[k].params.len() == 0,
        forall|j: int| 0 <= j < k ==> (#[trigger] funcs[j]).params.len() > 0,
    ensures
        resolve::first_without_params(funcs) == Some(funcs[k]),
    decreases k,
{
    if k > 0 {
        assert(funcs[0].params.len() > 0);
        let rest = funcs.skip(1);
        assert(rest[k - 1] == funcs[k]);
        assert forall|j: int| 0 <= j < k - 1 implies (#[trigger] rest[j]).params.len() > 0 by {
            assert(rest[j] == funcs[j + 1]);
        }
        lemma_first_without_params(rest, k - 1);
    }
}

/// Where the first argument fits no signature, the first one listed is called; without signatures
/// there is no call.
pub proof fn first_signature_is_the_last_resort(
    db: DbTy,
    overloads: Seq<FunctionTy>,
    call: CallShape,
)
    requires
        none_declined(call),
        call.args.len() > 0,
        forall|j: int|
            0 <= j < overloads.len() ==> lines_up(#[trigger] overloads[j], call) && !(
            overloads[j].params[0].1.unwrap() is Any) && !assignable::surely_fits(
                db,
                call.args[0],
                overloads[j].params[0].1.unwrap(),
            ),
    ensures
        overloads.len() > 0 ==> resolve::resolved(db, overloads, call) == Ok::<FunctionTy, InferFailReason>(
            overloads[0],
        ),
        overloads.len() == 0 ==> resolve::resolved(db, overloads, call) == Err::<FunctionTy, InferFailReason>(
            InferFailReason::Unsupported,
        ),
{
    assert(!resolve::any_declined(call.declined));
    if overloads.len() > 1 {
        let funcs = resolve::all_some(overloads);
        let start = RoundTy { funcs, best: overloads[0], level: ParamMatchResult::Not };
        lemma_arg_round(db, start, call, 0, 0);
        assert forall|k: int| 0 <= k < funcs.len() && (#[trigger] start.funcs[k]) is Some implies !is_met(
            db,
            start.funcs[k].unwrap(),
            call,
            0,
        ) && !stays(db, start.funcs[k].unwrap(), call, 0) by {
            assert(lines_up(overloads[k], call));
            lemma_met(db, overloads[k], call, 0);
        }
        let r = resolve::arg_round(db, start, call, 0, 0);
        assert(r.level == ParamMatchResult::Not);
        lemma_best_unchanged(db, start, call, 0, 0);
        assert forall|k: int| 0 <= k < r.funcs.len() implies (#[trigger] r.funcs[k]) is None by {
            assert(start.funcs[k] == Some(overloads[k]));
        }
        lemma_remaining_none(r.funcs);
    }
}

proof fn lemma_best_unchanged(db: DbTy, r: RoundTy, call: CallShape, i: nat, j: nat)
    requires
        r.level == ParamMatchResult::Not,
        forall|k: int|
            j <= k < r.funcs.len() && (#[trigger] r.funcs[k]) is Some ==> !is_met(
                db,
                r.funcs[k].unwrap(),
                call,
                i,
            ),
    ensures
        resolve::arg_round(db, r, call, i, j).best == r.best,
    decreases r.funcs.len() - j,
{
    if j < r.funcs.len() {
        match r.funcs[j as int] {
            None => lemma_best_unchanged(db, r, call, i, j + 1),
            Some(f) => {
                let next = resolve::with_verdict(r, j as int, f, resolve::arg_verdict(db, f, call, i));
                assert(!is_met(db, f, call, i));
                assert forall|k: int|
                    j + 1 <= k < next.funcs.len() && (#[trigger] next.funcs[k]) is Some implies !is_met(
                    db,
                    next.funcs[k].unwrap(),
                    call,
                    i,
                ) by {
                    assert(next.funcs[k] == r.funcs[k]);
                }
                lemma_best_unchanged(db, next, call, i, j + 1);
            },
        }
    }
}

/// A signature whose last parameter takes the rest accepts any number of arguments that fit it.
pub proof fn rest_takes_all_that_fit(
    db: DbTy,
    f: FunctionTy,
    rest: Ty,
    args: Seq<Ty>,
)
    requires
        f.params == seq![("..."@, Some(rest))],
        !f.is_colon_define,
        !(rest is Any),
    ensures
        params::accepts(db, f, args, false, args.len()) == forall|i: int|
            0 <= i < args.len() ==> assignable::surely_fits(db, #[trigger] args[i], rest),
{
    assert(f.params[0] == ("..."@, Some(rest)));
    assert(params::last_is_rest(f));
    lemma_rest_takes(db, f, rest, args, 0);
}

proof fn lemma_rest_takes(db: DbTy, f: FunctionTy, rest: Ty, args: Seq<Ty>, k: nat)
    requires
        f.params == seq![("..."@, Some(rest))],
        f.params[0] == ("..."@, Some(rest)),
        !f.is_colon_define,
        !(rest is Any),
    ensures
        params::accepts_from(db, f, args, k, false) == forall|i: int|
            k <= i < args.len() ==> assignable::surely_fits(db, #[trigger] args[i], rest),
    decreases args.len() - k,
{
    if k < args.len() {
        lemma_rest_takes(db, f, rest, args, k + 1);
        assert(params::param_type(f, k) == Some(rest));
        if forall|i: int| k <= i < args.len() ==> assignable::surely_fits(db, #[trigger] args[i], rest) {
            assert(assignable::surely_fits(db, args[k as int], rest));
        }
        if params::accepts_from(db, f, args, k, false) {
            assert forall|i: int| k <= i < args.len() implies assignable::surely_fits(
                db,
                #[trigger] args[i],
                rest,
            ) by {}
        }
    }
}

/// Where arguments were left out of consideration, the first signature is called if all that are left
/// give the same, and else none is.
pub proof fn open_call_is_settled_by_agreement(f: FunctionTy, g: FunctionTy)
    ensures
        resolve::agreed(Seq::empty()) is Err,
        resolve::agreed(seq![f]) == Ok::<FunctionTy, InferFailReason>(f),
        equality::ty_eq(g.ret, f.ret) ==> resolve::agreed(seq![f, g]) == Ok::<FunctionTy, InferFailReason>(f),
        !equality::ty_eq(g.ret, f.ret) ==> resolve::agreed(seq![f, g]) == Err::<FunctionTy, InferFailReason>(
            InferFailReason::Unsupported,
        ),
{
    assert(seq![f, g][1] == g);
}

/// Where the arguments fit two signatures equally well and each has one more parameter, the call goes
/// to the one whose parameter may be left out, in whatever order they are listed.
pub proof fn signature_whose_rest_may_be_left_out_is_called(
    db: DbTy,
    f: FunctionTy,
    g: FunctionTy,
    call: CallShape,
)
    requires
        none_declined(call),
        lines_up(f, call),
        lines_up(g, call),
        takes_all(db, f, call),
        takes_all(db, g, call),
        same_parameters(f, g, call),
        f.params.len() == call.args.len() + 1,
        g.params.len() == call.args.len() + 1,
        predicates::ty_is_nullable(f.params[call.args.len() as int].1.unwrap()),
        !(g.params[call.args.len() as int].1.unwrap() is Any),
        !predicates::ty_is_nullable(g.params[call.args.len() as int].1.unwrap()),
    ensures
        resolve::resolved(db, seq![f, g], call) == Ok::<FunctionTy, InferFailReason>(f),
        resolve::resolved(db, seq![g, f], call) == Ok::<FunctionTy, InferFailReason>(f),
{
    let n = call.args.len();
    assert(!resolve::any_declined(call.declined));
    assert(g.params[n as int].1 is Some && f.params[n as int].1 is Some);
    assert(f.params[f.params.len() - 1].0 != "..."@);
    assert(g.params[g.params.len() - 1].0 != "..."@);
    reveal_with_fuel(resolve::first_without_params, 3);
    assert(seq![g, f].skip(1)[0] == f && seq![f, g].skip(1)[0] == g);
    assert(seq![g, f].skip(1).skip(1) =~= Seq::<FunctionTy>::empty());
    assert(seq![f, g].skip(1).skip(1) =~= Seq::<FunctionTy>::empty());
    lemma_both_stay(db, f, g, call);
    lemma_both_stay(db, g, f, call);
    lemma_same_order(db, f, g, call, 0);
    assert(same_parameters(g, f, call)) by {
        assert forall|i: int| 0 <= i < call.args.len() implies (#[trigger] g.params[i]).1
            == f.params[i].1 && equivalence::is_sound(g.params[i].1.unwrap()) by {
            assert(f.params[i].1 == g.params[i].1);
        }
    }
    lemma_same_order(db, g, f, call, 0);
    reveal_with_fuel(resolve::most_specific, 3);
    reveal_with_fuel(resolve::most_params, 3);
    reveal_with_fuel(resolve::tail_round, 4);
    reveal_with_fuel(resolve::tail_rounds, 2);
    assert(seq![f, g].drop_last() =~= seq![f]);
    assert(seq![g, f].drop_last() =~= seq![g]);
    assert(seq![f].drop_last() =~= Seq::<FunctionTy>::empty());
    assert(seq![g].drop_last() =~= Seq::<FunctionTy>::empty());
    assert(resolve::most_params(seq![f, g]) == n + 1 && resolve::most_params(seq![g, f]) == n + 1);
    assert(resolve::chosen(db, seq![f, g], call) is None && resolve::chosen(db, seq![g, f], call) is None);
    let best = resolve::arg_rounds(db, resolve::all_some(seq![g, f]), g, call, 0).1;
    let first = RoundTy { funcs: resolve::all_some(seq![g, f]), best, level: ParamMatchResult::Not };
    assert(first.funcs[0] == Some(g) && first.funcs[1] == Some(f));
    assert(resolve::tail_round(first, call, n, 0) == TailTy::Won(f));
    let other = resolve::arg_rounds(db, resolve::all_some(seq![f, g]), f, call, 0).1;
    let second = RoundTy { funcs: resolve::all_some(seq![f, g]), best: other, level: ParamMatchResult::Not };
    assert(second.funcs[0] == Some(f) && second.funcs[1] == Some(g));
    assert(resolve::tail_round(second, call, n, 0) matches TailTy::Open(r) && r.best == f && r.level
        == ParamMatchResult::Type);
}

/// An argument that was left out of consideration and is not known decides nothing: where two
/// signatures take it, the first one is called if they give the same, and else none is.
pub proof fn unknown_argument_decides_nothing(
    db: DbTy,
    f: FunctionTy,
    g: FunctionTy,
    call: CallShape,
)
    requires
        call.args == seq![Ty::Unknown],
        call.arg_count == 1,
        call.declined == seq![true],
        lines_up(f, call),
        lines_up(g, call),
        f.params.len() == 1,
        g.params.len() == 1,
    ensures
        equality::ty_eq(g.ret, f.ret) ==> resolve::resolved(db, seq![f, g], call) == Ok::<FunctionTy, InferFailReason>(
            f,
        ),
        !equality::ty_eq(g.ret, f.ret) ==> resolve::resolved(db, seq![f, g], call) == Err::<
            FunctionTy,
            InferFailReason,
        >(InferFailReason::Unsupported),
{
    assert(f.params[0].1 is Some && g.params[0].1 is Some);
    assert(f.params[0].0 != "..."@ && g.params[0].0 != "..."@);
    assert(call.declined[0] && call.args[0] is Unknown);
    assert(resolve::any_declined(call.declined));
    assert(is_met(db, f, call, 0) && is_met(db, g, call, 0));
    assert(stays(db, g, call, 0));
    let funcs = resolve::all_some(seq![f, g]);
    assert(funcs[0] == Some(f) && funcs[1] == Some(g));
    lemma_arg_rounds(db, funcs, f, call, 0, 0);
    let (after, best) = resolve::arg_rounds(db, funcs, f, call, 0);
    assert(after[1] == funcs[1]);
    assert(after =~= funcs);
    lemma_remaining_all(seq![f, g]);
    reveal_with_fuel(resolve::most_params, 3);
    assert(seq![f, g].drop_last() =~= seq![f]);
    assert(seq![f].drop_last() =~= Seq::<FunctionTy>::empty());
    assert(resolve::most_params(seq![f, g]) == 1);
    open_call_is_settled_by_agreement(f, g);
}

} // verus!
