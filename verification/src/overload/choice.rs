//! What holds of the signature that is chosen.

use vstd::prelude::*;

use crate::db::DbTy;
use crate::overload::resolve;
use crate::overload::params::ParamMatchResult;
use crate::overload::resolve::{ArgVerdict, CallShape, RoundTy, TailTy, TailVerdict};
use crate::types::FunctionTy;

verus! {

/// Every signature that is still in question is one of a list.
spec fn still_given(funcs: Seq<Option<FunctionTy>>, all: Seq<FunctionTy>) -> bool {
    forall|j: int| 0 <= j < funcs.len() && (#[trigger] funcs[j]) is Some ==> all.contains(
        funcs[j].unwrap(),
    )
}

spec fn listed(funcs: Seq<FunctionTy>, all: Seq<FunctionTy>) -> bool {
    forall|j: int| 0 <= j < funcs.len() ==> all.contains(#[trigger] funcs[j])
}

proof fn lemma_arg_round_within(
    db: DbTy,
    r: RoundTy,
    call: CallShape,
    i: nat,
    j: nat,
    all: Seq<FunctionTy>,
)
    requires
        still_given(r.funcs, all),
        all.contains(r.best),
    ensures
        still_given(resolve::arg_round(db, r, call, i, j).funcs, all),
        all.contains(resolve::arg_round(db, r, call, i, j).best),
    decreases r.funcs.len() - j,
{
    if j < r.funcs.len() {
        match r.funcs[j as int] {
            None => lemma_arg_round_within(db, r, call, i, j + 1, all),
            Some(f) => {
                let next = resolve::with_verdict(r, j as int, f, resolve::arg_verdict(db, f, call, i));
                lemma_arg_round_within(db, next, call, i, j + 1, all);
            },
        }
    }
}

proof fn lemma_arg_rounds_within(
    db: DbTy,
    funcs: Seq<Option<FunctionTy>>,
    best: FunctionTy,
    call: CallShape,
    i: nat,
    all: Seq<FunctionTy>,
)
    requires
        still_given(funcs, all),
        all.contains(best),
    ensures
        still_given(resolve::arg_rounds(db, funcs, best, call, i).0, all),
        all.contains(resolve::arg_rounds(db, funcs, best, call, i).1),
    decreases call.args.len() - i,
{
    if i < call.args.len() {
        let start = RoundTy { funcs, best, level: ParamMatchResult::Not };
        lemma_arg_round_within(db, start, call, i, 0, all);
        let r = resolve::arg_round(db, start, call, i, 0);
        if r.level != ParamMatchResult::Not {
            lemma_arg_rounds_within(db, r.funcs, r.best, call, i + 1, all);
        }
    }
}

proof fn lemma_remaining_listed(funcs: Seq<Option<FunctionTy>>, all: Seq<FunctionTy>)
    requires
        still_given(funcs, all),
    ensures
        listed(resolve::remaining(funcs), all),
    decreases funcs.len(),
{
    if funcs.len() > 0 {
        assert(still_given(funcs.drop_last(), all)) by {
            assert forall|j: int|
                0 <= j < funcs.len() - 1 && (#[trigger] funcs.drop_last()[j]) is Some implies all.contains(
                funcs.drop_last()[j].unwrap(),
            ) by {
                assert(funcs.drop_last()[j] == funcs[j]);
            }
        }
        lemma_remaining_listed(funcs.drop_last(), all);
        assert(funcs.last() == funcs[funcs.len() - 1]);
    }
}

proof fn lemma_most_specific_listed(
    db: DbTy,
    funcs: Seq<FunctionTy>,
    call: CallShape,
    j: nat,
    best: FunctionTy,
    strict: bool,
    all: Seq<FunctionTy>,
)
    requires
        listed(funcs, all),
        all.contains(best),
    ensures
        resolve::most_specific(db, funcs, call, j, best, strict) matches Some(f) ==> all.contains(f),
    decreases funcs.len() - j,
{
    if j < funcs.len() {
        let next = funcs[j as int];
        lemma_most_specific_listed(db, funcs, call, j + 1, next, true, all);
        lemma_most_specific_listed(db, funcs, call, j + 1, best, true, all);
        lemma_most_specific_listed(db, funcs, call, j + 1, best, strict, all);
    }
}

proof fn lemma_tail_round_within(
    r: RoundTy,
    call: CallShape,
    p: nat,
    j: nat,
    all: Seq<FunctionTy>,
)
    requires
        still_given(r.funcs, all),
        all.contains(r.best),
    ensures
        match resolve::tail_round(r, call, p, j) {
            TailTy::Won(f) => all.contains(f),
            TailTy::Open(last) => still_given(last.funcs, all) && all.contains(last.best),
        },
    decreases r.funcs.len() - j,
{
    if j < r.funcs.len() {
        match r.funcs[j as int] {
            None => lemma_tail_round_within(r, call, p, j + 1, all),
            Some(f) => match resolve::tail_verdict(f, call, p) {
                TailVerdict::Passes => lemma_tail_round_within(r, call, p, j + 1, all),
                TailVerdict::Wins => {},
                TailVerdict::Fits(m, _) => {
                    let next = resolve::with_verdict(r, j as int, f, ArgVerdict::Fits(m));
                    lemma_tail_round_within(next, call, p, j + 1, all);
                },
            },
        }
    }
}

proof fn lemma_tail_rounds_within(
    funcs: Seq<Option<FunctionTy>>,
    best: FunctionTy,
    call: CallShape,
    p: nat,
    end: nat,
    all: Seq<FunctionTy>,
)
    requires
        still_given(funcs, all),
        all.contains(best),
    ensures
        match resolve::tail_rounds(funcs, best, call, p, end) {
            TailTy::Won(f) => all.contains(f),
            TailTy::Open(last) => still_given(last.funcs, all) && all.contains(last.best),
        },
    decreases end - p,
{
    if p < end {
        let start = RoundTy { funcs, best, level: ParamMatchResult::Not };
        lemma_tail_round_within(start, call, p, 0, all);
        match resolve::tail_round(start, call, p, 0) {
            TailTy::Won(_) => {},
            TailTy::Open(r) => {
                if r.level != ParamMatchResult::Not {
                    lemma_tail_rounds_within(r.funcs, r.best, call, p + 1, end, all);
                }
            },
        }
    }
}

proof fn lemma_first_without_params_listed(funcs: Seq<FunctionTy>, all: Seq<FunctionTy>)
    requires
        listed(funcs, all),
    ensures
        resolve::first_without_params(funcs) matches Some(f) ==> all.contains(f),
    decreases funcs.len(),
{
    if funcs.len() > 0 {
        assert(listed(funcs.skip(1), all)) by {
            assert forall|j: int| 0 <= j < funcs.len() - 1 implies all.contains(
                #[trigger] funcs.skip(1)[j],
            ) by {
                assert(funcs.skip(1)[j] == funcs[j + 1]);
            }
        }
        lemma_first_without_params_listed(funcs.skip(1), all);
        assert(all.contains(funcs[0]));
    }
}

proof fn lemma_settled_listed(
    db: DbTy,
    rest: Seq<FunctionTy>,
    best: FunctionTy,
    call: CallShape,
    all: Seq<FunctionTy>,
)
    requires
        listed(rest, all),
        all.contains(best),
    ensures
        resolve::settled(db, rest, best, call) matches Ok(f) ==> all.contains(f),
{
    if rest.len() > 0 {
        assert(all.contains(rest[0]));
        lemma_most_specific_listed(db, rest, call, 1, rest[0], false, all);
        assert(still_given(resolve::all_some(rest), all)) by {
            assert forall|j: int|
                0 <= j < rest.len() && (#[trigger] resolve::all_some(rest)[j]) is Some implies all.contains(
                resolve::all_some(rest)[j].unwrap(),
            ) by {
                assert(all.contains(rest[j]));
            }
        }
        lemma_tail_rounds_within(
            resolve::all_some(rest),
            best,
            call,
            call.args.len(),
            resolve::most_params(rest),
            all,
        );
        match resolve::tail_rounds(resolve::all_some(rest), best, call, call.args.len(), resolve::most_params(rest)) {
            TailTy::Won(_) => {},
            TailTy::Open(r) => {
                lemma_remaining_listed(r.funcs, all);
                if resolve::remaining(r.funcs).len() > 0 {
                    assert(all.contains(resolve::remaining(r.funcs)[0]));
                }
            },
        }
    }
}

/// A call goes to one of the signatures it was given.
pub proof fn resolved_signature_is_given(db: DbTy, overloads: Seq<FunctionTy>, call: CallShape)
    ensures
        resolve::resolved(db, overloads, call) matches Ok(f) ==> overloads.contains(f),
{
    if overloads.len() > 0 {
        assert(overloads.contains(overloads[0]));
        assert(listed(overloads, overloads));
        lemma_first_without_params_listed(overloads, overloads);
        assert(still_given(resolve::all_some(overloads), overloads)) by {
            assert forall|j: int|
                0 <= j < overloads.len() && (#[trigger] resolve::all_some(overloads)[j]) is Some implies overloads.contains(
            resolve::all_some(overloads)[j].unwrap()) by {
                assert(overloads.contains(overloads[j]));
            }
        }
        lemma_arg_rounds_within(db, resolve::all_some(overloads), overloads[0], call, 0, overloads);
        let (funcs, best) = resolve::arg_rounds(db, resolve::all_some(overloads), overloads[0], call, 0);
        lemma_remaining_listed(funcs, overloads);
        lemma_settled_listed(db, resolve::remaining(funcs), best, call, overloads);
    }
}

/// Where there is a signature and no argument was declined, a call goes somewhere.
pub proof fn call_with_known_arguments_is_resolved(
    db: DbTy,
    overloads: Seq<FunctionTy>,
    call: CallShape,
)
    requires
        overloads.len() > 0,
        !resolve::any_declined(call.declined),
    ensures
        resolve::resolved(db, overloads, call) is Ok,
{
}

} // verus!
