//! Whether a value of one type may stand where another type is wanted.

use vstd::prelude::*;

use crate::db::{DbIndex, DbTy};
use crate::type_check::{error_chain, relation, simple};
use crate::type_check::error_chain::{ErrorChain, MessageTy, OverflowKind};
use crate::type_check::relation::{
    EvidenceMode, IntersectionState, Rel, RelScope, RelState, Relater, RelationFailure,
    RelationResult, SemanticLocalCache,
};
use crate::types::{LuaType, Ty, equality};

verus! {

/// Whether a value of one type may stand where another type is wanted.
#[derive(Debug, PartialEq)]
pub enum AssignabilityResult {
    Assignable,
    NotAssignable(Option<ErrorChain>),
    Indeterminate(OverflowKind),
}

/// The steps that a comparison may take.
pub open spec fn full_budget() -> u32 {
    20_000
}

/// A comparison that is no part of another one.
pub open spec fn root_scope(db: DbTy, explain: bool) -> RelScope {
    RelScope { db, depth: 0, active: Seq::empty(), explain }
}

pub open spec fn fresh_state(answers: Seq<(Ty, Ty, IntersectionState, bool)>) -> RelState {
    RelState { answers, budget: full_budget(), chain: Seq::empty(), assumptions: 0 }
}

/// The outcome of comparing two types, given the answers that are kept.
pub open spec fn compared(
    db: DbTy,
    answers: Seq<(Ty, Ty, IntersectionState, bool)>,
    source: Ty,
    target: Ty,
    explain: bool,
) -> Rel {
    relation::rel_types(
        root_scope(db, explain),
        fresh_state(answers),
        source,
        target,
        IntersectionState::Plain,
    )
}

/// No answers.
pub open spec fn nothing_kept() -> Seq<(Ty, Ty, IntersectionState, bool)> {
    Seq::empty()
}

fn compare(
    db: &DbIndex,
    source: &LuaType,
    target: &LuaType,
    cache: SemanticLocalCache,
    evidence: EvidenceMode,
) -> (r: (SemanticLocalCache, RelationResult, Option<ErrorChain>))
    ensures
        ({
            let rel = compared(
                db@,
                cache.relations@,
                source@,
                target@,
                evidence == EvidenceMode::Explain,
            );
            &&& r.0.relations@ == rel.st.answers
            &&& r.1 == rel.res
            &&& error_chain::opt_chain(r.2) == rel.st.chain
        }),
    decreases db@.room, 13nat,
{
    let mut relater = Relater::new(db, cache, evidence);
    let result = relater.relate(source, target, IntersectionState::Plain);
    let (cache, chain) = relater.finish();
    (cache, result, chain)
}

/// Whether one type fits another, or which limit kept it open. Answers are taken from the cache and
/// left in it.
pub fn probe_assignable(
    db: &DbIndex,
    source: &LuaType,
    target: &LuaType,
    cache: Option<&mut SemanticLocalCache>,
) -> (r: RelationResult)
    ensures
        match cache {
            Some(kept) => {
                let rel = compared(db@, (*kept).relations@, source@, target@, false);
                final(kept).relations@ == rel.st.answers && r == rel.res
            },
            None => r == compared(db@, nothing_kept(), source@, target@, false).res,
        },
    decreases db@.room, 14nat,
{
    match cache {
        Some(kept) => {
            let mut local = SemanticLocalCache::default();
            std::mem::swap(kept, &mut local);
            let (after, result, _) = compare(db, source, target, local, EvidenceMode::Silent);
            *kept = after;
            result
        },
        None => {
            let (_, result, _) = compare(
                db,
                source,
                target,
                SemanticLocalCache::default(),
                EvidenceMode::Silent,
            );
            result
        },
    }
}

/// Whether one type fits another. What stays open counts as fitting: only what is known not to fit
/// is rejected.
pub fn is_assignable(
    db: &DbIndex,
    source: &LuaType,
    target: &LuaType,
    cache: Option<&mut SemanticLocalCache>,
) -> (r: bool)
    ensures
        match cache {
            Some(kept) => {
                let rel = compared(db@, (*kept).relations@, source@, target@, false);
                final(kept).relations@ == rel.st.answers && r == accepted(rel.res)
            },
            None => r == fits(db@, source@, target@),
        },
    decreases db@.room, 15nat,
{
    proof {
        reveal(fits);
    }
    match probe_assignable(db, source, target, cache) {
        Err(RelationFailure::Unrelated) => false,
        _ => true,
    }
}

pub open spec fn accepted(res: RelationResult) -> bool {
    res != Err::<(), RelationFailure>(RelationFailure::Unrelated)
}

/// One type fits another, as far as is known.
#[verifier::opaque]
pub open spec fn fits(db: DbTy, source: Ty, target: Ty) -> bool {
    accepted(compared(db, nothing_kept(), source, target, false).res)
}

/// One type is known to fit another.
#[verifier::opaque]
pub open spec fn surely_fits(db: DbTy, source: Ty, target: Ty) -> bool {
    compared(db, nothing_kept(), source, target, false).res is Ok
}

/// Whether one type is known to fit another.
pub fn is_surely_assignable(db: &DbIndex, source: &LuaType, target: &LuaType) -> (r: bool)
    ensures
        r == surely_fits(db@, source@, target@),
    decreases db@.room, 15nat,
{
    proof {
        reveal(surely_fits);
    }
    probe_assignable(db, source, target, None).is_ok()
}

/// What is known to fit, fits.
pub proof fn surely_fitting_fits(db: DbTy, source: Ty, target: Ty)
    requires
        surely_fits(db, source, target),
    ensures
        fits(db, source, target),
{
    reveal(fits);
    reveal(surely_fits);
}

pub open spec fn result_of(r: AssignabilityResult) -> RelationResult {
    match r {
        AssignabilityResult::Assignable => Ok(()),
        AssignabilityResult::NotAssignable(_) => Err(RelationFailure::Unrelated),
        AssignabilityResult::Indeterminate(kind) => Err(RelationFailure::Indeterminate(kind)),
    }
}

/// The reason that a result gives.
pub open spec fn reason_of(r: AssignabilityResult) -> Seq<MessageTy> {
    match r {
        AssignabilityResult::NotAssignable(chain) => error_chain::opt_chain(chain),
        _ => Seq::empty(),
    }
}

pub open spec fn is_explained(r: AssignabilityResult, rel: Rel) -> bool {
    result_of(r) == rel.res && (r is NotAssignable ==> reason_of(r) == rel.st.chain)
}

/// Whether one type fits another, and the reason if it does not.
pub fn check_assignable(
    db: &DbIndex,
    source: &LuaType,
    target: &LuaType,
    cache: Option<&mut SemanticLocalCache>,
) -> (r: AssignabilityResult)
    ensures
        match cache {
            Some(kept) => {
                let rel = compared(db@, (*kept).relations@, source@, target@, true);
                final(kept).relations@ == rel.st.answers && is_explained(r, rel)
            },
            None => is_explained(r, compared(db@, nothing_kept(), source@, target@, true)),
        },
{
    match cache {
        Some(kept) => {
            let mut local = SemanticLocalCache::default();
            std::mem::swap(kept, &mut local);
            let (after, result, chain) = compare(db, source, target, local, EvidenceMode::Explain);
            *kept = after;
            explained(result, chain)
        },
        None => {
            let (_, result, chain) = compare(
                db,
                source,
                target,
                SemanticLocalCache::default(),
                EvidenceMode::Explain,
            );
            explained(result, chain)
        },
    }
}

fn explained(result: RelationResult, chain: Option<ErrorChain>) -> (r: AssignabilityResult)
    ensures
        result_of(r) == result,
        r is NotAssignable ==> reason_of(r) == error_chain::opt_chain(chain),
{
    match result {
        Ok(done) => {
            assert(done == ());
            AssignabilityResult::Assignable
        },
        Err(RelationFailure::Unrelated) => AssignabilityResult::NotAssignable(chain),
        Err(RelationFailure::Indeterminate(kind)) => AssignabilityResult::Indeterminate(kind),
    }
}

// ----------------------------------------------------------------------------
// What holds of all comparisons.

/// A kept success is taken over, whatever the budget, the depth or the wish for a reason, and
/// nothing changes by it.
pub proof fn kept_success_costs_nothing(
    c: RelScope,
    st: RelState,
    source: Ty,
    target: Ty,
    state: IntersectionState,
)
    requires
        simple::simple_answer(source, target) is None,
        relation::kept_answer(st.answers, source, target, state) == Some(true),
    ensures
        relation::rel_types(c, st, source, target, state) == relation::rel_ok(st),
{
    reveal_with_fuel(relation::rel_types, 2);
    reveal_with_fuel(relation::rel_complex, 2);
}

/// A kept failure is taken over by a comparison without a reason, and nothing changes by it.
pub proof fn kept_failure_costs_nothing(
    c: RelScope,
    st: RelState,
    source: Ty,
    target: Ty,
    state: IntersectionState,
)
    requires
        simple::simple_answer(source, target) is None,
        !(relation::is_exact_value(source) && relation::is_listed_value(c.db, source, target)),
        !c.explain,
        relation::kept_answer(st.answers, source, target, state) == Some(false),
    ensures
        relation::rel_types(c, st, source, target, state) == relation::rel_err(st, RelationFailure::Unrelated),
{
    reveal_with_fuel(relation::rel_types, 2);
    reveal_with_fuel(relation::rel_complex, 2);
}

/// What a comparison that is no part of another one finds out is kept for the next one: a success as
/// a success, a failure as a failure.
pub proof fn root_answer_is_kept(
    c: RelScope,
    st: RelState,
    source: Ty,
    target: Ty,
    state: IntersectionState,
)
    requires
        c.depth == 0,
        equality::ty_eq(source, source),
        equality::ty_eq(target, target),
        simple::simple_answer(source, target) is None,
        !(relation::is_exact_value(source) && relation::is_listed_value(c.db, source, target)),
    ensures
        ({
            let r = relation::rel_types(c, st, source, target, state);
            let kept = relation::kept_answer(r.st.answers, source, target, state);
            &&& r.res is Ok ==> kept == Some(true)
            &&& r.res == Err::<(), RelationFailure>(RelationFailure::Unrelated) ==> kept == Some(
                false,
            )
        }),
{
    reveal_with_fuel(relation::rel_types, 2);
    reveal_with_fuel(relation::rel_complex, 2);
    let inner = relation::rel_scoped(c, st, source, target, state);
    assert(inner.st.answers.push((source, target, state, true)).last() == (
        source,
        target,
        state,
        true,
    ));
    assert(inner.st.answers.push((source, target, state, false)).last() == (
        source,
        target,
        state,
        false,
    ));
}

/// Asked again, a comparison that was decided gives the same answer and changes nothing more.
pub proof fn decided_comparison_repeats(
    c: RelScope,
    st: RelState,
    source: Ty,
    target: Ty,
    state: IntersectionState,
)
    requires
        c.depth == 0,
        !c.explain,
        equality::ty_eq(source, source),
        equality::ty_eq(target, target),
        !(relation::rel_types(c, st, source, target, state).res matches Err(
            RelationFailure::Indeterminate(_),
        )),
    ensures
        ({
            let first = relation::rel_types(c, st, source, target, state);
            relation::rel_types(c, first.st, source, target, state) == first
        }),
{
    reveal_with_fuel(relation::rel_types, 2);
    reveal_with_fuel(relation::rel_complex, 2);
    if simple::simple_answer(source, target) is None && !(relation::is_exact_value(source)
        && relation::is_listed_value(c.db, source, target)) {
        let first = relation::rel_types(c, st, source, target, state);
        root_answer_is_kept(c, st, source, target, state);
        if first.res is Ok {
            kept_success_costs_nothing(c, first.st, source, target, state);
            assert(first.res->Ok_0 == ());
            assert(first == relation::rel_ok(first.st));
        } else {
            assert(first.res == Err::<(), RelationFailure>(RelationFailure::Unrelated));
            kept_failure_costs_nothing(c, first.st, source, target, state);
        }
    }
}

/// A success that rests on the assumption that a comparison around it succeeds is not kept: nothing
/// is kept but what the comparisons inside it left.
pub proof fn assumed_success_is_not_kept(
    c: RelScope,
    st: RelState,
    source: Ty,
    target: Ty,
    state: IntersectionState,
)
    requires
        c.depth > 0,
        relation::kept_answer(st.answers, source, target, state) is None,
        simple::simple_answer(source, target) is None,
        !(relation::is_exact_value(source) && relation::is_listed_value(c.db, source, target)),
        relation::rel_scoped(c, st, source, target, state).st.assumptions != st.assumptions,
        relation::rel_scoped(c, st, source, target, state).res is Ok,
    ensures
        relation::rel_types(c, st, source, target, state) == relation::rel_scoped(
            c,
            st,
            source,
            target,
            state,
        ),
{
    reveal_with_fuel(relation::rel_types, 2);
    reveal_with_fuel(relation::rel_complex, 2);
}

/// A comparison that stays open is not kept: nothing is kept but what the comparisons inside it left.
pub proof fn open_outcome_is_not_kept(
    c: RelScope,
    st: RelState,
    source: Ty,
    target: Ty,
    state: IntersectionState,
)
    requires
        relation::kept_answer(st.answers, source, target, state) is None,
        relation::rel_types(c, st, source, target, state).res matches Err(
            RelationFailure::Indeterminate(_),
        ),
    ensures
        relation::rel_types(c, st, source, target, state) == relation::rel_scoped(
            c,
            st,
            source,
            target,
            state,
        ),
{
    reveal_with_fuel(relation::rel_types, 2);
    reveal_with_fuel(relation::rel_complex, 2);
}

/// A comparison that leads back to itself succeeds there, and the assumption is counted. Inside
/// another comparison nothing is kept of it.
pub proof fn comparison_in_itself_is_assumed(
    c: RelScope,
    st: RelState,
    source: Ty,
    target: Ty,
    state: IntersectionState,
)
    requires
        0 < c.depth < 100,
        st.assumptions < usize::MAX,
        relation::may_recur(source) || relation::may_recur(target),
        relation::is_under_way(c.active, source, target, state),
        relation::kept_answer(st.answers, source, target, state) is None,
        simple::simple_answer(source, target) is None,
        !(relation::is_exact_value(source) && relation::is_listed_value(c.db, source, target)),
    ensures
        relation::rel_types(c, st, source, target, state) == relation::rel_ok(
            RelState { assumptions: (st.assumptions + 1) as usize, ..st },
        ),
{
    reveal_with_fuel(relation::rel_types, 2);
    reveal_with_fuel(relation::rel_complex, 2);
    reveal_with_fuel(relation::rel_scoped, 2);
}

/// Where a comparison is nested too deep, nothing is decided, kept or spent.
pub proof fn too_deep_stays_open(
    c: RelScope,
    st: RelState,
    source: Ty,
    target: Ty,
    state: IntersectionState,
)
    requires
        c.depth >= 100,
        simple::simple_answer(source, target) is None,
        !(relation::is_exact_value(source) && relation::is_listed_value(c.db, source, target)),
        relation::kept_answer(st.answers, source, target, state) is None,
    ensures
        relation::rel_types(c, st, source, target, state) == relation::rel_err(
            st,
            RelationFailure::Indeterminate(OverflowKind::Recursion),
        ),
{
    reveal_with_fuel(relation::rel_types, 3);
    reveal_with_fuel(relation::rel_complex, 3);
    reveal_with_fuel(relation::rel_scoped, 3);
}

/// Without budget, a comparison of types that may lead back to themselves stays open, and nothing is
/// kept of it.
pub proof fn without_budget_stays_open(
    c: RelScope,
    st: RelState,
    source: Ty,
    target: Ty,
    state: IntersectionState,
)
    requires
        c.depth < 100,
        st.budget == 0,
        relation::may_recur(source) || relation::may_recur(target),
        !relation::is_under_way(c.active, source, target, state),
        simple::simple_answer(source, target) is None,
        !(relation::is_exact_value(source) && relation::is_listed_value(c.db, source, target)),
        relation::kept_answer(st.answers, source, target, state) is None,
    ensures
        relation::rel_types(c, st, source, target, state) == relation::rel_err(
            st,
            RelationFailure::Indeterminate(OverflowKind::Budget),
        ),
{
    reveal_with_fuel(relation::rel_types, 3);
    reveal_with_fuel(relation::rel_complex, 3);
    reveal_with_fuel(relation::rel_scoped, 3);
}

/// Any type fits `any` and `unknown`, and `any` fits any type, at once.
pub proof fn any_fits_all(db: DbTy, t: Ty)
    ensures
        fits(db, t, Ty::Any),
        fits(db, t, Ty::Unknown),
        fits(db, Ty::Any, t),
{
    reveal(fits);
    simple::anything_fits_any(t);
    reveal_with_fuel(relation::rel_types, 2);
}

/// A type fits itself, whatever the index holds. Conditional and mapped types are not compared before
/// they are resolved.
pub proof fn equal_types_fit(db: DbTy, source: Ty, target: Ty)
    requires
        equality::ty_eq(source, target),
        !(source is Conditional),
        !(source is Mapped),
    ensures
        fits(db, source, target),
        surely_fits(db, source, target),
{
    reveal(fits);
    reveal(surely_fits);
    reveal(simple::simple_answer);
    assert(simple::fast_eq(source, target));
    reveal_with_fuel(relation::rel_types, 2);
}

/// Types that are equal at a glance fit, and no reason is ever given against them.
pub proof fn equal_at_a_glance_is_assignable(
    db: DbTy,
    answers: Seq<(Ty, Ty, IntersectionState, bool)>,
    source: Ty,
    target: Ty,
    explain: bool,
)
    requires
        simple::fast_eq(source, target),
    ensures
        compared(db, answers, source, target, explain) == relation::rel_ok(fresh_state(answers)),
{
    reveal(simple::simple_answer);
    reveal_with_fuel(relation::rel_types, 2);
}

/// Types that are refused at a glance are refused for the same reason each time, whatever is kept,
/// and nothing more is kept.
pub proof fn refused_at_a_glance_repeats(
    db: DbTy,
    answers: Seq<(Ty, Ty, IntersectionState, bool)>,
    source: Ty,
    target: Ty,
)
    requires
        simple::simple_answer(source, target) == Some(false),
    ensures
        ({
            let r = compared(db, answers, source, target, true);
            &&& r.res == Err::<(), RelationFailure>(RelationFailure::Unrelated)
            &&& r.st.chain == seq![MessageTy::NotAssignable { source, target }]
            &&& r.st.answers == answers
        }),
{
    reveal_with_fuel(relation::rel_types, 2);
}

/// Once a comparison that asks for a reason is decided, the question without a reason is answered the
/// same way: what was refused is refused, what was accepted is accepted.
pub proof fn explained_answer_holds_without_reason(
    db: DbTy,
    answers: Seq<(Ty, Ty, IntersectionState, bool)>,
    source: Ty,
    target: Ty,
)
    requires
        equality::ty_eq(source, source),
        equality::ty_eq(target, target),
        !(compared(db, answers, source, target, true).res matches Err(
            RelationFailure::Indeterminate(_),
        )),
    ensures
        ({
            let explained = compared(db, answers, source, target, true);
            compared(db, explained.st.answers, source, target, false).res == explained.res
        }),
{
    let c = root_scope(db, true);
    let silent = root_scope(db, false);
    let st = fresh_state(answers);
    let explained = relation::rel_types(c, st, source, target, IntersectionState::Plain);
    let later = fresh_state(explained.st.answers);
    reveal_with_fuel(relation::rel_types, 2);
    reveal_with_fuel(relation::rel_complex, 2);
    if simple::simple_answer(source, target) is None && !(relation::is_exact_value(source)
        && relation::is_listed_value(db, source, target)) {
        root_answer_is_kept(c, st, source, target, IntersectionState::Plain);
        if explained.res is Ok {
            assert(explained.res->Ok_0 == ());
            kept_success_costs_nothing(silent, later, source, target, IntersectionState::Plain);
        } else {
            kept_failure_costs_nothing(silent, later, source, target, IntersectionState::Plain);
        }
    }
}

/// What was accepted once is accepted again, with or without the wish for a reason, and nothing more
/// is kept.
pub proof fn accepted_comparison_repeats(
    db: DbTy,
    answers: Seq<(Ty, Ty, IntersectionState, bool)>,
    source: Ty,
    target: Ty,
    explain: bool,
    explain_again: bool,
)
    requires
        equality::ty_eq(source, source),
        equality::ty_eq(target, target),
        compared(db, answers, source, target, explain).res is Ok,
    ensures
        ({
            let first = compared(db, answers, source, target, explain);
            let again = compared(db, first.st.answers, source, target, explain_again);
            again.res is Ok && again.st.answers == first.st.answers
        }),
{
    let c = root_scope(db, explain);
    let st = fresh_state(answers);
    let first = relation::rel_types(c, st, source, target, IntersectionState::Plain);
    let later = fresh_state(first.st.answers);
    reveal_with_fuel(relation::rel_types, 2);
    reveal_with_fuel(relation::rel_complex, 2);
    if simple::simple_answer(source, target) is None && !(relation::is_exact_value(source)
        && relation::is_listed_value(db, source, target)) {
        root_answer_is_kept(c, st, source, target, IntersectionState::Plain);
        kept_success_costs_nothing(
            root_scope(db, explain_again),
            later,
            source,
            target,
            IntersectionState::Plain,
        );
    }
}

/// Where the reason is wanted, a kept failure is not taken over: the comparison is made anew, and its
/// outcome is kept in place of the old one.
pub proof fn kept_failure_is_explained_anew(
    c: RelScope,
    st: RelState,
    source: Ty,
    target: Ty,
    state: IntersectionState,
)
    requires
        c.explain,
        simple::simple_answer(source, target) is None,
        !(relation::is_exact_value(source) && relation::is_listed_value(c.db, source, target)),
        relation::kept_answer(st.answers, source, target, state) == Some(false),
    ensures
        relation::rel_types(c, st, source, target, state) == relation::rel_kept(
            c,
            st,
            relation::rel_scoped(c, st, source, target, state),
            source,
            target,
            state,
        ),
{
    reveal_with_fuel(relation::rel_types, 2);
    reveal_with_fuel(relation::rel_complex, 2);
}

/// Two results for the same question, from the same answers kept, are the same and give the same
/// reason.
pub proof fn explanation_is_determined(
    db: DbTy,
    answers: Seq<(Ty, Ty, IntersectionState, bool)>,
    source: Ty,
    target: Ty,
    first: AssignabilityResult,
    second: AssignabilityResult,
)
    requires
        is_explained(first, compared(db, answers, source, target, true)),
        is_explained(second, compared(db, answers, source, target, true)),
    ensures
        result_of(first) == result_of(second),
        reason_of(first) == reason_of(second),
{
}

} // verus!
