//! What holds of comparisons with unions and of functions.

use vstd::prelude::*;

use crate::type_check::{callable, relation, simple, union};
use crate::type_check::error_chain::{MessageTy, OverflowKind};
use crate::type_check::relation::{IntersectionState, RelScope, RelState, RelationFailure};
use crate::types::{FunctionTy, Ty, UnionTy, complex};

verus! {

/// Some comparison of two types on the way succeeds.
pub open spec fn once_fits(c: RelScope, source: Ty, target: Ty, state: IntersectionState) -> bool {
    exists|st: RelState| (#[trigger] relation::rel_types(c, st, source, target, state)).res is Ok
}

proof fn lemma_open_stays_open(
    c: RelScope,
    st: RelState,
    members: Seq<Ty>,
    k: nat,
    kind: OverflowKind,
    target: Ty,
    state: IntersectionState,
)
    requires
        !c.explain,
    ensures
        union::rel_source_members(c, st, members, k, Some(kind), target, state).res is Err,
    decreases members.len() - k,
{
    if k < members.len() {
        let r = relation::rel_types(relation::quiet(c), st, members[k as int], target, state);
        lemma_open_stays_open(c, r.st, members, k + 1, kind, target, state);
    }
}

proof fn lemma_members_fit(
    c: RelScope,
    st: RelState,
    members: Seq<Ty>,
    k: nat,
    target: Ty,
    state: IntersectionState,
    j: int,
)
    requires
        !c.explain,
        union::rel_source_members(c, st, members, k, None, target, state).res is Ok,
        k <= j < members.len(),
    ensures
        once_fits(relation::quiet(c), members[j], target, state),
    decreases members.len() - k,
{
    let r = relation::rel_types(relation::quiet(c), st, members[k as int], target, state);
    match r.res {
        Ok(_) => {
            if j > k {
                lemma_members_fit(c, r.st, members, k + 1, target, state, j);
            }
        },
        Err(RelationFailure::Indeterminate(kind)) => {
            lemma_open_stays_open(c, r.st, members, k + 1, kind, target, state);
        },
        Err(RelationFailure::Unrelated) => {},
    }
}

/// A union fits only where each of its members does.
pub proof fn union_fits_member_by_member(
    c: RelScope,
    st: RelState,
    union: UnionTy,
    target: Ty,
    state: IntersectionState,
    j: int,
)
    requires
        !c.explain,
        union::rel_union(c, st, Ty::Union(Box::new(union)), target, state) matches Some(r) && r.res is Ok,
        0 <= j < complex::union_tys(union).len(),
    ensures
        once_fits(relation::quiet(c), complex::union_tys(union)[j], target, state),
{
    lemma_members_fit(c, st, complex::union_tys(union), 0, target, state, j);
}

proof fn lemma_found_member(
    c: RelScope,
    st: RelState,
    source: Ty,
    members: Seq<Ty>,
    k: nat,
    first: Option<OverflowKind>,
    state: IntersectionState,
) -> (j: int)
    requires
        union::rel_try_members(c, st, source, members, k, first, state).1,
    ensures
        0 <= j < members.len(),
        once_fits(relation::quiet(c), source, members[j], state),
    decreases members.len() - k,
{
    let r = relation::rel_types(relation::quiet(c), st, source, members[k as int], state);
    match r.res {
        Ok(_) => k as int,
        Err(RelationFailure::Indeterminate(kind)) => lemma_found_member(
            c,
            r.st,
            source,
            members,
            k + 1,
            relation::first_of(first, kind),
            state,
        ),
        Err(RelationFailure::Unrelated) => lemma_found_member(
            c,
            r.st,
            source,
            members,
            k + 1,
            first,
            state,
        ),
    }
}

/// What fits a list of choices fits one of them.
pub proof fn choice_is_fit_through_a_member(
    c: RelScope,
    st: RelState,
    source: Ty,
    target: Ty,
    members: Seq<Ty>,
    state: IntersectionState,
)
    requires
        !c.explain,
        union::rel_target_members(c, st, source, target, members, state).res is Ok,
    ensures
        exists|j: int| 0 <= j < members.len() && once_fits(relation::quiet(c), source, #[trigger] members[j], state),
{
    let (st1, found, first) = union::rel_try_members(c, st, source, members, 0, None, state);
    if found {
        let j = lemma_found_member(c, st, source, members, 0, None, state);
        assert(once_fits(relation::quiet(c), source, members[j], state));
    }
}

/// What fits one of the choices at once fits the list of them.
pub proof fn member_that_fits_is_chosen(
    c: RelScope,
    st: RelState,
    source: Ty,
    target: Ty,
    members: Seq<Ty>,
    state: IntersectionState,
    j: int,
)
    requires
        0 <= j < members.len(),
        simple::simple_answer(source, members[j]) == Some(true),
    ensures
        union::rel_target_members(c, st, source, target, members, state).res is Ok,
{
    lemma_simple_member_is_found(c, st, source, members, 0, None, state, j);
}

proof fn lemma_simple_member_is_found(
    c: RelScope,
    st: RelState,
    source: Ty,
    members: Seq<Ty>,
    k: nat,
    first: Option<OverflowKind>,
    state: IntersectionState,
    j: int,
)
    requires
        k <= j < members.len(),
        simple::simple_answer(source, members[j]) == Some(true),
    ensures
        union::rel_try_members(c, st, source, members, k, first, state).1,
    decreases members.len() - k,
{
    let r = relation::rel_types(relation::quiet(c), st, source, members[k as int], state);
    if k < j {
        match r.res {
            Ok(_) => {},
            Err(RelationFailure::Indeterminate(kind)) => lemma_simple_member_is_found(
                c,
                r.st,
                source,
                members,
                k + 1,
                relation::first_of(first, kind),
                state,
                j,
            ),
            Err(RelationFailure::Unrelated) => lemma_simple_member_is_found(
                c,
                r.st,
                source,
                members,
                k + 1,
                first,
                state,
                j,
            ),
        }
    }
}

/// No parameter up to place `j` is one for the rest of the arguments.
pub open spec fn no_rest_until(params: Seq<(Seq<char>, Option<Ty>)>, j: int) -> bool {
    forall|i: int| 0 <= i <= j && i < params.len() ==> (#[trigger] params[i]).0 != "..."@
}

proof fn lemma_params_turned_round(
    c: RelScope,
    st: RelState,
    source: Seq<(Seq<char>, Option<Ty>)>,
    target: Seq<(Seq<char>, Option<Ty>)>,
    i: nat,
    state: IntersectionState,
    j: int,
)
    requires
        callable::rel_params(c, st, source, target, i, state).res is Ok,
        i <= j < source.len(),
        j < target.len(),
        no_rest_until(source, j),
        no_rest_until(target, j),
        source[j].1 is Some && !(source[j].1.unwrap() is SelfInfer),
        target[j].1 is Some && !(target[j].1.unwrap() is SelfInfer),
    ensures
        once_fits(c, target[j].1.unwrap(), source[j].1.unwrap(), state),
    decreases j - i,
{
    assert(source[i as int].0 != "..."@ && target[i as int].0 != "..."@);
    match (source[i as int].1, target[i as int].1) {
        (Some(s), Some(t)) => {
            if s is SelfInfer || t is SelfInfer {
                lemma_params_turned_round(c, st, source, target, i + 1, state, j);
            } else {
                let r = relation::rel_note(
                    c,
                    relation::rel_types(c, st, t, s, state),
                    MessageTy::FunctionParameter { index: i as usize },
                );
                if i < j {
                    lemma_params_turned_round(c, r.st, source, target, i + 1, state, j);
                }
            }
        },
        _ => lemma_params_turned_round(c, st, source, target, i + 1, state, j),
    }
}

/// A function fits only where it takes what the other one is called with: at each place, what the
/// target takes fits what the source takes.
pub proof fn parameters_fit_the_other_way_round(
    c: RelScope,
    st: RelState,
    source: FunctionTy,
    target: FunctionTy,
    state: IntersectionState,
    j: int,
)
    requires
        callable::rel_function(c, st, source, target, state).res is Ok,
        ({
            let taken = callable::passed_params(source, callable::passes_self(source, target));
            let given = callable::passed_params(target, target.is_colon_define);
            &&& 0 <= j < taken.len()
            &&& j < given.len()
            &&& no_rest_until(taken, j)
            &&& no_rest_until(given, j)
            &&& taken[j].1 is Some && !(taken[j].1.unwrap() is SelfInfer)
            &&& given[j].1 is Some && !(given[j].1.unwrap() is SelfInfer)
        }),
    ensures
        once_fits(
            c,
            callable::passed_params(target, target.is_colon_define)[j].1.unwrap(),
            callable::passed_params(source, callable::passes_self(source, target))[j].1.unwrap(),
            state,
        ),
{
    lemma_params_turned_round(
        c,
        st,
        callable::passed_params(source, callable::passes_self(source, target)),
        callable::passed_params(target, target.is_colon_define),
        0,
        state,
        j,
    );
}

} // verus!
