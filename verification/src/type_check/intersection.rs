//! Comparing intersections.

use vstd::prelude::*;

use crate::types;
use crate::type_check::relation;
use crate::type_check::error_chain::OverflowKind;
use crate::type_check::relation::{
    IntersectionState, Rel, RelScope, RelState, Relater, RelationFailure, RelationResult, settle,
};
use crate::type_check::structured::{dispatch, index, member};
use crate::type_check::structured::dispatch::dispatch_structured;
use crate::type_check::structured::member::relate_target_intersection_index_members;
use crate::types::{LuaType, Ty};

verus! {

/// Compares where one of the types is an intersection.
pub open spec fn rel_intersection(
    c: RelScope,
    st: RelState,
    source: Ty,
    target: Ty,
    state: IntersectionState,
) -> Option<Rel>
    decreases relation::levels(c), 80nat, 0nat,
{
    match target {
        Ty::Intersection(types) => Some(
            rel_to_parts(c, st, source, target, types, 0, None, state),
        ),
        _ => match source {
            Ty::Intersection(types) => Some(rel_from_parts(c, st, source, types, target, state)),
            _ => None,
        },
    }
}

/// The source has to fit every part, from part `k` on, and then what the parts demand of keys.
pub open spec fn rel_to_parts(
    c: RelScope,
    st: RelState,
    source: Ty,
    target: Ty,
    types: Seq<Ty>,
    k: nat,
    first: Option<OverflowKind>,
    state: IntersectionState,
) -> Rel
    decreases relation::levels(c), 79nat, types.len() - k,
{
    if k >= types.len() {
        if state == IntersectionState::Target {
            relation::rel_settled(st, first)
        } else {
            let r = member::rel_index_of_parts(c, st, source, target, index::flat_parts(types), 0);
            match r.res {
                Ok(_) => relation::rel_settled(r.st, first),
                Err(RelationFailure::Unrelated) => r,
                Err(RelationFailure::Indeterminate(kind)) => relation::rel_settled(
                    r.st,
                    relation::first_of(first, kind),
                ),
            }
        }
    } else {
        let r = relation::rel_types(c, st, source, types[k as int], IntersectionState::Target);
        match r.res {
            Ok(_) => rel_to_parts(c, r.st, source, target, types, k + 1, first, state),
            Err(RelationFailure::Indeterminate(kind)) => rel_to_parts(
                c,
                r.st,
                source,
                target,
                types,
                k + 1,
                relation::first_of(first, kind),
                state,
            ),
            Err(RelationFailure::Unrelated) => r,
        }
    }
}

/// Tries the parts of a source intersection from part `k` on: whether one fits, the first limit
/// that was met, and the first part that does not fit.
pub open spec fn rel_try_parts(
    c: RelScope,
    st: RelState,
    types: Seq<Ty>,
    k: nat,
    target: Ty,
    related: bool,
    first: Option<OverflowKind>,
    misfit_at: Option<nat>,
) -> (RelState, bool, Option<OverflowKind>, Option<nat>)
    decreases relation::levels(c), 78nat, types.len() - k,
{
    if k >= types.len() {
        (st, related, first, misfit_at)
    } else {
        let r = relation::rel_types(relation::quiet(c), st, types[k as int], target, IntersectionState::Source);
        match r.res {
            Ok(_) => rel_try_parts(c, r.st, types, k + 1, target, true, first, misfit_at),
            Err(RelationFailure::Indeterminate(kind)) => rel_try_parts(
                c,
                r.st,
                types,
                k + 1,
                target,
                related,
                relation::first_of(first, kind),
                misfit_at,
            ),
            Err(RelationFailure::Unrelated) => rel_try_parts(
                c,
                r.st,
                types,
                k + 1,
                target,
                related,
                first,
                match misfit_at {
                    Some(i) => Some(i),
                    None => Some(k),
                },
            ),
        }
    }
}

/// A structural target is compared with the whole intersection; any other one has to be fit by one
/// of its parts.
pub open spec fn rel_from_parts(
    c: RelScope,
    st: RelState,
    source: Ty,
    types: Seq<Ty>,
    target: Ty,
    state: IntersectionState,
) -> Rel
    decreases relation::levels(c), 79nat, 0nat,
{
    let (st1, related, first, misfit_at) = rel_try_parts(
        c,
        st,
        types,
        0,
        target,
        false,
        None,
        None,
    );
    let m = dispatch::rel_structured(c, st1, source, target, state);
    match m.res {
        Some(res) => Rel { st: m.st, res },
        None => if related {
            relation::rel_ok(m.st)
        } else if first is Some {
            relation::rel_settled(m.st, first)
        } else {
            match misfit_at {
                None => relation::rel_fail(c, m.st, relation::misfit(source, target)),
                Some(k) => if c.explain {
                    relation::rel_types(c, m.st, types[k as int], target, IntersectionState::Source)
                } else {
                    relation::rel_err(m.st, RelationFailure::Unrelated)
                },
            }
        },
    }
}

pub fn relate_intersection(
    relater: &mut Relater,
    source: &LuaType,
    target: &LuaType,
    intersection_state: IntersectionState,
) -> (r: Option<RelationResult>)
    ensures
        final(relater).may_have_done(
            *old(relater),
            relation::rel_opt(
                old(relater).state(),
                rel_intersection(
                old(relater).scope(),
                old(relater).state(),
                source@,
                target@,
                intersection_state,
            ),
            ),
            r,
        ),
    decreases old(relater).scope().db.room, 12nat, old(relater).room_left(), 80nat, 0nat,
{
    if let LuaType::Intersection(target_intersection) = target {
        assert(target_intersection@ == types::tys(target_intersection.types@));
        return Some(
            relate_to_target_intersection(
                relater,
                source,
                target,
                &target_intersection.types,
                intersection_state,
            ),
        );
    }
    if let LuaType::Intersection(source_intersection) = source {
        assert(source_intersection@ == types::tys(source_intersection.types@));
        return Some(
            relate_source_intersection(
                relater,
                source,
                &source_intersection.types,
                target,
                intersection_state,
            ),
        );
    }
    None
}

#[verifier::loop_isolation(false)]
fn relate_to_target_intersection(
    relater: &mut Relater,
    source: &LuaType,
    target: &LuaType,
    types: &Vec<LuaType>,
    intersection_state: IntersectionState,
) -> (r: RelationResult)
    ensures
        final(relater).did(
            *old(relater),
            rel_to_parts(
                old(relater).scope(),
                old(relater).state(),
                source@,
                target@,
                types::tys(types@),
                0,
                None,
                intersection_state,
            ),
            r,
        ),
    decreases old(relater).scope().db.room, 12nat, old(relater).room_left(), 79nat, types@.len(),
{
    let ghost c = relater.scope();
    let ghost all = types::tys(types@);
    let mut indeterminate: Option<OverflowKind> = None;
    let ghost whole = rel_to_parts(
        c,
        relater.state(),
        source@,
        target@,
        all,
        0,
        indeterminate,

        intersection_state,
    );
    let mut i: usize = 0;
    while i < types.len()
        invariant
            i <= types@.len(),
            relater.moved(*old(relater), relater.state()),
            whole == rel_to_parts(
        c,
        relater.state(),
        source@,
        target@,
        all,
        i as nat,
        indeterminate,

        intersection_state,
    ),
        decreases types@.len() - i,
    {

        assert(all[i as int] == types@[i as int]@);
        match relater.relate(source, &types[i], IntersectionState::Target) {
            Ok(()) => {},
            Err(RelationFailure::Indeterminate(kind)) => {
                if indeterminate.is_none() {
                    indeterminate = Some(kind);
                }
            },
            Err(RelationFailure::Unrelated) => {
                return Err(RelationFailure::Unrelated);
            },
        }
        i += 1;
    }
    if !intersection_state.contains(IntersectionState::Target) {
        match relate_target_intersection_index_members(relater, source, target, types) {
            Ok(()) => {},
            Err(RelationFailure::Unrelated) => {
                return Err(RelationFailure::Unrelated);
            },
            Err(RelationFailure::Indeterminate(kind)) => {
                if indeterminate.is_none() {
                    indeterminate = Some(kind);
                }
            },
        }
    }
    settle(indeterminate)
}

pub open spec fn opt_place(i: Option<usize>) -> Option<nat> {
    match i {
        Some(i) => Some(i as nat),
        None => None,
    }
}

#[verifier::loop_isolation(false)]
fn try_parts(relater: &mut Relater, types: &Vec<LuaType>, target: &LuaType) -> (r: (
    bool,
    Option<OverflowKind>,
    Option<usize>,
))
    ensures
        ({
            let (st, related, first, misfit_at) = rel_try_parts(
                old(relater).scope(),
                old(relater).state(),
                types::tys(types@),
                0,
                target@,
                false,
                None,
                None,
            );
            &&& final(relater).moved(*old(relater), st)
            &&& r.0 == related
            &&& r.1 == first
            &&& opt_place(r.2) == misfit_at
        }),
        r.2 matches Some(k) ==> k < types@.len(),
    decreases old(relater).scope().db.room, 12nat, old(relater).room_left(), 78nat, 0nat,
{
    let ghost c = relater.scope();
    let ghost all = types::tys(types@);
    let ghost whole = rel_try_parts(c, relater.state(), all, 0, target@, false, None, None);
    let mut related = false;
    let mut indeterminate: Option<OverflowKind> = None;
    let mut best: Option<usize> = None;
    let mut i: usize = 0;
    while i < types.len()
        invariant
            i <= types@.len(),
            relater.moved(*old(relater), relater.state()),
            whole == rel_try_parts(
                c,
                relater.state(),
                all,
                i as nat,
                target@,
                related,
                indeterminate,
                opt_place(best),
            ),
            best matches Some(k) ==> k < types@.len(),
        decreases types@.len() - i,
    {
        assert(all[i as int] == types@[i as int]@);
        match relater.probe_relation(&types[i], target, IntersectionState::Source) {
            Ok(()) => {
                related = true;
            },
            Err(RelationFailure::Indeterminate(kind)) => {
                if indeterminate.is_none() {
                    indeterminate = Some(kind);
                }
            },
            Err(RelationFailure::Unrelated) => {
                if best.is_none() {
                    best = Some(i);
                }
            },
        }
        i += 1;
    }
    (related, indeterminate, best)
}

fn relate_source_intersection(
    relater: &mut Relater,
    source: &LuaType,
    types: &Vec<LuaType>,
    target: &LuaType,
    intersection_state: IntersectionState,
) -> (r: RelationResult)
    ensures
        final(relater).did(
            *old(relater),
            rel_from_parts(
                old(relater).scope(),
                old(relater).state(),
                source@,
                types::tys(types@),
                target@,
                intersection_state,
            ),
            r,
        ),
    decreases old(relater).scope().db.room, 12nat, old(relater).room_left(), 79nat, 0nat,
{
    let (related, indeterminate, best) = try_parts(relater, types, target);
    if let Some(result) = dispatch_structured(relater, source, target, intersection_state) {
        return result;
    }
    if related {
        return Ok(());
    }
    if indeterminate.is_some() {
        return settle(indeterminate);
    }
    match best {
        None => relater.fail_types(source, target),
        Some(best_index) => {
            if !relater.is_explain() {
                return Err(RelationFailure::Unrelated);
            }
            assert(types::tys(types@)[best_index as int] == types@[best_index as int]@);
            relater.relate(&types[best_index], target, IntersectionState::Source)
        },
    }
}

} // verus!
