//! Comparing unions.

use vstd::prelude::*;

use crate::types;
use crate::type_check::{error_chain, relation};
use crate::type_check::error_chain::{MessageTy, OverflowKind};
use crate::type_check::relation::{
    IntersectionState, Rel, RelScope, RelState, Relater, RelationFailure, RelationResult, settle,
};
use crate::type_check::structured::member;
use crate::type_check::structured::member::{collect_missing_members, unrelated_missing_members};
use crate::types::{KeyTy, LuaMemberKey, LuaType, Ty, complex, predicates};

verus! {

/// The types other than nil.
pub open spec fn non_nil(types: Seq<Ty>) -> Seq<Ty>
    decreases types.len(),
{
    if types.len() == 0 {
        Seq::empty()
    } else if types.last() is Nil {
        non_nil(types.drop_last())
    } else {
        non_nil(types.drop_last()).push(types.last())
    }
}

/// The one type of a union beside nil, where there is exactly one and it is no union itself.
#[verifier::opaque]
pub open spec fn single_non_nil(types: Seq<Ty>) -> Option<Ty> {
    let rest = non_nil(types);
    if rest.len() == 1 && rest.len() < types.len() && !(rest[0] is Union)
        && !(rest[0] is MultiLineUnion) {
        Some(rest[0])
    } else {
        None
    }
}

/// Compares where one of the types is a union.
pub open spec fn rel_union(
    c: RelScope,
    st: RelState,
    source: Ty,
    target: Ty,
    state: IntersectionState,
) -> Option<Rel>
    decreases relation::levels(c), 90nat, 0nat,
{
    match source {
        Ty::Union(u) => Some(
            relation::rel_note(
                c,
                rel_source_members(c, st, complex::union_tys(*u), 0, None, target, state),
                relation::misfit(source, target),
            ),
        ),
        _ => match target {
            Ty::Union(u) => if !predicates::ty_is_nullable(source) && single_non_nil(complex::union_tys(*u)) is Some {
                Some(relation::rel_types(c, st, source, single_non_nil(complex::union_tys(*u)).unwrap(), state))
            } else {
                Some(rel_target_members(c, st, source, target, complex::union_tys(*u), state))
            },
            _ => None,
        },
    }
}

/// Every member of a union has to fit, from member `k` on.
pub open spec fn rel_source_members(
    c: RelScope,
    st: RelState,
    members: Seq<Ty>,
    k: nat,
    first: Option<OverflowKind>,
    target: Ty,
    state: IntersectionState,
) -> Rel
    decreases relation::levels(c), 89nat, members.len() - k,
{
    if k >= members.len() {
        relation::rel_settled(st, first)
    } else {
        let r = relation::rel_types(relation::quiet(c), st, members[k as int], target, state);
        match r.res {
            Ok(_) => rel_source_members(c, r.st, members, k + 1, first, target, state),
            Err(RelationFailure::Indeterminate(kind)) => rel_source_members(
                c,
                r.st,
                members,
                k + 1,
                relation::first_of(first, kind),
                target,
                state,
            ),
            Err(RelationFailure::Unrelated) => if c.explain {
                relation::rel_types(c, r.st, members[k as int], target, state)
            } else {
                r
            },
        }
    }
}

/// Tries the members of a target union from member `k` on. Tells whether one of them is fit by the
/// source, and the first limit that was met.
pub open spec fn rel_try_members(
    c: RelScope,
    st: RelState,
    source: Ty,
    members: Seq<Ty>,
    k: nat,
    first: Option<OverflowKind>,
    state: IntersectionState,
) -> (RelState, bool, Option<OverflowKind>)
    decreases relation::levels(c), 88nat, members.len() - k,
{
    if k >= members.len() {
        (st, false, first)
    } else {
        let r = relation::rel_types(relation::quiet(c), st, source, members[k as int], state);
        match r.res {
            Ok(_) => (r.st, true, first),
            Err(RelationFailure::Indeterminate(kind)) => rel_try_members(
                c,
                r.st,
                source,
                members,
                k + 1,
                relation::first_of(first, kind),
                state,
            ),
            Err(RelationFailure::Unrelated) => rel_try_members(
                c,
                r.st,
                source,
                members,
                k + 1,
                first,
                state,
            ),
        }
    }
}

/// The source has to fit one of the members. The reason for a failure is taken from the member that
/// lacks the fewest fields, among those that share a field with the source.
pub open spec fn rel_target_members(
    c: RelScope,
    st: RelState,
    source: Ty,
    target: Ty,
    members: Seq<Ty>,
    state: IntersectionState,
) -> Rel
    decreases relation::levels(c), 89nat, 0nat,
{
    let (st1, found, first) = rel_try_members(c, st, source, members, 0, None, state);
    if found {
        relation::rel_ok(st1)
    } else if first is Some {
        relation::rel_settled(st1, first)
    } else if !c.explain {
        relation::rel_err(st1, RelationFailure::Unrelated)
    } else {
        let (st2, nearest) = rel_nearest(c, st1, source, members, 0, None, state);
        match nearest {
            Err(failure) => relation::rel_err(st2, failure),
            Ok(None) => relation::rel_fail(c, st2, relation::misfit(source, target)),
            Ok(Some((k, missing))) => if missing.len() > 0 {
                relation::rel_fail(
                    c,
                    st2,
                    MessageTy::MissingMembers {
                        source,
                        target: members[k as int],
                        keys: missing,
                    },
                )
            } else {
                relation::rel_types(c, st2, source, members[k as int], state)
            },
        }
    }
}

/// The nearest member of a union from member `k` on, with the fields that the source lacks.
pub open spec fn rel_nearest(
    c: RelScope,
    st: RelState,
    source: Ty,
    members: Seq<Ty>,
    k: nat,
    best: Option<(nat, Seq<KeyTy>)>,
    state: IntersectionState,
) -> (RelState, Result<Option<(nat, Seq<KeyTy>)>, RelationFailure>)
    decreases relation::levels(c), 88nat, members.len() - k,
{
    if k >= members.len() {
        (st, Ok(best))
    } else {
        let m = member::rel_missing(c, st, source, members[k as int], state);
        match m.res {
            Err(failure) => (m.st, Err(failure)),
            Ok((missing, shared)) => if shared && missing.len() == 0 {
                (m.st, Ok(Some((k, missing))))
            } else {
                rel_nearest(c, m.st, source, members, k + 1, nearer(best, k, missing, shared), state)
            },
        }
    }
}

pub open spec fn nearer(
    best: Option<(nat, Seq<KeyTy>)>,
    k: nat,
    missing: Seq<KeyTy>,
    shared: bool,
) -> Option<(nat, Seq<KeyTy>)> {
    match best {
        Some((_, fewest)) => if shared && missing.len() < fewest.len() {
            Some((k, missing))
        } else {
            best
        },
        None => if shared {
            Some((k, missing))
        } else {
            None
        },
    }
}

pub fn relate_union(
    relater: &mut Relater,
    source: &LuaType,
    target: &LuaType,
    intersection_state: IntersectionState,
) -> (r: Option<RelationResult>)
    ensures
        final(relater).may_have_done(
            *old(relater),
            relation::rel_opt(
                old(relater).state(),
                rel_union(
                    old(relater).scope(),
                    old(relater).state(),
                    source@,
                    target@,
                    intersection_state,
                ),
            ),
            r,
        ),
    decreases old(relater).scope().db.room, 12nat, old(relater).room_left(), 90nat, 0nat,
{
    if let LuaType::Union(source_union) = source {
        let members = source_union.iter();
        let result = relate_source_union_members(relater, &members, target, intersection_state);
        return Some(relater.note_types(result, source, target));
    }
    if let LuaType::Union(target_union) = target {
        let members = target_union.iter();
        if !source.is_nullable() {
            if let Some(non_nil_target) = get_single_non_nil_candidate(&members) {
                return Some(relater.relate(source, non_nil_target, intersection_state));
            }
        }
        return Some(
            relate_to_target_union_candidates(
                relater,
                source,
                target,
                &members,
                intersection_state,
            ),
        );
    }
    None
}

/// The one type of a union beside nil.
#[verifier::loop_isolation(false)]
fn get_single_non_nil_candidate(members: &Vec<LuaType>) -> (r: Option<&LuaType>)
    ensures
        complex::opt_ref_ty(r) == single_non_nil(types::tys(members@)),
{
    proof {
        reveal(single_non_nil);
    }
    let ghost all = types::tys(members@);
    let mut has_nil = false;
    let mut found: Option<&LuaType> = None;
    let mut i: usize = 0;
    while i < members.len()
        invariant
            i <= members@.len(),
            all == types::tys(members@),
            has_nil == (non_nil(all.take(i as int)).len() < i),
            non_nil(all.take(i as int)) == (match found {
                Some(t) => seq![t@],
                None => Seq::empty(),
            }),
            found matches Some(t) ==> !(t@ is Union) && !(t@ is MultiLineUnion),
        decreases members@.len() - i,
    {
        let ghost front = non_nil(all.take(i as int));
        proof {
            assert(all.take(i + 1).drop_last() =~= all.take(i as int));
            assert(all.take(i + 1).last() == all[i as int]);
            assert(all[i as int] == members@[i as int]@);
        }
        let candidate = &members[i];
        if candidate.is_nil() {
            has_nil = true;
        } else if found.is_some() || matches!(
            candidate,
            LuaType::Union(_) | LuaType::MultiLineUnion(_)
        ) {
            proof {
                lemma_non_nil_grows(all, i + 1);
                assert(non_nil(all)[0] == non_nil(all.take(i + 1))[0]);
            }
            return None;
        } else {
            found = Some(candidate);
            assert(front.push(candidate@) =~= seq![candidate@]);
        }
        i += 1;
    }
    assert(all.take(i as int) =~= all);
    if has_nil {
        found
    } else {
        None
    }
}

/// What is left of the first entries stays in front of what is left of all.
proof fn lemma_non_nil_grows(all: Seq<Ty>, n: int)
    requires
        0 <= n <= all.len(),
    ensures
        non_nil(all.take(n)).len() <= non_nil(all).len(),
        forall|i: int|
            0 <= i < non_nil(all.take(n)).len() ==> #[trigger] non_nil(all.take(n))[i]
                == non_nil(all)[i],
    decreases all.len() - n,
{
    if n < all.len() {
        lemma_non_nil_grows(all, n + 1);
        assert(all.take(n + 1).drop_last() =~= all.take(n));
        let small = non_nil(all.take(n));
        let big = non_nil(all.take(n + 1));
        assert forall|i: int| 0 <= i < small.len() implies #[trigger] small[i] == non_nil(
            all,
        )[i] by {
            assert(big[i] == small[i]);
        }
    } else {
        assert(all.take(n) =~= all);
    }
}

#[verifier::loop_isolation(false)]
fn relate_source_union_members(
    relater: &mut Relater,
    members: &Vec<LuaType>,
    target: &LuaType,
    intersection_state: IntersectionState,
) -> (r: RelationResult)
    ensures
        final(relater).did(
            *old(relater),
            rel_source_members(
                old(relater).scope(),
                old(relater).state(),
                types::tys(members@),
                0,
                None,
                target@,
                intersection_state,
            ),
            r,
        ),
    decreases old(relater).scope().db.room, 12nat, old(relater).room_left(), 89nat, 0nat,
{
    let ghost c = relater.scope();
    let ghost all = types::tys(members@);
    let ghost whole = rel_source_members(
        c,
        relater.state(),
        all,
        0,
        None,
        target@,
        intersection_state,
    );
    let mut first_indeterminate: Option<OverflowKind> = None;
    let mut i: usize = 0;
    while i < members.len()
        invariant
            i <= members@.len(),
            relater.moved(*old(relater), relater.state()),
            whole == rel_source_members(
                c,
                relater.state(),
                all,
                i as nat,
                first_indeterminate,
                target@,
                intersection_state,
            ),
        decreases members@.len() - i,
    {
        let member = &members[i];
        assert(all[i as int] == member@);
        match relater.probe_relation(member, target, intersection_state) {
            Ok(()) => {},
            Err(RelationFailure::Indeterminate(kind)) => {
                if first_indeterminate.is_none() {
                    first_indeterminate = Some(kind);
                }
            },
            Err(RelationFailure::Unrelated) => {
                if !relater.is_explain() {
                    return Err(RelationFailure::Unrelated);
                }
                return relater.relate(member, target, intersection_state);
            },
        }
        i += 1;
    }
    settle(first_indeterminate)
}

#[verifier::loop_isolation(false)]
fn try_union_members(
    relater: &mut Relater,
    source: &LuaType,
    members: &Vec<LuaType>,
    intersection_state: IntersectionState,
) -> (r: (bool, Option<OverflowKind>))
    ensures
        ({
            let (st, found, first) = rel_try_members(
                old(relater).scope(),
                old(relater).state(),
                source@,
                types::tys(members@),
                0,
                None,
                intersection_state,
            );
            final(relater).moved(*old(relater), st) && r == (found, first)
        }),
    decreases old(relater).scope().db.room, 12nat, old(relater).room_left(), 88nat, 0nat,
{
    let ghost c = relater.scope();
    let ghost all = types::tys(members@);
    let ghost whole = rel_try_members(
        c,
        relater.state(),
        source@,
        all,
        0,
        None,
        intersection_state,
    );
    let mut indeterminate: Option<OverflowKind> = None;
    let mut i: usize = 0;
    while i < members.len()
        invariant
            i <= members@.len(),
            relater.moved(*old(relater), relater.state()),
            whole == rel_try_members(
                c,
                relater.state(),
                source@,
                all,
                i as nat,
                indeterminate,
                intersection_state,
            ),
        decreases members@.len() - i,
    {
        assert(all[i as int] == members@[i as int]@);
        match relater.probe_relation(source, &members[i], intersection_state) {
            Ok(()) => {
                return (true, indeterminate);
            },
            Err(RelationFailure::Indeterminate(kind)) => {
                if indeterminate.is_none() {
                    indeterminate = Some(kind);
                }
            },
            Err(RelationFailure::Unrelated) => {},
        }
        i += 1;
    }
    (false, indeterminate)
}

pub open spec fn opt_nearest(best: Option<(usize, Vec<LuaMemberKey>)>) -> Option<
    (nat, Seq<KeyTy>),
> {
    match best {
        Some((k, missing)) => Some((k as nat, error_chain::keys_ty(missing@))),
        None => None,
    }
}

pub open spec fn res_nearest(
    r: Result<Option<(usize, Vec<LuaMemberKey>)>, RelationFailure>,
) -> Result<Option<(nat, Seq<KeyTy>)>, RelationFailure> {
    match r {
        Ok(best) => Ok(opt_nearest(best)),
        Err(failure) => Err(failure),
    }
}

#[verifier::loop_isolation(false)]
fn nearest_member(
    relater: &mut Relater,
    source: &LuaType,
    members: &Vec<LuaType>,
    intersection_state: IntersectionState,
) -> (r: Result<Option<(usize, Vec<LuaMemberKey>)>, RelationFailure>)
    ensures
        ({
            let (st, nearest) = rel_nearest(
                old(relater).scope(),
                old(relater).state(),
                source@,
                types::tys(members@),
                0,
                None,
                intersection_state,
            );
            final(relater).moved(*old(relater), st) && res_nearest(r) == nearest
        }),
        r matches Ok(Some((k, _))) ==> k < members@.len(),
    decreases old(relater).scope().db.room, 12nat, old(relater).room_left(), 88nat, 0nat,
{
    let ghost c = relater.scope();
    let ghost all = types::tys(members@);
    let ghost whole = rel_nearest(c, relater.state(), source@, all, 0, None, intersection_state);
    let mut evidence: Option<(usize, Vec<LuaMemberKey>)> = None;
    let mut i: usize = 0;
    while i < members.len()
        invariant
            i <= members@.len(),
            relater.moved(*old(relater), relater.state()),
            whole == rel_nearest(
                c,
                relater.state(),
                source@,
                all,
                i as nat,
                opt_nearest(evidence),
                intersection_state,
            ),
            evidence matches Some((k, _)) ==> k < members@.len(),
        decreases members@.len() - i,
    {
        assert(all[i as int] == members@[i as int]@);
        match collect_missing_members(relater, source, &members[i], intersection_state) {
            Err(failure) => {
                return Err(failure);
            },
            Ok((missing_keys, has_shared_key)) => {
                assert(error_chain::keys_ty(missing_keys@).len() == missing_keys@.len());
                if has_shared_key && missing_keys.len() == 0 {
                    return Ok(Some((i, missing_keys)));
                }
                if has_shared_key {
                    let closer = match &evidence {
                        Some((_, best_missing)) => {
                            assert(error_chain::keys_ty(best_missing@).len() == best_missing@.len());
                            missing_keys.len() < best_missing.len()
                        },
                        None => true,
                    };
                    if closer {
                        evidence = Some((i, missing_keys));
                    }
                }
            },
        }
        i += 1;
    }
    Ok(evidence)
}

fn relate_to_target_union_candidates(
    relater: &mut Relater,
    source: &LuaType,
    target: &LuaType,
    members: &Vec<LuaType>,
    intersection_state: IntersectionState,
) -> (r: RelationResult)
    ensures
        final(relater).did(
            *old(relater),
            rel_target_members(
                old(relater).scope(),
                old(relater).state(),
                source@,
                target@,
                types::tys(members@),
                intersection_state,
            ),
            r,
        ),
    decreases old(relater).scope().db.room, 12nat, old(relater).room_left(), 89nat, 0nat,
{
    let (found, indeterminate) = try_union_members(relater, source, members, intersection_state);
    if found {
        return Ok(());
    }
    if indeterminate.is_some() {
        return settle(indeterminate);
    }
    if !relater.is_explain() {
        return Err(RelationFailure::Unrelated);
    }
    match nearest_member(relater, source, members, intersection_state) {
        Err(failure) => Err(failure),
        Ok(None) => relater.fail_types(source, target),
        Ok(Some((best_index, missing_keys))) => {
            assert(types::tys(members@)[best_index as int] == members@[best_index as int]@);
            assert(error_chain::keys_ty(missing_keys@).len() == missing_keys@.len());
            if missing_keys.len() > 0 {
                return unrelated_missing_members(
                    relater,
                    source,
                    &members[best_index],
                    &missing_keys,
                );
            }
            relater.relate(source, &members[best_index], intersection_state)
        },
    }
}

} // verus!
