//! Comparing with written tables.

use vstd::prelude::*;

use crate::types;
use crate::type_check::{entries, error_chain, relation};
use crate::type_check::entries::list_member_entries;
use crate::type_check::relation::{
    IntersectionState, Rel, RelScope, RelState, Relater, RelationResult,
};
use crate::type_check::structured::{object_type, tuple};
use crate::type_check::structured::object_type::relate_member_to_slot;
use crate::type_check::structured::tuple::positive_key;
use crate::types::{KeyTy, LuaMemberKey, LuaType, Ty};

verus! {

/// What a table has under integers, compared with the element type of an array. An empty table is an
/// empty array.
pub open spec fn rel_table_array(
    c: RelScope,
    st: RelState,
    source: Ty,
    target: Ty,
    slot: Ty,
    state: IntersectionState,
) -> Rel
    decreases relation::levels(c), 69nat, 0nat,
{
    let members = entries::member_entries(c.db, source);
    if members.len() == 0 {
        relation::rel_ok(st)
    } else {
        let r = rel_table_members(c, st, members, 0, slot, state);
        if r.res is Err || object_type::has_positive_key(members) {
            r
        } else {
            relation::rel_fail(c, r.st, relation::misfit(source, target))
        }
    }
}

pub open spec fn rel_table_members(
    c: RelScope,
    st: RelState,
    members: Seq<(KeyTy, Ty)>,
    k: nat,
    slot: Ty,
    state: IntersectionState,
) -> Rel
    decreases relation::levels(c), 68nat, members.len() - k,
{
    if k >= members.len() {
        relation::rel_ok(st)
    } else {
        let r = rel_table_member(
            c,
            st,
            members[k as int].0,
            members[k as int].1,
            slot,
            state,
        );
        if r.res is Err {
            r
        } else {
            rel_table_members(c, r.st, members, k + 1, slot, state)
        }
    }
}

/// One member of a table. What is not under a positive integer is no element.
pub open spec fn rel_table_member(
    c: RelScope,
    st: RelState,
    key: KeyTy,
    member: Ty,
    slot: Ty,
    state: IntersectionState,
) -> Rel
    decreases relation::levels(c), 67nat, 1nat,
{
    if tuple::is_positive_key(key) {
        object_type::rel_slot(c, st, member, slot, error_chain::property_msg(key), state)
    } else {
        relation::rel_spend(st)
    }
}

#[verifier::loop_isolation(false)]
fn has_positive_member(members: &Vec<(LuaMemberKey, LuaType)>) -> (r: bool)
    ensures
        r == object_type::has_positive_key(types::field_tys(members@)),
{
    proof {
        reveal(object_type::has_positive_key);
    }
    let ghost all = types::field_tys(members@);
    let mut i: usize = 0;
    while i < members.len()
        invariant
            i <= members@.len(),
            all == types::field_tys(members@),
            forall|j: int| 0 <= j < i ==> !tuple::is_positive_key((#[trigger] all[j]).0),
        decreases members@.len() - i,
    {
        assert(all[i as int] == (members@[i as int].0@, members@[i as int].1@));
        if positive_key(&members[i].0).is_some() {
            return true;
        }
        i += 1;
    }
    false
}

pub fn relate_table_const_to_array(
    relater: &mut Relater,
    source: &LuaType,
    target: &LuaType,
    slot: &LuaType,
    intersection_state: IntersectionState,
) -> (r: RelationResult)
    ensures
        final(relater).did(
            *old(relater),
            rel_table_array(
                old(relater).scope(),
                old(relater).state(),
                source@,
                target@,
                slot@,
                intersection_state,
            ),
            r,
        ),
    decreases old(relater).scope().db.room, 12nat, old(relater).room_left(), 69nat, 0nat,
{
    let members = list_member_entries(relater.db(), source);
    assert(types::field_tys(members@).len() == members@.len());
    if members.len() == 0 {
        return Ok(());
    }
    let result = relate_table_members(relater, &members, slot, intersection_state);
    if result.is_ok() && !has_positive_member(&members) {
        return relater.fail_types(source, target);
    }
    result
}

#[verifier::loop_isolation(false)]
fn relate_table_members(
    relater: &mut Relater,
    members: &Vec<(LuaMemberKey, LuaType)>,
    slot: &LuaType,
    intersection_state: IntersectionState,
) -> (r: RelationResult)
    ensures
        final(relater).did(
            *old(relater),
            rel_table_members(
                old(relater).scope(),
                old(relater).state(),
                types::field_tys(members@),
                0,
                slot@,
                intersection_state,
            ),
            r,
        ),
    decreases old(relater).scope().db.room, 12nat, old(relater).room_left(), 68nat, members@.len(),
{
    let ghost c = relater.scope();
    let ghost all = types::field_tys(members@);
    let ghost whole = rel_table_members(
        c,
        relater.state(),
        all,
        0,
        slot@,

        intersection_state,
    );
    let mut i: usize = 0;
    while i < members.len()
        invariant
            i <= members@.len(),
            relater.moved(*old(relater), relater.state()),
            whole == rel_table_members(
        c,
        relater.state(),
        all,
        i as nat,
        slot@,

        intersection_state,
    ),
        decreases members@.len() - i,
    {

        let (key, member) = &members[i];
        assert(all[i as int] == (key@, member@));
        if let Err(failure) = relate_table_member(relater, key, member, slot, intersection_state) {
            return Err(failure);
        }
        i += 1;
    }
    Ok(())
}

fn relate_table_member(
    relater: &mut Relater,
    key: &LuaMemberKey,
    member: &LuaType,
    slot: &LuaType,
    intersection_state: IntersectionState,
) -> (r: RelationResult)
    ensures
        final(relater).did(
            *old(relater),
            rel_table_member(
                old(relater).scope(),
                old(relater).state(),
                key@,
                member@,
                slot@,
                intersection_state,
            ),
            r,
        ),
    decreases old(relater).scope().db.room, 12nat, old(relater).room_left(), 67nat, 1nat,
{
    if positive_key(key).is_some() {
        relate_member_to_slot(relater, key, member, slot, intersection_state)
    } else {
        relater.consume_relation_budget()
    }
}

} // verus!
