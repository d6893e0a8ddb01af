//! Comparing with object types.

use std::sync::Arc;
use vstd::prelude::*;

use crate::types;
use crate::type_check::{entries, error_chain, relation};
use crate::type_check::error_chain::MessageTy;
use crate::type_check::relation::{
    IntersectionState, Rel, RelScope, RelState, Relater, RelationResult,
};
use crate::type_check::structured::tuple;
use crate::type_check::structured::tuple::positive_key;
use crate::types::{KeyTy, LuaMemberKey, LuaObjectType, LuaType, ObjectTy, Ty};

verus! {

/// What an object has under integers, compared with the element type of an array.
pub open spec fn rel_object_array(
    c: RelScope,
    st: RelState,
    source: Ty,
    target: Ty,
    o: ObjectTy,
    slot: Ty,
    state: IntersectionState,
) -> Rel
    decreases relation::levels(c), 69nat, 0nat,
{
    let r = rel_object_fields(c, st, o.fields, 0, slot, state);
    if r.res is Err {
        r
    } else {
        let r2 = rel_object_indexes(c, r.st, o.index_access, 0, slot, state);
        if r2.res is Err || has_elements(o) {
            r2
        } else {
            relation::rel_fail(c, r2.st, relation::misfit(source, target))
        }
    }
}

/// The object has something under an integer.
#[verifier::opaque]
pub open spec fn has_elements(o: ObjectTy) -> bool {
    has_positive_key(o.fields) || has_integer_index(o.index_access)
}

#[verifier::opaque]
pub open spec fn has_positive_key(fields: Seq<(KeyTy, Ty)>) -> bool {
    exists|i: int| 0 <= i < fields.len() && tuple::is_positive_key((#[trigger] fields[i]).0)
}

pub open spec fn has_integer_index(indexes: Seq<(Ty, Ty)>) -> bool {
    exists|i: int| 0 <= i < indexes.len() && entries::ty_is_integer((#[trigger] indexes[i]).0)
}

pub open spec fn rel_object_fields(
    c: RelScope,
    st: RelState,
    fields: Seq<(KeyTy, Ty)>,
    k: nat,
    slot: Ty,
    state: IntersectionState,
) -> Rel
    decreases relation::levels(c), 68nat, fields.len() - k,
{
    if k >= fields.len() {
        relation::rel_ok(st)
    } else if !tuple::is_positive_key(fields[k as int].0) {
        rel_object_fields(c, st, fields, k + 1, slot, state)
    } else {
        let r = rel_slot(
            c,
            st,
            fields[k as int].1,
            slot,
            error_chain::property_msg(fields[k as int].0),
            state,
        );
        if r.res is Err {
            r
        } else {
            rel_object_fields(c, r.st, fields, k + 1, slot, state)
        }
    }
}

pub open spec fn rel_object_indexes(
    c: RelScope,
    st: RelState,
    indexes: Seq<(Ty, Ty)>,
    k: nat,
    slot: Ty,
    state: IntersectionState,
) -> Rel
    decreases relation::levels(c), 68nat, indexes.len() - k,
{
    if k >= indexes.len() {
        relation::rel_ok(st)
    } else if !entries::ty_is_integer(indexes[k as int].0) {
        rel_object_indexes(c, st, indexes, k + 1, slot, state)
    } else {
        let r = rel_slot(
            c,
            st,
            indexes[k as int].1,
            slot,
            MessageTy::IndexKey { key_type: indexes[k as int].0 },
            state,
        );
        if r.res is Err {
            r
        } else {
            rel_object_indexes(c, r.st, indexes, k + 1, slot, state)
        }
    }
}

/// One element, compared with the element type of an array.
pub open spec fn rel_slot(
    c: RelScope,
    st: RelState,
    element: Ty,
    slot: Ty,
    message: MessageTy,
    state: IntersectionState,
) -> Rel
    decreases relation::levels(c), 67nat, 0nat,
{
    let spent = relation::rel_spend(st);
    if spent.res is Err {
        spent
    } else {
        relation::rel_note(c, relation::rel_types(c, spent.st, element, slot, state), message)
    }
}

#[verifier::loop_isolation(false)]
fn has_integer_part(o: &LuaObjectType) -> (r: bool)
    ensures
        r == has_elements(o@),
{
    proof {
        reveal(has_positive_key);
    }
    proof {
        reveal(has_elements);
    }
    let ghost fields = types::field_tys(o.fields@);
    let ghost indexes = types::pair_tys(o.index_access@);
    assert(o@.fields == fields && o@.index_access == indexes);
    let mut i: usize = 0;
    while i < o.fields.len()
        invariant
            i <= o.fields@.len(),
            fields == types::field_tys(o.fields@),
            o@.fields == fields,
            forall|j: int| 0 <= j < i ==> !tuple::is_positive_key((#[trigger] fields[j]).0),
        decreases o.fields@.len() - i,
    {
        assert(fields[i as int] == (o.fields@[i as int].0@, o.fields@[i as int].1@));
        if positive_key(&o.fields[i].0).is_some() {
            return true;
        }
        i += 1;
    }
    i = 0;
    while i < o.index_access.len()
        invariant
            i <= o.index_access@.len(),
            indexes == types::pair_tys(o.index_access@),
            o@.index_access == indexes,
            forall|j: int| 0 <= j < i ==> !entries::ty_is_integer((#[trigger] indexes[j]).0),
        decreases o.index_access@.len() - i,
    {
        assert(indexes[i as int] == (o.index_access@[i as int].0@, o.index_access@[i as int].1@));
        if o.index_access[i].0.is_integer() {
            return true;
        }
        i += 1;
    }
    false
}

pub fn relate_object_to_array(
    relater: &mut Relater,
    source: &LuaType,
    target: &LuaType,
    source_object: &LuaObjectType,
    slot: &LuaType,
    intersection_state: IntersectionState,
) -> (r: RelationResult)
    ensures
        final(relater).did(
            *old(relater),
            rel_object_array(
                old(relater).scope(),
                old(relater).state(),
                source@,
                target@,
                source_object@,
                slot@,
                intersection_state,
            ),
            r,
        ),
    decreases old(relater).scope().db.room, 12nat, old(relater).room_left(), 69nat, 0nat,
{
    assert(source_object@.fields == types::field_tys(source_object.fields@));
    assert(source_object@.index_access == types::pair_tys(source_object.index_access@));
    let result = relate_object_fields(relater, &source_object.fields, slot, intersection_state);
    if result.is_err() {
        return result;
    }
    let result = relate_object_indexes(
        relater,
        &source_object.index_access,
        slot,
        intersection_state,
    );
    if result.is_ok() && !has_integer_part(source_object) {
        return relater.fail_types(source, target);
    }
    result
}

#[verifier::loop_isolation(false)]
fn relate_object_fields(
    relater: &mut Relater,
    fields: &Vec<(LuaMemberKey, LuaType)>,
    slot: &LuaType,
    intersection_state: IntersectionState,
) -> (r: RelationResult)
    ensures
        final(relater).did(
            *old(relater),
            rel_object_fields(
                old(relater).scope(),
                old(relater).state(),
                types::field_tys(fields@),
                0,
                slot@,
                intersection_state,
            ),
            r,
        ),
    decreases old(relater).scope().db.room, 12nat, old(relater).room_left(), 68nat, fields@.len(),
{
    let ghost c = relater.scope();
    let ghost all = types::field_tys(fields@);
    let ghost whole = rel_object_fields(
        c,
        relater.state(),
        all,
        0,
        slot@,

        intersection_state,
    );
    let mut i: usize = 0;
    while i < fields.len()
        invariant
            i <= fields@.len(),
            relater.moved(*old(relater), relater.state()),
            whole == rel_object_fields(
        c,
        relater.state(),
        all,
        i as nat,
        slot@,

        intersection_state,
    ),
        decreases fields@.len() - i,
    {

        let (key, field) = &fields[i];
        assert(all[i as int] == (key@, field@));
        if positive_key(key).is_some() {
            if let Err(failure) = relate_member_to_slot(
                relater,
                key,
                field,
                slot,
                intersection_state,
            ) {
                return Err(failure);
            }
        }
        i += 1;
    }
    Ok(())
}

#[verifier::loop_isolation(false)]
fn relate_object_indexes(
    relater: &mut Relater,
    indexes: &Vec<(LuaType, LuaType)>,
    slot: &LuaType,
    intersection_state: IntersectionState,
) -> (r: RelationResult)
    ensures
        final(relater).did(
            *old(relater),
            rel_object_indexes(
                old(relater).scope(),
                old(relater).state(),
                types::pair_tys(indexes@),
                0,
                slot@,
                intersection_state,
            ),
            r,
        ),
    decreases old(relater).scope().db.room, 12nat, old(relater).room_left(), 68nat, indexes@.len(),
{
    let ghost c = relater.scope();
    let ghost all = types::pair_tys(indexes@);
    let ghost whole = rel_object_indexes(
        c,
        relater.state(),
        all,
        0,
        slot@,

        intersection_state,
    );
    let mut i: usize = 0;
    while i < indexes.len()
        invariant
            i <= indexes@.len(),
            relater.moved(*old(relater), relater.state()),
            whole == rel_object_indexes(
        c,
        relater.state(),
        all,
        i as nat,
        slot@,

        intersection_state,
    ),
        decreases indexes@.len() - i,
    {

        let (key, value) = &indexes[i];
        assert(all[i as int] == (key@, value@));
        if key.is_integer() {
            if let Err(failure) = relate_index_to_slot(
                relater,
                key,
                value,
                slot,
                intersection_state,
            ) {
                return Err(failure);
            }
        }
        i += 1;
    }
    Ok(())
}

/// One member, compared with the element type of an array.
pub fn relate_member_to_slot(
    relater: &mut Relater,
    key: &LuaMemberKey,
    element: &LuaType,
    slot: &LuaType,
    intersection_state: IntersectionState,
) -> (r: RelationResult)
    ensures
        final(relater).did(
            *old(relater),
            rel_slot(
                old(relater).scope(),
                old(relater).state(),
                element@,
                slot@,
                error_chain::property_msg(key@),
                intersection_state,
            ),
            r,
        ),
    decreases old(relater).scope().db.room, 12nat, old(relater).room_left(), 67nat, 0nat,
{
    if let Err(failure) = relater.consume_relation_budget() {
        return Err(failure);
    }
    let result = relater.relate(element, slot, intersection_state);
    relater.note_property(result, key)
}

/// What is under an index, compared with the element type of an array.
fn relate_index_to_slot(
    relater: &mut Relater,
    key: &LuaType,
    element: &LuaType,
    slot: &LuaType,
    intersection_state: IntersectionState,
) -> (r: RelationResult)
    ensures
        final(relater).did(
            *old(relater),
            rel_slot(
                old(relater).scope(),
                old(relater).state(),
                element@,
                slot@,
                (MessageTy::IndexKey { key_type: key@ }),
                intersection_state,
            ),
            r,
        ),
    decreases old(relater).scope().db.room, 12nat, old(relater).room_left(), 67nat, 0nat,
{
    if let Err(failure) = relater.consume_relation_budget() {
        return Err(failure);
    }
    let result = relater.relate(element, slot, intersection_state);
    relater.note_index(result, key)
}

} // verus!
