//! Comparing with arrays.

use std::sync::Arc;
use vstd::prelude::*;

use crate::types;
use crate::db::{DbIndex, DbTy};
use crate::type_check::{entries, normalize, relation};
use crate::type_check::entries::list_member_entries;
use crate::type_check::error_chain::{ChainMessage, MessageTy};
use crate::type_check::normalize::{effective_array_base, is_optional};
use crate::type_check::relation::{
    IntersectionState, Rel, RelScope, RelState, Relater, RelationResult,
};
use crate::type_check::structured::{index, member, tuple};
use crate::type_check::structured::index::relate_index_member;
use crate::type_check::structured::member::member_type;
use crate::type_check::structured::tuple::{
    has_integer_or_index, positive_key, tuple_check_len, tuple_element,
};
use crate::types::{
    ArrayTy, KeyTy, LuaArrayLen, LuaArrayType, LuaMemberKey, LuaObjectType, LuaTupleType, LuaType,
    ObjectTy, Ty, complex,
};

verus! {

/// How many elements a tuple demands of an array.
#[verifier::opaque]
pub open spec fn demanded_places(db: DbTy, types: Seq<Ty>) -> usize
    decreases types.len(),
{
    if types.len() == 0 {
        0
    } else {
        let front = demanded_places(db, types.drop_last());
        match types.last() {
            Ty::Variadic(v) => match complex::machine_opt_len(complex::variadic_min_len(*v)) {
                Some(len) => {
                    let places = tuple::saturated(types.len() - 1 + len);
                    if places > front {
                        places
                    } else {
                        front
                    }
                },
                None => front,
            },
            t => if normalize::omittable(db, t) {
                front
            } else {
                tuple::saturated(types.len() as int)
            },
        }
    }
}

/// How many elements an array has at least.
pub open spec fn known_len(len: LuaArrayLen) -> usize {
    match len {
        LuaArrayLen::Unbounded => 0,
        LuaArrayLen::Max(len) => if 0 <= len && len <= usize::MAX {
            len as usize
        } else {
            0
        },
    }
}

pub open spec fn rel_array_tuple(
    c: RelScope,
    st: RelState,
    source: ArrayTy,
    target: Seq<Ty>,
    state: IntersectionState,
) -> Rel
    decreases relation::levels(c), 69nat, 0nat,
{
    if known_len(source.len) < demanded_places(c.db, target) {
        relation::rel_fail(c, st, MessageTy::TooFewElements { count: demanded_places(c.db, target) })
    } else {
        rel_array_elements(c, st, source.base, target, 0, tuple::looked_at_len(target) as nat, state)
    }
}

/// The element type of an array, compared with the places of a tuple from place `k` on.
pub open spec fn rel_array_elements(
    c: RelScope,
    st: RelState,
    base: Ty,
    target: Seq<Ty>,
    k: nat,
    end: nat,
    state: IntersectionState,
) -> Rel
    decreases relation::levels(c), 68nat, end - k,
{
    if k >= end {
        relation::rel_ok(st)
    } else {
        let spent = relation::rel_spend(st);
        if spent.res is Err {
            spent
        } else {
            let r = match tuple::element_at(target, k) {
                None => spent,
                Some(t) => relation::rel_note(
                    c,
                    relation::rel_types(c, spent.st, base, t, state),
                    MessageTy::TupleElement { index: k as usize },
                ),
            };
            if r.res is Err {
                r
            } else {
                rel_array_elements(c, r.st, base, target, k + 1, end, state)
            }
        }
    }
}

/// What a source has under integers, compared with the element type of an array.
pub open spec fn rel_keyed_array(
    c: RelScope,
    st: RelState,
    source: Ty,
    target: Ty,
    slot: Ty,
    state: IntersectionState,
) -> Rel
    decreases relation::levels(c), 69nat, 0nat,
{
    let spent = relation::rel_spend(st);
    if spent.res is Err {
        spent
    } else {
        let m = member::rel_member_type(
            c,
            spent.st,
            source,
            KeyTy::TypeKey(Box::new(Ty::Integer)),
            state,
        );
        match m.res {
            Err(failure) => relation::rel_err(m.st, failure),
            Ok(None) => relation::rel_fail(c, m.st, relation::misfit(source, target)),
            Ok(Some(s)) => relation::rel_note(
                c,
                relation::rel_types(c, m.st, s, slot, state),
                MessageTy::ArrayElement,
            ),
        }
    }
}

/// The type of the element at an index: within the known length it is there, beyond it may be
/// missing.
pub open spec fn array_element(db: DbTy, a: ArrayTy, i: i64) -> Ty {
    match a.len {
        LuaArrayLen::Max(len) => if i <= len {
            a.base
        } else {
            normalize::array_slot(db, a.base)
        },
        LuaArrayLen::Unbounded => normalize::array_slot(db, a.base),
    }
}

/// The element of an array at an index, compared with a field.
pub open spec fn rel_array_field(
    c: RelScope,
    st: RelState,
    a: ArrayTy,
    i: i64,
    field: Ty,
    state: IntersectionState,
) -> Rel
    decreases relation::levels(c), 60nat, 0nat,
{
    let spent = relation::rel_spend(st);
    if spent.res is Err {
        spent
    } else {
        relation::rel_note(
            c,
            relation::rel_types(c, spent.st, array_element(c.db, a, i), field, state),
            MessageTy::ArrayElement,
        )
    }
}

pub open spec fn rel_array_object(
    c: RelScope,
    st: RelState,
    source: Ty,
    target: Ty,
    a: ArrayTy,
    o: ObjectTy,
    state: IntersectionState,
) -> Rel
    decreases relation::levels(c), 69nat, 0nat,
{
    let r = rel_array_fields(c, st, source, target, a, o.fields, 0, state);
    if r.res is Err || state == IntersectionState::Target {
        r
    } else {
        rel_array_indexes(c, r.st, a.base, o.index_access, 0, state)
    }
}

pub open spec fn rel_array_fields(
    c: RelScope,
    st: RelState,
    source: Ty,
    target: Ty,
    a: ArrayTy,
    fields: Seq<(KeyTy, Ty)>,
    k: nat,
    state: IntersectionState,
) -> Rel
    decreases relation::levels(c), 68nat, fields.len() - k,
{
    if k >= fields.len() {
        relation::rel_ok(st)
    } else {
        let (key, field) = fields[k as int];
        let r = if tuple::is_positive_key(key) {
            rel_array_field(c, st, a, key->Integer_0, field, state)
        } else if normalize::omittable(c.db, field) {
            relation::rel_ok(st)
        } else {
            relation::rel_fail(c, st, relation::misfit(source, target))
        };
        if r.res is Err {
            r
        } else {
            rel_array_fields(c, r.st, source, target, a, fields, k + 1, state)
        }
    }
}

pub open spec fn rel_array_indexes(
    c: RelScope,
    st: RelState,
    base: Ty,
    indexes: Seq<(Ty, Ty)>,
    k: nat,
    state: IntersectionState,
) -> Rel
    decreases relation::levels(c), 68nat, indexes.len() - k,
{
    if k >= indexes.len() {
        relation::rel_ok(st)
    } else {
        let r = rel_array_index(c, st, base, indexes[k as int].0, indexes[k as int].1, state);
        if r.res is Err {
            r
        } else {
            rel_array_indexes(c, r.st, base, indexes, k + 1, state)
        }
    }
}

pub open spec fn rel_array_index(
    c: RelScope,
    st: RelState,
    base: Ty,
    key: Ty,
    value: Ty,
    state: IntersectionState,
) -> Rel
    decreases relation::levels(c), 67nat, 0nat,
{
    let spent = relation::rel_spend(st);
    if spent.res is Err {
        spent
    } else {
        let r = relation::rel_note(
            c,
            relation::rel_types(c, spent.st, Ty::Integer, key, state),
            MessageTy::IndexKey { key_type: Ty::Integer },
        );
        if r.res is Err {
            r
        } else {
            relation::rel_note(c, relation::rel_types(c, r.st, base, value, state), MessageTy::ArrayElement)
        }
    }
}

/// An array as a value of a class: only what the class has under integers and indexes is compared.
pub open spec fn rel_array_class(
    c: RelScope,
    st: RelState,
    source: Ty,
    target: Ty,
    a: ArrayTy,
    state: IntersectionState,
) -> Rel
    decreases relation::levels(c), 64nat, 0nat,
{
    let members = entries::member_entries(c.db, target);
    let r = rel_array_members(c, st, source, target, a, members, 0, state);
    if r.res is Ok && !tuple::has_places(members) {
        relation::rel_fail(c, r.st, relation::misfit(source, target))
    } else {
        r
    }
}

pub open spec fn rel_array_members(
    c: RelScope,
    st: RelState,
    source: Ty,
    target: Ty,
    a: ArrayTy,
    members: Seq<(KeyTy, Ty)>,
    k: nat,
    state: IntersectionState,
) -> Rel
    decreases relation::levels(c), 63nat, members.len() - k,
{
    if k >= members.len() {
        relation::rel_ok(st)
    } else {
        let r = rel_array_member(
            c,
            st,
            source,
            target,
            a,
            members[k as int].0,
            members[k as int].1,
            state,
        );
        if r.res is Err {
            r
        } else {
            rel_array_members(c, r.st, source, target, a, members, k + 1, state)
        }
    }
}

pub open spec fn rel_array_member(
    c: RelScope,
    st: RelState,
    source: Ty,
    target: Ty,
    a: ArrayTy,
    key: KeyTy,
    member: Ty,
    state: IntersectionState,
) -> Rel
    decreases relation::levels(c), 62nat, 0nat,
{
    if tuple::is_positive_key(key) {
        rel_array_field(c, st, a, key->Integer_0, member, state)
    } else {
        match key {
            KeyTy::TypeKey(index) => if state == IntersectionState::Target {
                relation::rel_ok(st)
            } else {
                index::rel_index_member(c, st, source, target, *index, member, state)
            },
            _ => if normalize::omittable(c.db, member) {
                relation::rel_ok(st)
            } else {
                relation::rel_fail(c, st, relation::misfit(source, target))
            },
        }
    }
}

#[verifier::loop_isolation(false)]
fn array_required_len(db: &DbIndex, types: &Vec<LuaType>) -> (r: usize)
    ensures
        r == demanded_places(db@, types::tys(types@)),
{
    proof {
        reveal(demanded_places);
    }
    let ghost all = types::tys(types@);
    let mut required: usize = 0;
    let mut i: usize = 0;
    assert(all.take(0) =~= Seq::<Ty>::empty());
    while i < types.len()
        invariant
            i <= types@.len(),
            all == types::tys(types@),
            required == demanded_places(db@, all.take(i as int)),
        decreases types@.len() - i,
    {
        proof {
            assert(all.take(i + 1).drop_last() =~= all.take(i as int));
            assert(all.take(i + 1).last() == all[i as int]);
            assert(all[i as int] == types@[i as int]@);
        }
        match &types[i] {
            LuaType::Variadic(variadic) => {
                if let Some(min_len) = variadic.get_min_len() {
                    let places = i.saturating_add(min_len);
                    if places > required {
                        required = places;
                    }
                }
            },
            target_type => {
                if !is_optional(db, target_type) {
                    required = i + 1;
                }
            },
        }
        i += 1;
    }
    assert(all.take(i as int) =~= all);
    required
}

fn array_min_len(len: LuaArrayLen) -> (r: usize)
    ensures
        r == known_len(len),
{
    match len {
        LuaArrayLen::Unbounded => 0,
        LuaArrayLen::Max(len) => if len >= 0 && len as u64 <= usize::MAX as u64 {
            len as usize
        } else {
            0
        },
    }
}

#[verifier::loop_isolation(false)]
pub fn relate_array_to_tuple(
    relater: &mut Relater,
    source_array: &LuaArrayType,
    target_tuple: &LuaTupleType,
    intersection_state: IntersectionState,
) -> (r: RelationResult)
    ensures
        final(relater).did(
            *old(relater),
            rel_array_tuple(
                old(relater).scope(),
                old(relater).state(),
                source_array@,
                target_tuple@.types,
                intersection_state,
            ),
            r,
        ),
    decreases old(relater).scope().db.room, 12nat, old(relater).room_left(), 69nat, 0nat,
{
    assert(source_array@.base == source_array.base@);
    assert(target_tuple@.types == types::tys(target_tuple.types@));
    let required = array_required_len(relater.db(), &target_tuple.types);
    if array_min_len(source_array.len) < required {
        return relater.fail(ChainMessage::TooFewElements { count: required });
    }
    let end = tuple_check_len(&target_tuple.types);
    let base = source_array.get_base();
    let ghost c = relater.scope();
    let ghost whole = rel_array_elements(
        c,
        relater.state(),
        base@,
        target_tuple@.types,
        0,
        end as nat,

        intersection_state,
    );
    let mut i: usize = 0;
    while i < end
        invariant
            i <= end,
            relater.moved(*old(relater), relater.state()),
            whole == rel_array_elements(
        c,
        relater.state(),
        base@,
        target_tuple@.types,
        i as nat,
        end as nat,

        intersection_state,
    ),
        decreases end - i,
    {

        if let Err(failure) = relater.consume_relation_budget() {
            return Err(failure);
        }
        if let Some(target_type) = tuple_element(target_tuple, i) {
            let result = relater.relate(base, target_type, intersection_state);
            if let Err(failure) = relater.on_unrelated(
                result,
                ChainMessage::TupleElement { index: i },
            ) {
                return Err(failure);
            }
        }
        i += 1;
    }
    Ok(())
}

pub fn relate_table_generic_to_array(
    relater: &mut Relater,
    source: &LuaType,
    target: &LuaType,
    source_params: &Vec<LuaType>,
    slot: &LuaType,
    intersection_state: IntersectionState,
) -> (r: RelationResult)
    ensures
        final(relater).did(
            *old(relater),
            (if source_params@.len() != 2 || !(entries::ty_is_integer(source_params@[0]@)
                || source_params@[0]@ is Any) {
                relation::rel_fail(old(relater).scope(), old(relater).state(), relation::misfit(source@, target@))
            } else {
                relation::rel_note(
                    old(relater).scope(),
                    relation::rel_types(
                        old(relater).scope(),
                        old(relater).state(),
                        source_params@[1]@,
                        slot@,
                        intersection_state,
                    ),
                    MessageTy::ArrayElement,
                )
            }),
            r,
        ),
    decreases old(relater).scope().db.room, 12nat, old(relater).room_left(), 60nat, 0nat,
{
    if source_params.len() != 2 || (!source_params[0].is_integer() && !source_params[0].is_any()) {
        return relater.fail_types(source, target);
    }
    let result = relater.relate(&source_params[1], slot, intersection_state);
    relater.on_unrelated(result, ChainMessage::ArrayElement)
}

pub fn relate_keyed_source_to_array(
    relater: &mut Relater,
    source: &LuaType,
    target: &LuaType,
    slot: &LuaType,
    intersection_state: IntersectionState,
) -> (r: RelationResult)
    ensures
        final(relater).did(
            *old(relater),
            rel_keyed_array(
                old(relater).scope(),
                old(relater).state(),
                source@,
                target@,
                slot@,
                intersection_state,
            ),
            r,
        ),
    decreases old(relater).scope().db.room, 12nat, old(relater).room_left(), 69nat, 0nat,
{
    if let Err(failure) = relater.consume_relation_budget() {
        return Err(failure);
    }
    let key = LuaMemberKey::TypeKey(LuaType::Integer);
    assert(key@ == KeyTy::TypeKey(Box::new(Ty::Integer)));
    match member_type(relater, source, &key, intersection_state) {
        Err(failure) => Err(failure),
        Ok(None) => relater.fail_types(source, target),
        Ok(Some(source_type)) => {
            let result = relater.relate(&source_type, slot, intersection_state);
            relater.on_unrelated(result, ChainMessage::ArrayElement)
        },
    }
}

fn array_element_type(db: &DbIndex, a: &LuaArrayType, i: i64) -> (r: LuaType)
    ensures
        r@ == array_element(db@, a@, i),
{
    assert(a@.base == a.base@);
    match a.len {
        LuaArrayLen::Max(len) => if i <= len {
            a.base.clone()
        } else {
            effective_array_base(db, &a.base)
        },
        LuaArrayLen::Unbounded => effective_array_base(db, &a.base),
    }
}

fn relate_array_field(
    relater: &mut Relater,
    source_array: &LuaArrayType,
    i: i64,
    field: &LuaType,
    intersection_state: IntersectionState,
) -> (r: RelationResult)
    ensures
        final(relater).did(
            *old(relater),
            rel_array_field(
                old(relater).scope(),
                old(relater).state(),
                source_array@,
                i,
                field@,
                intersection_state,
            ),
            r,
        ),
    decreases old(relater).scope().db.room, 12nat, old(relater).room_left(), 60nat, 0nat,
{
    let element = array_element_type(relater.db(), source_array, i);
    if let Err(failure) = relater.consume_relation_budget() {
        return Err(failure);
    }
    let result = relater.relate(&element, field, intersection_state);
    relater.on_unrelated(result, ChainMessage::ArrayElement)
}

pub fn relate_array_to_object(
    relater: &mut Relater,
    source: &LuaType,
    target: &LuaType,
    source_array: &LuaArrayType,
    target_object: &LuaObjectType,
    intersection_state: IntersectionState,
) -> (r: RelationResult)
    ensures
        final(relater).did(
            *old(relater),
            rel_array_object(
                old(relater).scope(),
                old(relater).state(),
                source@,
                target@,
                source_array@,
                target_object@,
                intersection_state,
            ),
            r,
        ),
    decreases old(relater).scope().db.room, 12nat, old(relater).room_left(), 69nat, 0nat,
{
    assert(source_array@.base == source_array.base@);
    assert(target_object@.fields == types::field_tys(target_object.fields@));
    assert(target_object@.index_access == types::pair_tys(target_object.index_access@));
    let result = relate_array_fields(
        relater,
        source,
        target,
        source_array,
        &target_object.fields,
        intersection_state,
    );
    if result.is_err() || intersection_state.contains(IntersectionState::Target) {
        return result;
    }
    relate_array_indexes(
        relater,
        &source_array.base,
        &target_object.index_access,
        intersection_state,
    )
}

#[verifier::loop_isolation(false)]
fn relate_array_fields(
    relater: &mut Relater,
    source: &LuaType,
    target: &LuaType,
    source_array: &LuaArrayType,
    fields: &Vec<(LuaMemberKey, LuaType)>,
    intersection_state: IntersectionState,
) -> (r: RelationResult)
    ensures
        final(relater).did(
            *old(relater),
            rel_array_fields(
                old(relater).scope(),
                old(relater).state(),
                source@,
                target@,
                source_array@,
                types::field_tys(fields@),
                0,
                intersection_state,
            ),
            r,
        ),
    decreases old(relater).scope().db.room, 12nat, old(relater).room_left(), 68nat, fields@.len(),
{
    let ghost c = relater.scope();
    let ghost all = types::field_tys(fields@);
    let ghost whole = rel_array_fields(
        c,
        relater.state(),
        source@,
        target@,
        source_array@,
        all,
        0,

        intersection_state,
    );
    let mut i: usize = 0;
    while i < fields.len()
        invariant
            i <= fields@.len(),
            relater.moved(*old(relater), relater.state()),
            whole == rel_array_fields(
        c,
        relater.state(),
        source@,
        target@,
        source_array@,
        all,
        i as nat,

        intersection_state,
    ),
        decreases fields@.len() - i,
    {

        let (key, field) = &fields[i];
        assert(all[i as int] == (key@, field@));
        let result = match positive_key(key) {
            Some(idx) => relate_array_field(relater, source_array, idx, field, intersection_state),
            None => if is_optional(relater.db(), field) {
                Ok(())
            } else {
                relater.fail_types(source, target)
            },
        };
        if let Err(failure) = result {
            return Err(failure);
        }
        i += 1;
    }
    Ok(())
}

#[verifier::loop_isolation(false)]
fn relate_array_indexes(
    relater: &mut Relater,
    base: &LuaType,
    indexes: &Vec<(LuaType, LuaType)>,
    intersection_state: IntersectionState,
) -> (r: RelationResult)
    ensures
        final(relater).did(
            *old(relater),
            rel_array_indexes(
                old(relater).scope(),
                old(relater).state(),
                base@,
                types::pair_tys(indexes@),
                0,
                intersection_state,
            ),
            r,
        ),
    decreases old(relater).scope().db.room, 12nat, old(relater).room_left(), 68nat, indexes@.len(),
{
    let ghost c = relater.scope();
    let ghost all = types::pair_tys(indexes@);
    let ghost whole = rel_array_indexes(
        c,
        relater.state(),
        base@,
        all,
        0,

        intersection_state,
    );
    let mut i: usize = 0;
    while i < indexes.len()
        invariant
            i <= indexes@.len(),
            relater.moved(*old(relater), relater.state()),
            whole == rel_array_indexes(
        c,
        relater.state(),
        base@,
        all,
        i as nat,

        intersection_state,
    ),
        decreases indexes@.len() - i,
    {

        let (key, value) = &indexes[i];
        assert(all[i as int] == (key@, value@));
        if let Err(failure) = relate_array_index(relater, base, key, value, intersection_state) {
            return Err(failure);
        }
        i += 1;
    }
    Ok(())
}

fn relate_array_index(
    relater: &mut Relater,
    base: &LuaType,
    key: &LuaType,
    value: &LuaType,
    intersection_state: IntersectionState,
) -> (r: RelationResult)
    ensures
        final(relater).did(
            *old(relater),
            rel_array_index(
                old(relater).scope(),
                old(relater).state(),
                base@,
                key@,
                value@,
                intersection_state,
            ),
            r,
        ),
    decreases old(relater).scope().db.room, 12nat, old(relater).room_left(), 67nat, 0nat,
{
    if let Err(failure) = relater.consume_relation_budget() {
        return Err(failure);
    }
    let key_result = relater.relate(&LuaType::Integer, key, intersection_state);
    if let Err(failure) = relater.note_index(key_result, &LuaType::Integer) {
        return Err(failure);
    }
    let value_result = relater.relate(base, value, intersection_state);
    relater.on_unrelated(value_result, ChainMessage::ArrayElement)
}

/// An array as a value of a class: only integers and indexes are compared.
pub fn relate_array_to_declared_target(
    relater: &mut Relater,
    source: &LuaType,
    target: &LuaType,
    source_array: &LuaArrayType,
    intersection_state: IntersectionState,
) -> (r: RelationResult)
    ensures
        final(relater).did(
            *old(relater),
            rel_array_class(
                old(relater).scope(),
                old(relater).state(),
                source@,
                target@,
                source_array@,
                intersection_state,
            ),
            r,
        ),
    decreases old(relater).scope().db.room, 12nat, old(relater).room_left(), 64nat, 0nat,
{
    let members = list_member_entries(relater.db(), target);
    let result = relate_array_members(
        relater,
        source,
        target,
        source_array,
        &members,
        intersection_state,
    );
    if result.is_ok() && !has_integer_or_index(&members) {
        return relater.fail_types(source, target);
    }
    result
}

#[verifier::loop_isolation(false)]
fn relate_array_members(
    relater: &mut Relater,
    source: &LuaType,
    target: &LuaType,
    source_array: &LuaArrayType,
    members: &Vec<(LuaMemberKey, LuaType)>,
    intersection_state: IntersectionState,
) -> (r: RelationResult)
    ensures
        final(relater).did(
            *old(relater),
            rel_array_members(
                old(relater).scope(),
                old(relater).state(),
                source@,
                target@,
                source_array@,
                types::field_tys(members@),
                0,
                intersection_state,
            ),
            r,
        ),
    decreases old(relater).scope().db.room, 12nat, old(relater).room_left(), 63nat, members@.len(),
{
    let ghost c = relater.scope();
    let ghost all = types::field_tys(members@);
    let ghost whole = rel_array_members(
        c,
        relater.state(),
        source@,
        target@,
        source_array@,
        all,
        0,

        intersection_state,
    );
    let mut i: usize = 0;
    while i < members.len()
        invariant
            i <= members@.len(),
            relater.moved(*old(relater), relater.state()),
            whole == rel_array_members(
        c,
        relater.state(),
        source@,
        target@,
        source_array@,
        all,
        i as nat,

        intersection_state,
    ),
        decreases members@.len() - i,
    {

        let (key, member) = &members[i];
        assert(all[i as int] == (key@, member@));
        if let Err(failure) = relate_array_member(
            relater,
            source,
            target,
            source_array,
            key,
            member,
            intersection_state,
        ) {
            return Err(failure);
        }
        i += 1;
    }
    Ok(())
}

fn relate_array_member(
    relater: &mut Relater,
    source: &LuaType,
    target: &LuaType,
    source_array: &LuaArrayType,
    key: &LuaMemberKey,
    member: &LuaType,
    intersection_state: IntersectionState,
) -> (r: RelationResult)
    ensures
        final(relater).did(
            *old(relater),
            rel_array_member(
                old(relater).scope(),
                old(relater).state(),
                source@,
                target@,
                source_array@,
                key@,
                member@,
                intersection_state,
            ),
            r,
        ),
    decreases old(relater).scope().db.room, 12nat, old(relater).room_left(), 62nat, 0nat,
{
    if let Some(idx) = positive_key(key) {
        return relate_array_field(relater, source_array, idx, member, intersection_state);
    }
    match key {
        LuaMemberKey::TypeKey(target_key_type) => {
            if intersection_state.contains(IntersectionState::Target) {
                return Ok(());
            }
            relate_index_member(
                relater,
                source,
                target,
                target_key_type,
                member,
                intersection_state,
            )
        },
        _ => {
            if is_optional(relater.db(), member) {
                return Ok(());
            }
            relater.fail_types(source, target)
        },
    }
}

} // verus!
