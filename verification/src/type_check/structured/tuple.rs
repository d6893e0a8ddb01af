//! Comparing with tuples.

use std::sync::Arc;
use vstd::prelude::*;

use crate::types;
use crate::db::{DbIndex, DbTy};
use crate::type_check::{entries, error_chain, normalize, relation};
use crate::type_check::entries::{
    EntryOrigin, EntryOriginTy, EntryTy, IndexEntry, list_member_entries, number_of_place,
    visit_index_entries,
};
use crate::type_check::error_chain::{ChainMessage, MessageTy};
use crate::type_check::normalize::is_optional;
use crate::type_check::relation::{
    IntersectionState, Rel, RelScope, RelState, Relater, RelationResult,
};
use crate::type_check::structured::{index, member};
use crate::type_check::structured::index::relate_index_member;
use crate::type_check::structured::member::{member_type, unrelated_missing_members};
use crate::types::{
    KeyTy, LuaMemberKey, LuaObjectType, LuaTupleType, LuaType, ObjectTy, Ty, VariadicTy,
    VariadicType, complex,
};

verus! {

pub open spec fn saturated(n: int) -> usize {
    if n > usize::MAX {
        usize::MAX
    } else {
        n as usize
    }
}

/// How many places of a run of values are looked at.
pub open spec fn run_len(v: VariadicTy) -> usize {
    match complex::machine_opt_len(complex::variadic_max_len(v)) {
        Some(len) => len,
        None => match complex::machine_opt_len(complex::variadic_min_len(v)) {
            Some(len) => saturated(len + 1),
            None => 1,
        },
    }
}

/// How many places of a tuple are looked at.
#[verifier::opaque]
pub open spec fn looked_at_len(types: Seq<Ty>) -> usize {
    if types.len() > 0 {
        match types.last() {
            Ty::Variadic(v) => saturated(types.len() - 1 + run_len(*v)),
            _ => saturated(types.len() as int),
        }
    } else {
        0
    }
}

/// How many elements a target tuple demands.
#[verifier::opaque]
pub open spec fn demanded_len(types: Seq<Ty>) -> usize {
    if types.len() > 0 {
        match types.last() {
            Ty::Variadic(v) => saturated(
                types.len() - 1 + match complex::machine_opt_len(complex::variadic_min_len(*v)) {
                    Some(len) => len as int,
                    None => 0,
                },
            ),
            _ => saturated(types.len() as int),
        }
    } else {
        0
    }
}

/// How many elements of a target tuple are compared with a source of `len` elements.
#[verifier::opaque]
pub open spec fn compared_len(types: Seq<Ty>, len: usize) -> usize {
    if types.len() > 0 {
        match types.last() {
            Ty::Variadic(v) => match complex::machine_opt_len(complex::variadic_max_len(*v)) {
                Some(max) => saturated(types.len() - 1 + max),
                None => if len > demanded_len(types) {
                    len
                } else {
                    demanded_len(types)
                },
            },
            _ => saturated(types.len() as int),
        }
    } else {
        0
    }
}

/// The element at a place of a tuple; of a run of values, its first one.
#[verifier::opaque]
pub open spec fn element_at(types: Seq<Ty>, idx: nat) -> Option<Ty> {
    match complex::tuple_at(types, idx) {
        Some(Ty::Variadic(v)) => complex::variadic_at(*v, 0),
        other => other,
    }
}

pub open spec fn rel_tuple_tuple(
    c: RelScope,
    st: RelState,
    source: Seq<Ty>,
    target: Seq<Ty>,
    state: IntersectionState,
) -> Rel
    decreases relation::levels(c), 69nat, 0nat,
{
    rel_elements(
        c,
        st,
        source,
        target,
        0,
        compared_len(target, looked_at_len(source)) as nat,
        state,
    )
}

/// The elements of two tuples from place `k` on, up to place `end`.
pub open spec fn rel_elements(
    c: RelScope,
    st: RelState,
    source: Seq<Ty>,
    target: Seq<Ty>,
    k: nat,
    end: nat,
    state: IntersectionState,
) -> Rel
    decreases relation::levels(c), 68nat, end - k,
{
    if k >= end {
        relation::rel_ok(st)
    } else {
        let r = rel_element(c, st, element_at(source, k), target, k, state);
        if r.res is Err {
            r
        } else {
            rel_elements(c, r.st, source, target, k + 1, end, state)
        }
    }
}

pub open spec fn rel_element(
    c: RelScope,
    st: RelState,
    source: Option<Ty>,
    target: Seq<Ty>,
    k: nat,
    state: IntersectionState,
) -> Rel
    decreases relation::levels(c), 67nat, 0nat,
{
    let spent = relation::rel_spend(st);
    if spent.res is Err {
        spent
    } else {
        match element_at(target, k) {
            None => spent,
            Some(t) => match source {
                None => if k >= demanded_len(target) || normalize::omittable(c.db, t) {
                    spent
                } else {
                    relation::rel_fail(
                        c,
                        spent.st,
                        MessageTy::MissingTupleElement { index: k as usize },
                    )
                },
                Some(s) => relation::rel_note(
                    c,
                    relation::rel_types(c, spent.st, s, t, state),
                    MessageTy::TupleElement { index: k as usize },
                ),
            },
        }
    }
}

/// Every element of a tuple has to fit the element type of an array, from place `k` on.
pub open spec fn rel_tuple_array(
    c: RelScope,
    st: RelState,
    types: Seq<Ty>,
    k: nat,
    slot: Ty,
    state: IntersectionState,
) -> Rel
    decreases relation::levels(c), 69nat, types.len() - k,
{
    if k >= types.len() {
        relation::rel_ok(st)
    } else {
        let spent = relation::rel_spend(st);
        if spent.res is Err {
            spent
        } else {
            let r = match types[k as int] {
                Ty::Variadic(v) => match *v {
                    VariadicTy::Base(base) => relation::rel_note(
                        c,
                        relation::rel_types(c, spent.st, base, slot, state),
                        MessageTy::TupleElement { index: k as usize },
                    ),
                    VariadicTy::Multi(run) => rel_run_array(c, spent.st, run, 0, k, slot, state),
                },
                t => relation::rel_note(
                    c,
                    relation::rel_types(c, spent.st, t, slot, state),
                    MessageTy::TupleElement { index: k as usize },
                ),
            };
            if r.res is Err {
                r
            } else {
                rel_tuple_array(c, r.st, types, k + 1, slot, state)
            }
        }
    }
}

pub open spec fn rel_run_array(
    c: RelScope,
    st: RelState,
    run: Seq<Ty>,
    k: nat,
    at: nat,
    slot: Ty,
    state: IntersectionState,
) -> Rel
    decreases relation::levels(c), 68nat, run.len() - k,
{
    if k >= run.len() {
        relation::rel_ok(st)
    } else {
        let r = relation::rel_note(
            c,
            relation::rel_types(c, st, run[k as int], slot, state),
            MessageTy::TupleElement { index: saturated((at + k) as int) },
        );
        if r.res is Err {
            r
        } else {
            rel_run_array(c, r.st, run, k + 1, at, slot, state)
        }
    }
}

/// What a source has under its integer keys, compared with a tuple from place `k` on.
pub open spec fn rel_keyed_tuple(
    c: RelScope,
    st: RelState,
    source: Ty,
    types: Seq<Ty>,
    k: nat,
    state: IntersectionState,
) -> Rel
    decreases relation::levels(c), 69nat, types.len() - k,
{
    if k >= types.len() {
        relation::rel_ok(st)
    } else {
        let r = rel_keyed_element(c, st, source, types[k as int], k, state);
        if r.res is Err {
            r
        } else {
            rel_keyed_tuple(c, r.st, source, types, k + 1, state)
        }
    }
}

pub open spec fn rel_keyed_element(
    c: RelScope,
    st: RelState,
    source: Ty,
    target: Ty,
    k: nat,
    state: IntersectionState,
) -> Rel
    decreases relation::levels(c), 68nat, 0nat,
{
    let spent = relation::rel_spend(st);
    if spent.res is Err {
        spent
    } else {
        let m = member::rel_member_type(
            c,
            spent.st,
            source,
            KeyTy::Integer(entries::place_number(k as usize)),
            state,
        );
        match m.res {
            Err(failure) => relation::rel_err(m.st, failure),
            Ok(None) => if normalize::omittable(c.db, target) {
                relation::rel_ok(m.st)
            } else {
                relation::rel_fail(c, m.st, MessageTy::MissingTupleElement { index: k as usize })
            },
            Ok(Some(s)) => relation::rel_note(
                c,
                relation::rel_types(c, m.st, s, target, state),
                MessageTy::TupleElement { index: k as usize },
            ),
        }
    }
}

/// The place that an integer key stands for. Keys below one lie beyond every element.
pub open spec fn place_of_key(i: i64) -> usize {
    if i > 0 {
        (i - 1) as usize
    } else {
        (u64::MAX + i) as usize
    }
}

pub open spec fn is_positive_key(key: KeyTy) -> bool {
    match key {
        KeyTy::Integer(i) => i > 0,
        _ => false,
    }
}

/// A field that an ordered list of values cannot have is demanded.
#[verifier::opaque]
pub open spec fn demands_other_field(db: DbTy, fields: Seq<(KeyTy, Ty)>) -> bool {
    exists|i: int|
        0 <= i < fields.len() && !is_positive_key((#[trigger] fields[i]).0) && !normalize::omittable(
            db,
            fields[i].1,
        )
}

pub open spec fn rel_tuple_object(
    c: RelScope,
    st: RelState,
    source: Ty,
    target: Ty,
    types: Seq<Ty>,
    o: ObjectTy,
    state: IntersectionState,
) -> Rel
    decreases relation::levels(c), 69nat, 0nat,
{
    if demands_other_field(c.db, o.fields) {
        relation::rel_fail(c, st, relation::misfit(source, target))
    } else {
        let r = rel_tuple_fields(c, st, source, target, types, o.fields, 0, state);
        if r.res is Err || state == IntersectionState::Target {
            r
        } else {
            rel_tuple_indexes(
                c,
                r.st,
                entries::index_entries(c.db, source),
                o.index_access,
                0,
                state,
            )
        }
    }
}

pub open spec fn rel_tuple_fields(
    c: RelScope,
    st: RelState,
    source: Ty,
    target: Ty,
    types: Seq<Ty>,
    fields: Seq<(KeyTy, Ty)>,
    k: nat,
    state: IntersectionState,
) -> Rel
    decreases relation::levels(c), 68nat, fields.len() - k,
{
    if k >= fields.len() {
        relation::rel_ok(st)
    } else {
        let r = match fields[k as int].0 {
            KeyTy::Integer(i) => rel_tuple_field(
                c,
                st,
                source,
                target,
                types,
                place_of_key(i),
                fields[k as int].1,
                state,
            ),
            _ => relation::rel_ok(st),
        };
        if r.res is Err {
            r
        } else {
            rel_tuple_fields(c, r.st, source, target, types, fields, k + 1, state)
        }
    }
}

/// The element of a tuple at a place, compared with a field.
pub open spec fn rel_tuple_field(
    c: RelScope,
    st: RelState,
    source: Ty,
    target: Ty,
    types: Seq<Ty>,
    index: usize,
    field: Ty,
    state: IntersectionState,
) -> Rel
    decreases relation::levels(c), 60nat, 0nat,
{
    match complex::tuple_at(types, index as nat) {
        None => if normalize::omittable(c.db, field) {
            relation::rel_ok(st)
        } else {
            relation::rel_fail(c, st, relation::misfit(source, target))
        },
        Some(s) => {
            let spent = relation::rel_spend(st);
            if spent.res is Err {
                spent
            } else {
                relation::rel_note(
                    c,
                    relation::rel_types(c, spent.st, s, field, state),
                    MessageTy::TupleElement { index },
                )
            }
        },
    }
}

/// Every element has to fit every index of an object, from index `k` on.
pub open spec fn rel_tuple_indexes(
    c: RelScope,
    st: RelState,
    entries: Seq<EntryTy>,
    indexes: Seq<(Ty, Ty)>,
    k: nat,
    state: IntersectionState,
) -> Rel
    decreases relation::levels(c), 68nat, indexes.len() - k,
{
    if k >= indexes.len() {
        relation::rel_ok(st)
    } else {
        let r = rel_tuple_index(c, st, entries, 0, indexes[k as int].0, indexes[k as int].1, state);
        if r.res is Err {
            r
        } else {
            rel_tuple_indexes(c, r.st, entries, indexes, k + 1, state)
        }
    }
}

pub open spec fn entry_place(entry: EntryTy) -> usize {
    match entry.origin {
        EntryOriginTy::Tuple(index) => index,
        _ => 0,
    }
}

pub open spec fn rel_tuple_index(
    c: RelScope,
    st: RelState,
    entries: Seq<EntryTy>,
    k: nat,
    key: Ty,
    value: Ty,
    state: IntersectionState,
) -> Rel
    decreases relation::levels(c), 67nat, entries.len() - k,
{
    if k >= entries.len() {
        relation::rel_ok(st)
    } else {
        let r = rel_tuple_entry(c, st, entries[k as int], key, value, state);
        if r.res is Err {
            r
        } else {
            rel_tuple_index(c, r.st, entries, k + 1, key, value, state)
        }
    }
}

pub open spec fn rel_tuple_entry(
    c: RelScope,
    st: RelState,
    entry: EntryTy,
    key: Ty,
    value: Ty,
    state: IntersectionState,
) -> Rel
    decreases relation::levels(c), 66nat, 0nat,
{
    let spent = relation::rel_spend(st);
    if spent.res is Err {
        spent
    } else {
        let r = relation::rel_note(
            c,
            relation::rel_types(c, spent.st, entry.key, key, state),
            MessageTy::IndexKey { key_type: entry.key },
        );
        if r.res is Err {
            r
        } else {
            relation::rel_note(
                c,
                relation::rel_types(c, r.st, entry.value, value, state),
                MessageTy::TupleElement { index: entry_place(entry) },
            )
        }
    }
}

/// The named members that are demanded.
#[verifier::opaque]
pub open spec fn demanded_names(db: DbTy, members: Seq<(KeyTy, Ty)>) -> Seq<KeyTy>
    decreases members.len(),
{
    if members.len() == 0 {
        Seq::empty()
    } else {
        let front = demanded_names(db, members.drop_last());
        let (key, t) = members.last();
        if (key is Name || key is NoKey) && !normalize::omittable(db, t) {
            front.push(key)
        } else {
            front
        }
    }
}

/// Some member is under a positive integer or under a type.
#[verifier::opaque]
pub open spec fn has_places(members: Seq<(KeyTy, Ty)>) -> bool {
    exists|i: int|
        0 <= i < members.len() && (is_positive_key((#[trigger] members[i]).0)
            || members[i].0 is TypeKey)
}

/// A tuple as a value of a class: only what the class has under integers and indexes is compared.
pub open spec fn rel_tuple_class(
    c: RelScope,
    st: RelState,
    source: Ty,
    target: Ty,
    types: Seq<Ty>,
    state: IntersectionState,
) -> Rel
    decreases relation::levels(c), 64nat, 0nat,
{
    let members = entries::member_entries(c.db, target);
    if c.explain && demanded_names(c.db, members).len() > 0 {
        relation::rel_fail(
            c,
            st,
            MessageTy::MissingMembers {
                source,
                target,
                keys: demanded_names(c.db, members),
            },
        )
    } else {
        let r = rel_tuple_members(c, st, source, target, types, members, 0, state);
        if r.res is Ok && !has_places(members) {
            relation::rel_fail(c, r.st, relation::misfit(source, target))
        } else {
            r
        }
    }
}

pub open spec fn rel_tuple_members(
    c: RelScope,
    st: RelState,
    source: Ty,
    target: Ty,
    types: Seq<Ty>,
    members: Seq<(KeyTy, Ty)>,
    k: nat,
    state: IntersectionState,
) -> Rel
    decreases relation::levels(c), 63nat, members.len() - k,
{
    if k >= members.len() {
        relation::rel_ok(st)
    } else {
        let r = rel_tuple_member(
            c,
            st,
            source,
            target,
            types,
            members[k as int].0,
            members[k as int].1,
            state,
        );
        if r.res is Err {
            r
        } else {
            rel_tuple_members(c, r.st, source, target, types, members, k + 1, state)
        }
    }
}

pub open spec fn rel_tuple_member(
    c: RelScope,
    st: RelState,
    source: Ty,
    target: Ty,
    types: Seq<Ty>,
    key: KeyTy,
    member: Ty,
    state: IntersectionState,
) -> Rel
    decreases relation::levels(c), 62nat, 0nat,
{
    if is_positive_key(key) {
        rel_tuple_field(
            c,
            st,
            source,
            target,
            types,
            place_of_key(key->Integer_0),
            member,
            state,
        )
    } else {
        match key {
            KeyTy::TypeKey(index) => if state == IntersectionState::Target {
                relation::rel_ok(st)
            } else {
                index::rel_index_member(c, st, source, target, *index, member, state)
            },
            _ => if normalize::omittable(c.db, member) {
                relation::rel_ok(st)
            } else {
                relation::rel_fail(
                    c,
                    st,
                    MessageTy::MissingMembers { source, target, keys: seq![key] },
                )
            },
        }
    }
}

pub fn variadic_run_len(v: &VariadicType) -> (r: usize)
    ensures
        r == run_len(v@),
{
    match v.get_max_len() {
        Some(len) => len,
        None => match v.get_min_len() {
            Some(len) => len.saturating_add(1),
            None => 1,
        },
    }
}

/// The run of values at the end of a list of types.
fn last_run(types: &Vec<LuaType>) -> (r: Option<&VariadicType>)
    ensures
        (match r {
            Some(v) => Some(v@),
            None => None,
        }) == (if types::tys(types@).len() > 0 {
            match types::tys(types@).last() {
                Ty::Variadic(v) => Some(*v),
                _ => None,
            }
        } else {
            None
        }),
{
    if types.len() == 0 {
        return None;
    }
    assert(types::tys(types@).last() == types@[types@.len() - 1]@);
    match &types[types.len() - 1] {
        LuaType::Variadic(v) => Some(&**v),
        _ => None,
    }
}

pub fn tuple_check_len(types: &Vec<LuaType>) -> (r: usize)
    ensures
        r == looked_at_len(types::tys(types@)),
{
    proof {
        reveal(looked_at_len);
    }
    assert(types::tys(types@).len() == types@.len());
    match last_run(types) {
        Some(v) => (types.len() - 1).saturating_add(variadic_run_len(v)),
        None => types.len(),
    }
}

fn tuple_required_len(types: &Vec<LuaType>) -> (r: usize)
    ensures
        r == demanded_len(types::tys(types@)),
{
    proof {
        reveal(demanded_len);
    }
    assert(types::tys(types@).len() == types@.len());
    match last_run(types) {
        Some(v) => match v.get_min_len() {
            Some(len) => (types.len() - 1).saturating_add(len),
            None => types.len() - 1,
        },
        None => types.len(),
    }
}

fn tuple_compared_len(types: &Vec<LuaType>, source_len: usize) -> (r: usize)
    ensures
        r == compared_len(types::tys(types@), source_len),
{
    proof {
        reveal(demanded_len);
    }
    proof {
        reveal(compared_len);
    }
    assert(types::tys(types@).len() == types@.len());
    match last_run(types) {
        Some(v) => match v.get_max_len() {
            Some(len) => (types.len() - 1).saturating_add(len),
            None => {
                let required = tuple_required_len(types);
                if source_len > required {
                    source_len
                } else {
                    required
                }
            },
        },
        None => types.len(),
    }
}

/// The element at a place of a tuple; of a run of values, its first one.
pub fn tuple_element(tuple: &LuaTupleType, idx: usize) -> (r: Option<&LuaType>)
    ensures
        complex::opt_ref_ty(r) == element_at(tuple@.types, idx as nat),
{
    proof {
        reveal(element_at);
    }
    match tuple.get_type(idx) {
        Some(LuaType::Variadic(v)) => v.get_type(0),
        other => other,
    }
}

#[verifier::loop_isolation(false)]
pub fn relate_tuple_to_tuple(
    relater: &mut Relater,
    source_tuple: &LuaTupleType,
    target_tuple: &LuaTupleType,
    intersection_state: IntersectionState,
) -> (r: RelationResult)
    ensures
        final(relater).did(
            *old(relater),
            rel_tuple_tuple(
                old(relater).scope(),
                old(relater).state(),
                source_tuple@.types,
                target_tuple@.types,
                intersection_state,
            ),
            r,
        ),
    decreases old(relater).scope().db.room, 12nat, old(relater).room_left(), 69nat, 0nat,
{
    assert(source_tuple@.types == types::tys(source_tuple.types@));
    assert(target_tuple@.types == types::tys(target_tuple.types@));
    let source_len = tuple_check_len(&source_tuple.types);
    let end = tuple_compared_len(&target_tuple.types, source_len);
    let ghost c = relater.scope();
    let ghost whole = rel_elements(
        c,
        relater.state(),
        source_tuple@.types,
        target_tuple@.types,
        0,
        end as nat,

        intersection_state,
    );
    let mut i: usize = 0;
    while i < end
        invariant
            i <= end,
            relater.moved(*old(relater), relater.state()),
            whole == rel_elements(
        c,
        relater.state(),
        source_tuple@.types,
        target_tuple@.types,
        i as nat,
        end as nat,

        intersection_state,
    ),
        decreases end - i,
    {

        if let Err(failure) = relate_element(
            relater,
            tuple_element(source_tuple, i),
            target_tuple,
            i,
            intersection_state,
        ) {
            return Err(failure);
        }
        i += 1;
    }
    Ok(())
}

fn relate_element(
    relater: &mut Relater,
    source_type: Option<&LuaType>,
    target_tuple: &LuaTupleType,
    index: usize,
    intersection_state: IntersectionState,
) -> (r: RelationResult)
    ensures
        final(relater).did(
            *old(relater),
            rel_element(
                old(relater).scope(),
                old(relater).state(),
                complex::opt_ref_ty(source_type),
                target_tuple@.types,
                index as nat,
                intersection_state,
            ),
            r,
        ),
    decreases old(relater).scope().db.room, 12nat, old(relater).room_left(), 67nat, 0nat,
{
    assert(target_tuple@.types == types::tys(target_tuple.types@));
    if let Err(failure) = relater.consume_relation_budget() {
        return Err(failure);
    }
    match tuple_element(target_tuple, index) {
        None => Ok(()),
        Some(target_type) => match source_type {
            None => {
                if index >= tuple_required_len(&target_tuple.types) || is_optional(
                    relater.db(),
                    target_type,
                ) {
                    return Ok(());
                }
                relater.fail(ChainMessage::MissingTupleElement { index })
            },
            Some(source_type) => {
                let result = relater.relate(source_type, target_type, intersection_state);
                relater.on_unrelated(result, ChainMessage::TupleElement { index })
            },
        },
    }
}

#[verifier::loop_isolation(false)]
pub fn relate_tuple_to_array(
    relater: &mut Relater,
    source_tuple: &LuaTupleType,
    slot: &LuaType,
    intersection_state: IntersectionState,
) -> (r: RelationResult)
    ensures
        final(relater).did(
            *old(relater),
            rel_tuple_array(
                old(relater).scope(),
                old(relater).state(),
                source_tuple@.types,
                0,
                slot@,
                intersection_state,
            ),
            r,
        ),
    decreases old(relater).scope().db.room, 12nat, old(relater).room_left(), 69nat, source_tuple@.types.len(),
{
    let types = &source_tuple.types;
    let ghost c = relater.scope();
    let ghost all = types::tys(types@);
    let ghost whole = rel_tuple_array(
        c,
        relater.state(),
        all,
        0,
        slot@,

        intersection_state,
    );
    let mut i: usize = 0;
    while i < types.len()
        invariant
            i <= types@.len(),
            relater.moved(*old(relater), relater.state()),
            whole == rel_tuple_array(
        c,
        relater.state(),
        all,
        i as nat,
        slot@,

        intersection_state,
    ),
        decreases types@.len() - i,
    {

        assert(all[i as int] == types@[i as int]@);
        if let Err(failure) = relater.consume_relation_budget() {
            return Err(failure);
        }
        let result = match &types[i] {
            LuaType::Variadic(variadic) => match &**variadic {
                VariadicType::Base(base) => {
                    assert(variadic@ == VariadicTy::Base(base@));
                    let result = relater.relate(base, slot, intersection_state);
                    relater.on_unrelated(result, ChainMessage::TupleElement { index: i })
                },
                VariadicType::Multi(run) => {
                    assert(variadic@ == VariadicTy::Multi(types::tys(run@)));
                    relate_run_to_array(relater, run, i, slot, intersection_state)
                },
            },
            source_type => {
                let result = relater.relate(source_type, slot, intersection_state);
                relater.on_unrelated(result, ChainMessage::TupleElement { index: i })
            },
        };
        if let Err(failure) = result {
            return Err(failure);
        }
        i += 1;
    }
    Ok(())
}

#[verifier::loop_isolation(false)]
fn relate_run_to_array(
    relater: &mut Relater,
    run: &Vec<LuaType>,
    at: usize,
    slot: &LuaType,
    intersection_state: IntersectionState,
) -> (r: RelationResult)
    ensures
        final(relater).did(
            *old(relater),
            rel_run_array(
                old(relater).scope(),
                old(relater).state(),
                types::tys(run@),
                0,
                at as nat,
                slot@,
                intersection_state,
            ),
            r,
        ),
    decreases old(relater).scope().db.room, 12nat, old(relater).room_left(), 68nat, run@.len(),
{
    let ghost c = relater.scope();
    let ghost all = types::tys(run@);
    let ghost whole = rel_run_array(
        c,
        relater.state(),
        all,
        0,
        at as nat,
        slot@,

        intersection_state,
    );
    let mut i: usize = 0;
    while i < run.len()
        invariant
            i <= run@.len(),
            relater.moved(*old(relater), relater.state()),
            whole == rel_run_array(
        c,
        relater.state(),
        all,
        i as nat,
        at as nat,
        slot@,

        intersection_state,
    ),
        decreases run@.len() - i,
    {

        assert(all[i as int] == run@[i as int]@);
        let result = relater.relate(&run[i], slot, intersection_state);
        if let Err(failure) = relater.on_unrelated(
            result,
            ChainMessage::TupleElement { index: at.saturating_add(i) },
        ) {
            return Err(failure);
        }
        i += 1;
    }
    Ok(())
}

#[verifier::loop_isolation(false)]
pub fn relate_keyed_source_to_tuple(
    relater: &mut Relater,
    source: &LuaType,
    target_tuple: &LuaTupleType,
    intersection_state: IntersectionState,
) -> (r: RelationResult)
    ensures
        final(relater).did(
            *old(relater),
            rel_keyed_tuple(
                old(relater).scope(),
                old(relater).state(),
                source@,
                target_tuple@.types,
                0,
                intersection_state,
            ),
            r,
        ),
    decreases old(relater).scope().db.room, 12nat, old(relater).room_left(), 69nat, target_tuple@.types.len(),
{
    let types = &target_tuple.types;
    let ghost c = relater.scope();
    let ghost all = types::tys(types@);
    let ghost whole = rel_keyed_tuple(
        c,
        relater.state(),
        source@,
        all,
        0,

        intersection_state,
    );
    let mut i: usize = 0;
    while i < types.len()
        invariant
            i <= types@.len(),
            relater.moved(*old(relater), relater.state()),
            whole == rel_keyed_tuple(
        c,
        relater.state(),
        source@,
        all,
        i as nat,

        intersection_state,
    ),
        decreases types@.len() - i,
    {

        assert(all[i as int] == types@[i as int]@);
        if let Err(failure) = relate_keyed_element(
            relater,
            source,
            &types[i],
            i,
            intersection_state,
        ) {
            return Err(failure);
        }
        i += 1;
    }
    Ok(())
}

fn relate_keyed_element(
    relater: &mut Relater,
    source: &LuaType,
    target_type: &LuaType,
    index: usize,
    intersection_state: IntersectionState,
) -> (r: RelationResult)
    ensures
        final(relater).did(
            *old(relater),
            rel_keyed_element(
                old(relater).scope(),
                old(relater).state(),
                source@,
                target_type@,
                index as nat,
                intersection_state,
            ),
            r,
        ),
    decreases old(relater).scope().db.room, 12nat, old(relater).room_left(), 68nat, 0nat,
{
    if let Err(failure) = relater.consume_relation_budget() {
        return Err(failure);
    }
    let key = LuaMemberKey::Integer(number_of_place(index));
    match member_type(relater, source, &key, intersection_state) {
        Err(failure) => Err(failure),
        Ok(None) => {
            if is_optional(relater.db(), target_type) {
                return Ok(());
            }
            relater.fail(ChainMessage::MissingTupleElement { index })
        },
        Ok(Some(source_type)) => {
            let result = relater.relate(&source_type, target_type, intersection_state);
            relater.on_unrelated(result, ChainMessage::TupleElement { index })
        },
    }
}

/// The place that an integer key stands for.
#[verifier::truncate]
pub fn key_place(i: i64) -> (r: usize)
    ensures
        r == place_of_key(i),
{
    if i > 0 {
        (i - 1) as usize
    } else if i == 0 {
        u64::MAX as usize
    } else {
        let below: u64 = (-(i + 1)) as u64;
        (u64::MAX - below - 1) as usize
    }
}

pub fn positive_key(key: &LuaMemberKey) -> (r: Option<i64>)
    ensures
        r == (match key@ {
            KeyTy::Integer(i) => if i > 0 {
                Some(i)
            } else {
                None
            },
            _ => None,
        }),
        r is Some == is_positive_key(key@),
{
    match key {
        LuaMemberKey::Integer(i) => if *i > 0 {
            Some(*i)
        } else {
            None
        },
        _ => None,
    }
}

#[verifier::loop_isolation(false)]
fn has_demanded_field(db: &DbIndex, fields: &Vec<(LuaMemberKey, LuaType)>) -> (r: bool)
    ensures
        r == demands_other_field(db@, types::field_tys(fields@)),
{
    proof {
        reveal(demands_other_field);
    }
    let ghost all = types::field_tys(fields@);
    let mut i: usize = 0;
    while i < fields.len()
        invariant
            i <= fields@.len(),
            all == types::field_tys(fields@),
            forall|j: int|
                0 <= j < i ==> is_positive_key((#[trigger] all[j]).0) || normalize::omittable(db@, all[j].1),
        decreases fields@.len() - i,
    {
        assert(all[i as int] == (fields@[i as int].0@, fields@[i as int].1@));
        if positive_key(&fields[i].0).is_none() && !is_optional(db, &fields[i].1) {
            return true;
        }
        i += 1;
    }
    false
}

pub fn relate_tuple_to_object(
    relater: &mut Relater,
    source: &LuaType,
    target: &LuaType,
    source_tuple: &LuaTupleType,
    target_object: &LuaObjectType,
    intersection_state: IntersectionState,
) -> (r: RelationResult)
    ensures
        final(relater).did(
            *old(relater),
            rel_tuple_object(
                old(relater).scope(),
                old(relater).state(),
                source@,
                target@,
                source_tuple@.types,
                target_object@,
                intersection_state,
            ),
            r,
        ),
    decreases old(relater).scope().db.room, 12nat, old(relater).room_left(), 69nat, 0nat,
{
    assert(target_object@.fields == types::field_tys(target_object.fields@));
    assert(target_object@.index_access == types::pair_tys(target_object.index_access@));
    if has_demanded_field(relater.db(), &target_object.fields) {
        return relater.fail_types(source, target);
    }
    let result = relate_tuple_fields(
        relater,
        source,
        target,
        source_tuple,
        &target_object.fields,
        intersection_state,
    );
    if result.is_err() || intersection_state.contains(IntersectionState::Target) {
        return result;
    }
    let entries = visit_index_entries(relater.db(), source);
    relate_tuple_indexes(relater, &entries, &target_object.index_access, intersection_state)
}

#[verifier::loop_isolation(false)]
fn relate_tuple_fields(
    relater: &mut Relater,
    source: &LuaType,
    target: &LuaType,
    source_tuple: &LuaTupleType,
    fields: &Vec<(LuaMemberKey, LuaType)>,
    intersection_state: IntersectionState,
) -> (r: RelationResult)
    ensures
        final(relater).did(
            *old(relater),
            rel_tuple_fields(
                old(relater).scope(),
                old(relater).state(),
                source@,
                target@,
                source_tuple@.types,
                types::field_tys(fields@),
                0,
                intersection_state,
            ),
            r,
        ),
    decreases old(relater).scope().db.room, 12nat, old(relater).room_left(), 68nat, fields@.len(),
{
    let ghost c = relater.scope();
    let ghost all = types::field_tys(fields@);
    let ghost whole = rel_tuple_fields(
        c,
        relater.state(),
        source@,
        target@,
        source_tuple@.types,
        all,
        0,

        intersection_state,
    );
    let mut i: usize = 0;
    while i < fields.len()
        invariant
            i <= fields@.len(),
            relater.moved(*old(relater), relater.state()),
            whole == rel_tuple_fields(
        c,
        relater.state(),
        source@,
        target@,
        source_tuple@.types,
        all,
        i as nat,

        intersection_state,
    ),
        decreases fields@.len() - i,
    {

        let (key, field) = &fields[i];
        assert(all[i as int] == (key@, field@));
        if let LuaMemberKey::Integer(idx) = key {
            if let Err(failure) = relate_tuple_field(
                relater,
                source,
                target,
                source_tuple,
                key_place(*idx),
                field,
                intersection_state,
            ) {
                return Err(failure);
            }
        }
        i += 1;
    }
    Ok(())
}

fn relate_tuple_field(
    relater: &mut Relater,
    source: &LuaType,
    target: &LuaType,
    source_tuple: &LuaTupleType,
    index: usize,
    field: &LuaType,
    intersection_state: IntersectionState,
) -> (r: RelationResult)
    ensures
        final(relater).did(
            *old(relater),
            rel_tuple_field(
                old(relater).scope(),
                old(relater).state(),
                source@,
                target@,
                source_tuple@.types,
                index,
                field@,
                intersection_state,
            ),
            r,
        ),
    decreases old(relater).scope().db.room, 12nat, old(relater).room_left(), 60nat, 0nat,
{
    match source_tuple.get_type(index) {
        None => {
            if is_optional(relater.db(), field) {
                return Ok(());
            }
            relater.fail_types(source, target)
        },
        Some(source_type) => {
            if let Err(failure) = relater.consume_relation_budget() {
                return Err(failure);
            }
            let result = relater.relate(source_type, field, intersection_state);
            relater.on_unrelated(result, ChainMessage::TupleElement { index })
        },
    }
}

#[verifier::loop_isolation(false)]
fn relate_tuple_indexes(
    relater: &mut Relater,
    entries: &Vec<IndexEntry>,
    indexes: &Vec<(LuaType, LuaType)>,
    intersection_state: IntersectionState,
) -> (r: RelationResult)
    ensures
        final(relater).did(
            *old(relater),
            rel_tuple_indexes(
                old(relater).scope(),
                old(relater).state(),
                entries::index_entry_tys(entries@),
                types::pair_tys(indexes@),
                0,
                intersection_state,
            ),
            r,
        ),
    decreases old(relater).scope().db.room, 12nat, old(relater).room_left(), 68nat, indexes@.len(),
{
    let ghost c = relater.scope();
    let ghost all = types::pair_tys(indexes@);
    let ghost whole = rel_tuple_indexes(
        c,
        relater.state(),
        entries::index_entry_tys(entries@),
        all,
        0,

        intersection_state,
    );
    let mut i: usize = 0;
    while i < indexes.len()
        invariant
            i <= indexes@.len(),
            relater.moved(*old(relater), relater.state()),
            whole == rel_tuple_indexes(
        c,
        relater.state(),
        entries::index_entry_tys(entries@),
        all,
        i as nat,

        intersection_state,
    ),
        decreases indexes@.len() - i,
    {

        let (key, value) = &indexes[i];
        assert(all[i as int] == (key@, value@));
        if let Err(failure) = relate_tuple_index(
            relater,
            entries,
            key,
            value,
            intersection_state,
        ) {
            return Err(failure);
        }
        i += 1;
    }
    Ok(())
}

#[verifier::loop_isolation(false)]
fn relate_tuple_index(
    relater: &mut Relater,
    entries: &Vec<IndexEntry>,
    key: &LuaType,
    value: &LuaType,
    intersection_state: IntersectionState,
) -> (r: RelationResult)
    ensures
        final(relater).did(
            *old(relater),
            rel_tuple_index(
                old(relater).scope(),
                old(relater).state(),
                entries::index_entry_tys(entries@),
                0,
                key@,
                value@,
                intersection_state,
            ),
            r,
        ),
    decreases old(relater).scope().db.room, 12nat, old(relater).room_left(), 67nat, entries@.len(),
{
    let ghost c = relater.scope();
    let ghost all = entries::index_entry_tys(entries@);
    let ghost whole = rel_tuple_index(
        c,
        relater.state(),
        all,
        0,
        key@,
        value@,

        intersection_state,
    );
    let mut i: usize = 0;
    while i < entries.len()
        invariant
            i <= entries@.len(),
            relater.moved(*old(relater), relater.state()),
            whole == rel_tuple_index(
        c,
        relater.state(),
        all,
        i as nat,
        key@,
        value@,

        intersection_state,
    ),
        decreases entries@.len() - i,
    {

        assert(all[i as int] == entries@[i as int]@);
        if let Err(failure) = relate_tuple_entry(
            relater,
            &entries[i],
            key,
            value,
            intersection_state,
        ) {
            return Err(failure);
        }
        i += 1;
    }
    Ok(())
}

fn relate_tuple_entry(
    relater: &mut Relater,
    entry: &IndexEntry,
    key: &LuaType,
    value: &LuaType,
    intersection_state: IntersectionState,
) -> (r: RelationResult)
    ensures
        final(relater).did(
            *old(relater),
            rel_tuple_entry(
                old(relater).scope(),
                old(relater).state(),
                entry@,
                key@,
                value@,
                intersection_state,
            ),
            r,
        ),
    decreases old(relater).scope().db.room, 12nat, old(relater).room_left(), 66nat, 0nat,
{
    if let Err(failure) = relater.consume_relation_budget() {
        return Err(failure);
    }
    let key_result = relater.relate(&entry.key, key, intersection_state);
    if let Err(failure) = relater.note_index(key_result, &entry.key) {
        return Err(failure);
    }
    let index = match entry.origin {
        EntryOrigin::Tuple(index) => index,
        _ => 0,
    };
    let value_result = relater.relate(&entry.value, value, intersection_state);
    relater.on_unrelated(value_result, ChainMessage::TupleElement { index })
}

#[verifier::loop_isolation(false)]
fn list_demanded_names(db: &DbIndex, members: &Vec<(LuaMemberKey, LuaType)>) -> (r: Vec<
    LuaMemberKey,
>)
    ensures
        error_chain::keys_ty(r@) == demanded_names(db@, types::field_tys(members@)),
{
    proof {
        reveal(demanded_names);
    }
    let ghost all = types::field_tys(members@);
    let mut keys: Vec<LuaMemberKey> = Vec::new();
    let mut i: usize = 0;
    proof {
        assert(all.take(0) =~= Seq::<(KeyTy, Ty)>::empty());
        assert(error_chain::keys_ty(keys@) =~= demanded_names(db@, all.take(0)));
    }
    while i < members.len()
        invariant
            i <= members@.len(),
            all == types::field_tys(members@),
            error_chain::keys_ty(keys@) == demanded_names(db@, all.take(i as int)),
        decreases members@.len() - i,
    {
        let (key, member) = &members[i];
        proof {
            assert(all.take(i + 1).drop_last() =~= all.take(i as int));
            assert(all.take(i + 1).last() == all[i as int]);
            assert(all[i as int] == (key@, member@));
        }
        if matches!(key, LuaMemberKey::Name(_) | LuaMemberKey::NoKey) && !is_optional(db, member) {
            let ghost before = error_chain::keys_ty(keys@);
            keys.push(key.clone());
            assert(error_chain::keys_ty(keys@) =~= before.push(key@));
        }
        i += 1;
    }
    assert(all.take(i as int) =~= all);
    keys
}

#[verifier::loop_isolation(false)]
pub fn has_integer_or_index(members: &Vec<(LuaMemberKey, LuaType)>) -> (r: bool)
    ensures
        r == has_places(types::field_tys(members@)),
{
    proof {
        reveal(has_places);
    }
    let ghost all = types::field_tys(members@);
    let mut i: usize = 0;
    while i < members.len()
        invariant
            i <= members@.len(),
            all == types::field_tys(members@),
            forall|j: int|
                0 <= j < i ==> !is_positive_key((#[trigger] all[j]).0) && !(all[j].0 is TypeKey),
        decreases members@.len() - i,
    {
        assert(all[i as int] == (members@[i as int].0@, members@[i as int].1@));
        if positive_key(&members[i].0).is_some() || matches!(members[i].0, LuaMemberKey::TypeKey(_)) {
            return true;
        }
        i += 1;
    }
    false
}

/// A tuple as a value of a class: only integers and indexes are compared.
pub fn relate_tuple_to_declared_target(
    relater: &mut Relater,
    source: &LuaType,
    target: &LuaType,
    source_tuple: &LuaTupleType,
    intersection_state: IntersectionState,
) -> (r: RelationResult)
    ensures
        final(relater).did(
            *old(relater),
            rel_tuple_class(
                old(relater).scope(),
                old(relater).state(),
                source@,
                target@,
                source_tuple@.types,
                intersection_state,
            ),
            r,
        ),
    decreases old(relater).scope().db.room, 12nat, old(relater).room_left(), 64nat, 0nat,
{
    let members = list_member_entries(relater.db(), target);
    if relater.is_explain() {
        let missing_keys = list_demanded_names(relater.db(), &members);
        assert(error_chain::keys_ty(missing_keys@).len() == missing_keys@.len());
        if missing_keys.len() > 0 {
            return unrelated_missing_members(relater, source, target, &missing_keys);
        }
    }
    let result = relate_tuple_members(
        relater,
        source,
        target,
        source_tuple,
        &members,
        intersection_state,
    );
    if result.is_ok() && !has_integer_or_index(&members) {
        return relater.fail_types(source, target);
    }
    result
}

#[verifier::loop_isolation(false)]
fn relate_tuple_members(
    relater: &mut Relater,
    source: &LuaType,
    target: &LuaType,
    source_tuple: &LuaTupleType,
    members: &Vec<(LuaMemberKey, LuaType)>,
    intersection_state: IntersectionState,
) -> (r: RelationResult)
    ensures
        final(relater).did(
            *old(relater),
            rel_tuple_members(
                old(relater).scope(),
                old(relater).state(),
                source@,
                target@,
                source_tuple@.types,
                types::field_tys(members@),
                0,
                intersection_state,
            ),
            r,
        ),
    decreases old(relater).scope().db.room, 12nat, old(relater).room_left(), 63nat, members@.len(),
{
    let ghost c = relater.scope();
    let ghost all = types::field_tys(members@);
    let ghost whole = rel_tuple_members(
        c,
        relater.state(),
        source@,
        target@,
        source_tuple@.types,
        all,
        0,

        intersection_state,
    );
    let mut i: usize = 0;
    while i < members.len()
        invariant
            i <= members@.len(),
            relater.moved(*old(relater), relater.state()),
            whole == rel_tuple_members(
        c,
        relater.state(),
        source@,
        target@,
        source_tuple@.types,
        all,
        i as nat,

        intersection_state,
    ),
        decreases members@.len() - i,
    {

        let (key, member) = &members[i];
        assert(all[i as int] == (key@, member@));
        if let Err(failure) = relate_tuple_member(
            relater,
            source,
            target,
            source_tuple,
            key,
            member,
            intersection_state,
        ) {
            return Err(failure);
        }
        i += 1;
    }
    Ok(())
}

fn relate_tuple_member(
    relater: &mut Relater,
    source: &LuaType,
    target: &LuaType,
    source_tuple: &LuaTupleType,
    key: &LuaMemberKey,
    member: &LuaType,
    intersection_state: IntersectionState,
) -> (r: RelationResult)
    ensures
        final(relater).did(
            *old(relater),
            rel_tuple_member(
                old(relater).scope(),
                old(relater).state(),
                source@,
                target@,
                source_tuple@.types,
                key@,
                member@,
                intersection_state,
            ),
            r,
        ),
    decreases old(relater).scope().db.room, 12nat, old(relater).room_left(), 62nat, 0nat,
{
    if let Some(idx) = positive_key(key) {
        return relate_tuple_field(
            relater,
            source,
            target,
            source_tuple,
            key_place(idx),
            member,
            intersection_state,
        );
    }
    match key {
        LuaMemberKey::TypeKey(target_key_type) => {
            if intersection_state.contains(IntersectionState::Target) {
                return Ok(());
            }
            relate_index_member(
                relater,
                source,
                target,
                target_key_type,
                member,
                intersection_state,
            )
        },
        _ => {
            if is_optional(relater.db(), member) {
                return Ok(());
            }
            let mut keys: Vec<LuaMemberKey> = Vec::new();
            keys.push(key.clone());
            assert(error_chain::keys_ty(keys@) =~= seq![key@]);
            unrelated_missing_members(relater, source, target, &keys)
        },
    }
}

} // verus!
