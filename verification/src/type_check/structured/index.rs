//! Comparing index entries.

use vstd::prelude::*;

use crate::types;
use crate::type_check::{entries, error_chain, relation};
use crate::type_check::entries::{
    EntryOrigin, EntryOriginTy, EntryTy, IndexEntry, visit_index_entries,
};
use crate::type_check::error_chain::{ChainMessage, MessageTy};
use crate::type_check::relation::{
    IntersectionState, Rel, RelScope, RelState, Relater, RelationFailure, RelationResult,
};
use crate::types::{LuaType, Ty};

verus! {

/// The parts of a list of types, those of intersections in their place.
pub open spec fn flat_parts(types: Seq<Ty>) -> Seq<Ty>
    decreases types,
{
    if types.len() == 0 {
        Seq::empty()
    } else {
        flat_parts(types.drop_last()) + flat_type(types.last())
    }
}

/// The parts of an intersection, or the type itself.
pub open spec fn flat_type(t: Ty) -> Seq<Ty>
    decreases t,
{
    match t {
        Ty::Intersection(types) => flat_parts(types),
        _ => seq![t],
    }
}

/// What a source has to offer under the keys of an index of the target. One part of an intersection
/// need not answer for the whole.
pub open spec fn rel_index_member(
    c: RelScope,
    st: RelState,
    source: Ty,
    target: Ty,
    key: Ty,
    value: Ty,
    state: IntersectionState,
) -> Rel
    decreases relation::levels(c), 59nat, 0nat,
{
    if state == IntersectionState::Source {
        relation::rel_ok(st)
    } else {
        rel_index_parts(c, st, flat_type(source), 0, target, key, value, state)
    }
}

pub open spec fn rel_index_parts(
    c: RelScope,
    st: RelState,
    parts: Seq<Ty>,
    k: nat,
    target: Ty,
    key: Ty,
    value: Ty,
    state: IntersectionState,
) -> Rel
    decreases relation::levels(c), 58nat, parts.len() - k,
{
    if k >= parts.len() {
        relation::rel_ok(st)
    } else {
        let r = rel_index_entries(
            c,
            st,
            parts[k as int],
            entries::index_entries(c.db, parts[k as int]),
            0,
            target,
            key,
            value,
            state,
        );
        if r.res is Err {
            r
        } else {
            rel_index_parts(c, r.st, parts, k + 1, target, key, value, state)
        }
    }
}

/// Every entry whose key fits the key of the index has to fit its value, from entry `k` on. A run of
/// values without end has to fit the key.
pub open spec fn rel_index_entries(
    c: RelScope,
    st: RelState,
    source: Ty,
    entries: Seq<EntryTy>,
    k: nat,
    target: Ty,
    key: Ty,
    value: Ty,
    state: IntersectionState,
) -> Rel
    decreases relation::levels(c), 57nat, entries.len() - k,
{
    if k >= entries.len() {
        relation::rel_ok(st)
    } else {
        let r = rel_index_entry(c, st, source, entries[k as int], target, key, value, state);
        if r.res is Err {
            r
        } else {
            rel_index_entries(c, r.st, source, entries, k + 1, target, key, value, state)
        }
    }
}

pub open spec fn rel_index_entry(
    c: RelScope,
    st: RelState,
    source: Ty,
    entry: EntryTy,
    target: Ty,
    key: Ty,
    value: Ty,
    state: IntersectionState,
) -> Rel
    decreases relation::levels(c), 56nat, 0nat,
{
    let spent = relation::rel_spend(st);
    if spent.res is Err {
        spent
    } else {
        let r = relation::rel_types(relation::quiet(c), spent.st, entry.key, key, state);
        match r.res {
            Ok(_) => relation::rel_note(
                c,
                relation::rel_types(c, r.st, entry.value, value, state),
                MessageTy::IndexKey { key_type: entry.key },
            ),
            Err(RelationFailure::Unrelated) => if entry.origin is Tuple && entry.key is Integer {
                relation::rel_fail(c, r.st, relation::misfit(source, target))
            } else {
                relation::rel_ok(r.st)
            },
            Err(RelationFailure::Indeterminate(_)) => r,
        }
    }
}

/// Every entry of a table has to fit the key and the value of a target table.
pub open spec fn rel_table_generic(
    c: RelScope,
    st: RelState,
    source: Ty,
    target: Ty,
    params: Seq<Ty>,
    state: IntersectionState,
) -> Rel
    decreases relation::levels(c), 58nat, 0nat,
{
    if params.len() != 2 || (source is TableGeneric && source->TableGeneric_0.len() != 2) {
        relation::rel_fail(c, st, relation::misfit(source, target))
    } else {
        rel_pairs(c, st, entries::index_entries(c.db, source), 0, params[0], params[1], state)
    }
}

pub open spec fn rel_pairs(
    c: RelScope,
    st: RelState,
    entries: Seq<EntryTy>,
    k: nat,
    key: Ty,
    value: Ty,
    state: IntersectionState,
) -> Rel
    decreases relation::levels(c), 57nat, entries.len() - k,
{
    if k >= entries.len() {
        relation::rel_ok(st)
    } else {
        let r = rel_pair(c, st, entries[k as int], key, value, state);
        if r.res is Err {
            r
        } else {
            rel_pairs(c, r.st, entries, k + 1, key, value, state)
        }
    }
}

pub open spec fn pair_key_message(entry: EntryTy) -> MessageTy {
    match entry.origin {
        EntryOriginTy::Generic | EntryOriginTy::Tuple(_) => MessageTy::GenericArgument {
            index: 0,
        },
        _ => MessageTy::IndexKey { key_type: entry.key },
    }
}

pub open spec fn pair_value_message(entry: EntryTy) -> MessageTy {
    match entry.origin {
        EntryOriginTy::Generic => MessageTy::GenericArgument { index: 1 },
        EntryOriginTy::Tuple(index) => MessageTy::TupleElement { index },
        EntryOriginTy::Field(key) => error_chain::property_msg(key),
        EntryOriginTy::Index => MessageTy::IndexKey { key_type: entry.key },
    }
}

pub open spec fn rel_pair(
    c: RelScope,
    st: RelState,
    entry: EntryTy,
    key: Ty,
    value: Ty,
    state: IntersectionState,
) -> Rel
    decreases relation::levels(c), 56nat, 0nat,
{
    let spent = if entry.origin is Generic {
        relation::rel_ok(st)
    } else {
        relation::rel_spend(st)
    };
    if spent.res is Err {
        spent
    } else {
        let r = relation::rel_note(
            c,
            relation::rel_types(c, spent.st, entry.key, key, state),
            pair_key_message(entry),
        );
        if r.res is Err {
            r
        } else {
            relation::rel_note(c, relation::rel_types(c, r.st, entry.value, value, state), pair_value_message(entry))
        }
    }
}

/// Lists the parts of a type, those of intersections in their place.
fn push_flat_parts(parts: &mut Vec<LuaType>, t: &LuaType)
    ensures
        types::tys(final(parts)@) == types::tys(old(parts)@) + flat_type(t@),
    decreases t,
{
    let ghost before = types::tys(parts@);
    match t {
        LuaType::Intersection(x) => {
            let ghost all = types::tys(x.types@);
            assert(x@ == all);
            assert(t@ == Ty::Intersection(all));
            let mut i: usize = 0;
            assert(all.take(0) =~= Seq::<Ty>::empty());
            assert(types::tys(parts@) =~= before + flat_parts(all.take(0)));
            while i < x.types.len()
                invariant
                    i <= x.types@.len(),
                    all == types::tys(x.types@),
                    *t == LuaType::Intersection(*x),
                    decreases_to!(t => x.types@),
                    types::tys(parts@) == before + flat_parts(all.take(i as int)),
                decreases x.types@.len() - i,
            {
                proof {
                    assert(all.take(i + 1).drop_last() =~= all.take(i as int));
                    assert(all.take(i + 1).last() == all[i as int]);
                    assert(all[i as int] == x.types@[i as int]@);
                }
                push_flat_parts(parts, &x.types[i]);
                assert(types::tys(parts@) =~= before + flat_parts(all.take(i + 1)));
                i += 1;
            }
            assert(all.take(i as int) =~= all);
        },
        _ => {
            parts.push(t.clone());
            assert(types::tys(parts@) =~= before + seq![t@]);
        },
    }
}

pub fn list_flat_parts(types: &Vec<LuaType>) -> (r: Vec<LuaType>)
    ensures
        types::tys(r@) == flat_parts(types::tys(types@)),
{
    let ghost all = types::tys(types@);
    let mut parts: Vec<LuaType> = Vec::new();
    let mut i: usize = 0;
    proof {
        assert(all.take(0) =~= Seq::<Ty>::empty());
        assert(types::tys(parts@) =~= flat_parts(all.take(0)));
    }
    while i < types.len()
        invariant
            i <= types@.len(),
            all == types::tys(types@),
            types::tys(parts@) == flat_parts(all.take(i as int)),
        decreases types@.len() - i,
    {
        proof {
            assert(all.take(i + 1).drop_last() =~= all.take(i as int));
            assert(all.take(i + 1).last() == all[i as int]);
            assert(all[i as int] == types@[i as int]@);
        }
        push_flat_parts(&mut parts, &types[i]);
        i += 1;
    }
    assert(all.take(i as int) =~= all);
    parts
}

pub fn relate_index_member(
    relater: &mut Relater,
    source: &LuaType,
    target: &LuaType,
    target_key_type: &LuaType,
    target_value_type: &LuaType,
    intersection_state: IntersectionState,
) -> (r: RelationResult)
    ensures
        final(relater).did(
            *old(relater),
            rel_index_member(
                old(relater).scope(),
                old(relater).state(),
                source@,
                target@,
                target_key_type@,
                target_value_type@,
                intersection_state,
            ),
            r,
        ),
    decreases old(relater).scope().db.room, 12nat, old(relater).room_left(), 59nat, 0nat,
{
    if intersection_state.contains(IntersectionState::Source) {
        return Ok(());
    }
    let mut parts: Vec<LuaType> = Vec::new();
    assert(types::tys(parts@) =~= Seq::<Ty>::empty());
    push_flat_parts(&mut parts, source);
    assert(types::tys(parts@) =~= flat_type(source@));
    relate_index_parts(
        relater,
        &parts,
        target,
        target_key_type,
        target_value_type,
        intersection_state,
    )
}

#[verifier::loop_isolation(false)]
fn relate_index_parts(
    relater: &mut Relater,
    parts: &Vec<LuaType>,
    target: &LuaType,
    target_key_type: &LuaType,
    target_value_type: &LuaType,
    intersection_state: IntersectionState,
) -> (r: RelationResult)
    ensures
        final(relater).did(
            *old(relater),
            rel_index_parts(
                old(relater).scope(),
                old(relater).state(),
                types::tys(parts@),
                0,
                target@,
                target_key_type@,
                target_value_type@,
                intersection_state,
            ),
            r,
        ),
    decreases old(relater).scope().db.room, 12nat, old(relater).room_left(), 58nat, parts@.len(),
{
    let ghost c = relater.scope();
    let ghost all = types::tys(parts@);
    let ghost whole = rel_index_parts(
        c,
        relater.state(),
        all,
        0,
        target@,
        target_key_type@,
        target_value_type@,

        intersection_state,
    );
    let mut i: usize = 0;
    while i < parts.len()
        invariant
            i <= parts@.len(),
            relater.moved(*old(relater), relater.state()),
            whole == rel_index_parts(
        c,
        relater.state(),
        all,
        i as nat,
        target@,
        target_key_type@,
        target_value_type@,

        intersection_state,
    ),
        decreases parts@.len() - i,
    {

        assert(all[i as int] == parts@[i as int]@);
        let entries = visit_index_entries(relater.db(), &parts[i]);
        if let Err(failure) = relate_index_entries(
            relater,
            &parts[i],
            &entries,
            target,
            target_key_type,
            target_value_type,
            intersection_state,
        ) {
            return Err(failure);
        }
        i += 1;
    }
    Ok(())
}

#[verifier::loop_isolation(false)]
fn relate_index_entries(
    relater: &mut Relater,
    source: &LuaType,
    entries: &Vec<IndexEntry>,
    target: &LuaType,
    target_key_type: &LuaType,
    target_value_type: &LuaType,
    intersection_state: IntersectionState,
) -> (r: RelationResult)
    ensures
        final(relater).did(
            *old(relater),
            rel_index_entries(
                old(relater).scope(),
                old(relater).state(),
                source@,
                entries::index_entry_tys(entries@),
                0,
                target@,
                target_key_type@,
                target_value_type@,
                intersection_state,
            ),
            r,
        ),
    decreases old(relater).scope().db.room, 12nat, old(relater).room_left(), 57nat, entries@.len(),
{
    let ghost c = relater.scope();
    let ghost all = entries::index_entry_tys(entries@);
    let ghost whole = rel_index_entries(
        c,
        relater.state(),
        source@,
        all,
        0,
        target@,
        target_key_type@,
        target_value_type@,

        intersection_state,
    );
    let mut i: usize = 0;
    while i < entries.len()
        invariant
            i <= entries@.len(),
            relater.moved(*old(relater), relater.state()),
            whole == rel_index_entries(
        c,
        relater.state(),
        source@,
        all,
        i as nat,
        target@,
        target_key_type@,
        target_value_type@,

        intersection_state,
    ),
        decreases entries@.len() - i,
    {

        assert(all[i as int] == entries@[i as int]@);
        if let Err(failure) = relate_index_entry(
            relater,
            source,
            &entries[i],
            target,
            target_key_type,
            target_value_type,
            intersection_state,
        ) {
            return Err(failure);
        }
        i += 1;
    }
    Ok(())
}

fn relate_index_entry(
    relater: &mut Relater,
    source: &LuaType,
    entry: &IndexEntry,
    target: &LuaType,
    target_key_type: &LuaType,
    target_value_type: &LuaType,
    intersection_state: IntersectionState,
) -> (r: RelationResult)
    ensures
        final(relater).did(
            *old(relater),
            rel_index_entry(
                old(relater).scope(),
                old(relater).state(),
                source@,
                entry@,
                target@,
                target_key_type@,
                target_value_type@,
                intersection_state,
            ),
            r,
        ),
    decreases old(relater).scope().db.room, 12nat, old(relater).room_left(), 56nat, 0nat,
{
    if let Err(failure) = relater.consume_relation_budget() {
        return Err(failure);
    }
    match relater.probe_relation(&entry.key, target_key_type, intersection_state) {
        Ok(()) => {
            let result = relater.relate(&entry.value, target_value_type, intersection_state);
            relater.note_index(result, &entry.key)
        },
        Err(RelationFailure::Unrelated) => {
            if matches!(entry.origin, EntryOrigin::Tuple(_)) && matches!(
                entry.key,
                LuaType::Integer
            ) {
                relater.fail_types(source, target)
            } else {
                Ok(())
            }
        },
        Err(RelationFailure::Indeterminate(kind)) => Err(RelationFailure::Indeterminate(kind)),
    }
}

/// Compares a source with a table of keys and values: every entry has to fit both.
pub fn relate_to_table_generic(
    relater: &mut Relater,
    source: &LuaType,
    target: &LuaType,
    target_params: &Vec<LuaType>,
    intersection_state: IntersectionState,
) -> (r: RelationResult)
    ensures
        final(relater).did(
            *old(relater),
            rel_table_generic(
                old(relater).scope(),
                old(relater).state(),
                source@,
                target@,
                types::tys(target_params@),
                intersection_state,
            ),
            r,
        ),
    decreases old(relater).scope().db.room, 12nat, old(relater).room_left(), 58nat, 0nat,
{
    if target_params.len() != 2 {
        return relater.fail_types(source, target);
    }
    if let LuaType::TableGeneric(params) = source {
        assert(source@ == Ty::TableGeneric(types::tys(params@)));
        if params.len() != 2 {
            return relater.fail_types(source, target);
        }
    }
    let entries = visit_index_entries(relater.db(), source);
    assert(types::tys(target_params@)[0] == target_params@[0]@ && types::tys(target_params@)[1]
        == target_params@[1]@);
    relate_pairs(relater, &entries, &target_params[0], &target_params[1], intersection_state)
}

#[verifier::loop_isolation(false)]
fn relate_pairs(
    relater: &mut Relater,
    entries: &Vec<IndexEntry>,
    key: &LuaType,
    value: &LuaType,
    intersection_state: IntersectionState,
) -> (r: RelationResult)
    ensures
        final(relater).did(
            *old(relater),
            rel_pairs(
                old(relater).scope(),
                old(relater).state(),
                entries::index_entry_tys(entries@),
                0,
                key@,
                value@,
                intersection_state,
            ),
            r,
        ),
    decreases old(relater).scope().db.room, 12nat, old(relater).room_left(), 57nat, entries@.len(),
{
    let ghost c = relater.scope();
    let ghost all = entries::index_entry_tys(entries@);
    let ghost whole = rel_pairs(
        c,
        relater.state(),
        all,
        0,
        key@,
        value@,

        intersection_state,
    );
    let mut i: usize = 0;
    while i < entries.len()
        invariant
            i <= entries@.len(),
            relater.moved(*old(relater), relater.state()),
            whole == rel_pairs(
        c,
        relater.state(),
        all,
        i as nat,
        key@,
        value@,

        intersection_state,
    ),
        decreases entries@.len() - i,
    {

        assert(all[i as int] == entries@[i as int]@);
        if let Err(failure) = relate_pair(relater, &entries[i], key, value, intersection_state) {
            return Err(failure);
        }
        i += 1;
    }
    Ok(())
}

fn relate_pair(
    relater: &mut Relater,
    entry: &IndexEntry,
    key: &LuaType,
    value: &LuaType,
    intersection_state: IntersectionState,
) -> (r: RelationResult)
    ensures
        final(relater).did(
            *old(relater),
            rel_pair(
                old(relater).scope(),
                old(relater).state(),
                entry@,
                key@,
                value@,
                intersection_state,
            ),
            r,
        ),
    decreases old(relater).scope().db.room, 12nat, old(relater).room_left(), 56nat, 0nat,
{
    if !matches!(entry.origin, EntryOrigin::Generic) {
        if let Err(failure) = relater.consume_relation_budget() {
            return Err(failure);
        }
    }
    let key_result = relater.relate(&entry.key, key, intersection_state);
    let key_result = match entry.origin {
        EntryOrigin::Generic | EntryOrigin::Tuple(_) => relater.on_unrelated(
            key_result,
            ChainMessage::GenericArgument { index: 0 },
        ),
        _ => relater.note_index(key_result, &entry.key),
    };
    if let Err(failure) = key_result {
        return Err(failure);
    }
    let value_result = relater.relate(&entry.value, value, intersection_state);
    match &entry.origin {
        EntryOrigin::Generic => relater.on_unrelated(
            value_result,
            ChainMessage::GenericArgument { index: 1 },
        ),
        EntryOrigin::Tuple(index) => relater.on_unrelated(
            value_result,
            ChainMessage::TupleElement { index: *index },
        ),
        EntryOrigin::Field(member) => relater.note_property(value_result, member),
        EntryOrigin::Index => relater.note_index(value_result, &entry.key),
    }
}

} // verus!
