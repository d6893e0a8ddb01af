//! Comparing members.

use vstd::prelude::*;

use crate::types;
use crate::type_check::{entries, error_chain, normalize, relation};
use crate::type_check::entries::{find_direct_member, list_member_entries};
use crate::type_check::error_chain::{MessageTy, missing_members_message};
use crate::type_check::normalize::is_optional;
use crate::type_check::relation::{
    IntersectionState, Rel, RelScope, RelState, Relater, RelationFailure, RelationResult,
};
use crate::type_check::structured::index;
use crate::type_check::structured::index::{list_flat_parts, relate_index_member};
use crate::types::{KeyTy, LuaMemberKey, LuaType, Ty};

verus! {

/// The type of a member, or that it could not be told.
pub struct MemberRel {
    pub st: RelState,
    pub res: Result<Option<Ty>, RelationFailure>,
}

/// The fields that a source lacks, and whether it has any of those asked for.
pub struct MissingRel {
    pub st: RelState,
    pub res: Result<(Seq<KeyTy>, bool), RelationFailure>,
}

/// The type of the member of a type under a key. The key of a table is compared.
pub open spec fn rel_member_type(
    c: RelScope,
    st: RelState,
    t: Ty,
    key: KeyTy,
    state: IntersectionState,
) -> MemberRel
    decreases relation::levels(c), 54nat, 0nat,
{
    match t {
        Ty::TableGeneric(params) => if params.len() == 2 {
            match entries::key_type(key) {
                None => MemberRel { st, res: Ok(None) },
                Some(k) => {
                    let r = relation::rel_types(relation::quiet(c), st, k, params[0], state);
                    match r.res {
                        Ok(_) => MemberRel { st: r.st, res: Ok(Some(params[1])) },
                        Err(RelationFailure::Unrelated) => MemberRel { st: r.st, res: Ok(None) },
                        Err(failure) => MemberRel { st: r.st, res: Err(failure) },
                    }
                },
            }
        } else {
            MemberRel { st, res: Ok(None) }
        },
        _ => MemberRel { st, res: Ok(entries::direct_member(c.db, t, key)) },
    }
}

/// Compares the members of the target with those of the source. Where a reason is wanted, missing
/// fields are all looked for first.
pub open spec fn rel_members(
    c: RelScope,
    st: RelState,
    source: Ty,
    target: Ty,
    state: IntersectionState,
) -> Rel
    decreases relation::levels(c), 64nat, 0nat,
{
    let members = entries::member_entries(c.db, target);
    if members.len() == 0 {
        relation::rel_ok(st)
    } else if c.explain {
        let m = rel_missing(c, st, source, target, state);
        match m.res {
            Err(failure) => relation::rel_err(m.st, failure),
            Ok((missing, _)) => if missing.len() > 0 {
                relation::rel_fail(
                    c,
                    m.st,
                    MessageTy::MissingMembers { source, target, keys: missing },
                )
            } else {
                rel_each_member(c, m.st, source, target, members, 0, state)
            },
        }
    } else {
        rel_each_member(c, st, source, target, members, 0, state)
    }
}

pub open spec fn rel_each_member(
    c: RelScope,
    st: RelState,
    source: Ty,
    target: Ty,
    members: Seq<(KeyTy, Ty)>,
    k: nat,
    state: IntersectionState,
) -> Rel
    decreases relation::levels(c), 63nat, members.len() - k,
{
    if k >= members.len() {
        relation::rel_ok(st)
    } else {
        let r = rel_member(
            c,
            st,
            source,
            target,
            members[k as int].0,
            members[k as int].1,
            state,
        );
        if r.res is Err {
            r
        } else {
            rel_each_member(c, r.st, source, target, members, k + 1, state)
        }
    }
}

/// One member of the target.
pub open spec fn rel_member(
    c: RelScope,
    st: RelState,
    source: Ty,
    target: Ty,
    key: KeyTy,
    member: Ty,
    state: IntersectionState,
) -> Rel
    decreases relation::levels(c), 62nat, 0nat,
{
    match key {
        KeyTy::TypeKey(index) => if state == IntersectionState::Target {
            relation::rel_ok(st)
        } else {
            index::rel_index_member(c, st, source, target, *index, member, state)
        },
        _ => {
            let spent = relation::rel_spend(st);
            if spent.res is Err {
                spent
            } else {
                let m = rel_member_type(c, spent.st, source, key, state);
                match m.res {
                    Err(failure) => relation::rel_err(m.st, failure),
                    Ok(None) => if c.explain || normalize::omittable(c.db, member) {
                        relation::rel_ok(m.st)
                    } else {
                        relation::rel_err(m.st, RelationFailure::Unrelated)
                    },
                    Ok(Some(s)) => relation::rel_note(
                        c,
                        relation::rel_types(c, m.st, s, member, state),
                        error_chain::property_msg(key),
                    ),
                }
            }
        },
    }
}

/// The fields of the target that the source lacks and that may not be left out, and whether it has
/// any of them.
pub open spec fn rel_missing(
    c: RelScope,
    st: RelState,
    source: Ty,
    target: Ty,
    state: IntersectionState,
) -> MissingRel
    decreases relation::levels(c), 56nat, 0nat,
{
    rel_missing_of(c, st, source, entries::member_entries(c.db, target), 0, Seq::empty(), false, state)
}

pub open spec fn rel_missing_of(
    c: RelScope,
    st: RelState,
    source: Ty,
    members: Seq<(KeyTy, Ty)>,
    k: nat,
    missing: Seq<KeyTy>,
    shared: bool,
    state: IntersectionState,
) -> MissingRel
    decreases relation::levels(c), 55nat, members.len() - k,
{
    if k >= members.len() {
        MissingRel { st, res: Ok((missing, shared)) }
    } else {
        let (key, t) = members[k as int];
        if key is TypeKey {
            rel_missing_of(c, st, source, members, k + 1, missing, shared, state)
        } else {
            let m = rel_member_type(c, st, source, key, state);
            match m.res {
                Err(failure) => MissingRel { st: m.st, res: Err(failure) },
                Ok(Some(_)) => rel_missing_of(
                    c,
                    m.st,
                    source,
                    members,
                    k + 1,
                    missing,
                    true,
                    state,
                ),
                Ok(None) => rel_missing_of(
                    c,
                    m.st,
                    source,
                    members,
                    k + 1,
                    if normalize::omittable(c.db, t) {
                        missing
                    } else {
                        missing.push(key)
                    },
                    shared,
                    state,
                ),
            }
        }
    }
}

/// What the parts of a target intersection demand of keys, from part `k` on.
pub open spec fn rel_index_of_parts(
    c: RelScope,
    st: RelState,
    source: Ty,
    target: Ty,
    parts: Seq<Ty>,
    k: nat,
) -> Rel
    decreases relation::levels(c), 65nat, parts.len() - k,
{
    if k >= parts.len() {
        relation::rel_ok(st)
    } else {
        let r = rel_indexes_of(c, st, source, target, entries::member_entries(c.db, parts[k as int]), 0);
        if r.res is Err {
            r
        } else {
            rel_index_of_parts(c, r.st, source, target, parts, k + 1)
        }
    }
}

pub open spec fn rel_indexes_of(
    c: RelScope,
    st: RelState,
    source: Ty,
    target: Ty,
    members: Seq<(KeyTy, Ty)>,
    k: nat,
) -> Rel
    decreases relation::levels(c), 64nat, members.len() - k,
{
    if k >= members.len() {
        relation::rel_ok(st)
    } else {
        let r = match members[k as int].0 {
            KeyTy::TypeKey(index) => index::rel_index_member(
                c,
                st,
                source,
                target,
                *index,
                members[k as int].1,
                IntersectionState::Plain,
            ),
            _ => relation::rel_ok(st),
        };
        if r.res is Err {
            r
        } else {
            rel_indexes_of(c, r.st, source, target, members, k + 1)
        }
    }
}

pub open spec fn res_member(r: Result<Option<LuaType>, RelationFailure>) -> Result<
    Option<Ty>,
    RelationFailure,
> {
    match r {
        Ok(t) => Ok(types::opt_ty(t)),
        Err(failure) => Err(failure),
    }
}

pub open spec fn res_missing(r: Result<(Vec<LuaMemberKey>, bool), RelationFailure>) -> Result<
    (Seq<KeyTy>, bool),
    RelationFailure,
> {
    match r {
        Ok((keys, shared)) => Ok((error_chain::keys_ty(keys@), shared)),
        Err(failure) => Err(failure),
    }
}

/// The type of the member of a type under a key.
pub fn member_type(
    relater: &mut Relater,
    typ: &LuaType,
    key: &LuaMemberKey,
    intersection_state: IntersectionState,
) -> (r: Result<Option<LuaType>, RelationFailure>)
    ensures
        ({
            let m = rel_member_type(
                old(relater).scope(),
                old(relater).state(),
                typ@,
                key@,
                intersection_state,
            );
            final(relater).moved(*old(relater), m.st) && res_member(r) == m.res
        }),
    decreases old(relater).scope().db.room, 12nat, old(relater).room_left(), 54nat, 0nat,
{
    if let LuaType::TableGeneric(params) = typ {
        assert(typ@ == Ty::TableGeneric(types::tys(params@)));
        if params.len() != 2 {
            return Ok(None);
        }
        assert(types::tys(params@)[0] == params@[0]@ && types::tys(params@)[1] == params@[1]@);
        return match key.to_index_type() {
            None => Ok(None),
            Some(key_type) => match relater.probe_relation(
                &key_type,
                &params[0],
                intersection_state,
            ) {
                Ok(()) => Ok(Some(params[1].clone())),
                Err(RelationFailure::Unrelated) => Ok(None),
                Err(RelationFailure::Indeterminate(kind)) => Err(
                    RelationFailure::Indeterminate(kind),
                ),
            },
        };
    }
    Ok(find_direct_member(relater.db(), typ, key))
}

pub fn unrelated_missing_members(
    relater: &mut Relater,
    source: &LuaType,
    target: &LuaType,
    keys: &Vec<LuaMemberKey>,
) -> (r: RelationResult)
    ensures
        final(relater).did(
            *old(relater),
            relation::rel_fail(
                old(relater).scope(),
                old(relater).state(),
                (MessageTy::MissingMembers {
                    source: source@,
                    target: target@,
                    keys: error_chain::keys_ty(keys@),
                }),
            ),
            r,
        ),
{
    if relater.is_explain() {
        let message = missing_members_message(source, target, keys);
        return relater.fail(message);
    }
    Err(RelationFailure::Unrelated)
}

/// Compares the members of the target with those of the source.
pub fn relate_members(
    relater: &mut Relater,
    source: &LuaType,
    target: &LuaType,
    intersection_state: IntersectionState,
) -> (r: RelationResult)
    ensures
        final(relater).did(
            *old(relater),
            rel_members(
                old(relater).scope(),
                old(relater).state(),
                source@,
                target@,
                intersection_state,
            ),
            r,
        ),
    decreases old(relater).scope().db.room, 12nat, old(relater).room_left(), 64nat, 0nat,
{
    let members = list_member_entries(relater.db(), target);
    assert(types::field_tys(members@).len() == members@.len());
    if members.len() == 0 {
        return Ok(());
    }
    if relater.is_explain() {
        match collect_missing_members(relater, source, target, intersection_state) {
            Err(failure) => {
                return Err(failure);
            },
            Ok((missing_keys, _)) => {
                assert(error_chain::keys_ty(missing_keys@).len() == missing_keys@.len());
                if missing_keys.len() > 0 {
                    return unrelated_missing_members(relater, source, target, &missing_keys);
                }
            },
        }
    }
    relate_each_member(relater, source, target, &members, intersection_state)
}

#[verifier::loop_isolation(false)]
fn relate_each_member(
    relater: &mut Relater,
    source: &LuaType,
    target: &LuaType,
    members: &Vec<(LuaMemberKey, LuaType)>,
    intersection_state: IntersectionState,
) -> (r: RelationResult)
    ensures
        final(relater).did(
            *old(relater),
            rel_each_member(
                old(relater).scope(),
                old(relater).state(),
                source@,
                target@,
                types::field_tys(members@),
                0,
                intersection_state,
            ),
            r,
        ),
    decreases old(relater).scope().db.room, 12nat, old(relater).room_left(), 63nat, members@.len(),
{
    let ghost c = relater.scope();
    let ghost all = types::field_tys(members@);
    let ghost whole = rel_each_member(
        c,
        relater.state(),
        source@,
        target@,
        all,
        0,

        intersection_state,
    );
    let mut i: usize = 0;
    while i < members.len()
        invariant
            i <= members@.len(),
            relater.moved(*old(relater), relater.state()),
            whole == rel_each_member(
        c,
        relater.state(),
        source@,
        target@,
        all,
        i as nat,

        intersection_state,
    ),
        decreases members@.len() - i,
    {

        let (key, member) = &members[i];
        assert(all[i as int] == (key@, member@));
        if let Err(failure) = relate_member(
            relater,
            source,
            target,
            key,
            member,
            intersection_state,
        ) {
            return Err(failure);
        }
        i += 1;
    }
    Ok(())
}

fn relate_member(
    relater: &mut Relater,
    source: &LuaType,
    target: &LuaType,
    key: &LuaMemberKey,
    member: &LuaType,
    intersection_state: IntersectionState,
) -> (r: RelationResult)
    ensures
        final(relater).did(
            *old(relater),
            rel_member(
                old(relater).scope(),
                old(relater).state(),
                source@,
                target@,
                key@,
                member@,
                intersection_state,
            ),
            r,
        ),
    decreases old(relater).scope().db.room, 12nat, old(relater).room_left(), 62nat, 0nat,
{
    if let LuaMemberKey::TypeKey(key_type) = key {
        if intersection_state.contains(IntersectionState::Target) {
            return Ok(());
        }
        return relate_index_member(
            relater,
            source,
            target,
            key_type,
            member,
            intersection_state,
        );
    }
    if let Err(failure) = relater.consume_relation_budget() {
        return Err(failure);
    }
    match member_type(relater, source, key, intersection_state) {
        Err(failure) => Err(failure),
        Ok(None) => {
            if relater.is_explain() || is_optional(relater.db(), member) {
                return Ok(());
            }
            Err(RelationFailure::Unrelated)
        },
        Ok(Some(source_type)) => {
            let result = relater.relate(&source_type, member, intersection_state);
            relater.note_property(result, key)
        },
    }
}

/// The fields of the target that the source lacks, and whether it has any of them.
#[verifier::loop_isolation(false)]
pub fn collect_missing_members(
    relater: &mut Relater,
    source: &LuaType,
    target: &LuaType,
    intersection_state: IntersectionState,
) -> (r: Result<(Vec<LuaMemberKey>, bool), RelationFailure>)
    ensures
        ({
            let m = rel_missing(
                old(relater).scope(),
                old(relater).state(),
                source@,
                target@,
                intersection_state,
            );
            final(relater).moved(*old(relater), m.st) && res_missing(r) == m.res
        }),
    decreases old(relater).scope().db.room, 12nat, old(relater).room_left(), 56nat, 0nat,
{
    let members = list_member_entries(relater.db(), target);
    let mut missing_keys: Vec<LuaMemberKey> = Vec::new();
    let mut has_shared_key = false;
    assert(error_chain::keys_ty(missing_keys@) =~= Seq::<KeyTy>::empty());
    let ghost c = relater.scope();
    let ghost all = types::field_tys(members@);
    let ghost whole = rel_missing_of(
        c,
        relater.state(),
        source@,
        all,
        0,
        error_chain::keys_ty(missing_keys@),
        has_shared_key,

        intersection_state,
    );
    let mut i: usize = 0;
    while i < members.len()
        invariant
            i <= members@.len(),
            relater.moved(*old(relater), relater.state()),
            whole == rel_missing_of(
        c,
        relater.state(),
        source@,
        all,
        i as nat,
        error_chain::keys_ty(missing_keys@),
        has_shared_key,

        intersection_state,
    ),
        decreases members@.len() - i,
    {

        let (key, member) = &members[i];
        assert(all[i as int] == (key@, member@));
        if !matches!(key, LuaMemberKey::TypeKey(_)) {
            match member_type(relater, source, key, intersection_state) {
                Err(failure) => {
                    return Err(failure);
                },
                Ok(Some(_)) => {
                    has_shared_key = true;
                },
                Ok(None) => {
                    if !is_optional(relater.db(), member) {
                        let ghost before = error_chain::keys_ty(missing_keys@);
                        missing_keys.push(key.clone());
                        assert(error_chain::keys_ty(missing_keys@) =~= before.push(key@));
                    }
                },
            }
        }
        i += 1;
    }
    Ok((missing_keys, has_shared_key))
}

#[verifier::loop_isolation(false)]
pub fn relate_target_intersection_index_members(
    relater: &mut Relater,
    source: &LuaType,
    target: &LuaType,
    types: &Vec<LuaType>,
) -> (r: RelationResult)
    ensures
        final(relater).did(
            *old(relater),
            rel_index_of_parts(
                old(relater).scope(),
                old(relater).state(),
                source@,
                target@,
                index::flat_parts(types::tys(types@)),
                0,
            ),
            r,
        ),
    decreases old(relater).scope().db.room, 12nat, old(relater).room_left(), 65nat, 0nat,
{
    let parts = list_flat_parts(types);
    let ghost c = relater.scope();
    let ghost all = types::tys(parts@);
    let ghost whole = rel_index_of_parts(
        c,
        relater.state(),
        source@,
        target@,
        all,
        0,

    );
    let mut i: usize = 0;
    while i < parts.len()
        invariant
            i <= parts@.len(),
            relater.moved(*old(relater), relater.state()),
            whole == rel_index_of_parts(
        c,
        relater.state(),
        source@,
        target@,
        all,
        i as nat,

    ),
        decreases parts@.len() - i,
    {

        assert(all[i as int] == parts@[i as int]@);
        let members = list_member_entries(relater.db(), &parts[i]);
        if let Err(failure) = relate_indexes_of(relater, source, target, &members) {
            return Err(failure);
        }
        i += 1;
    }
    Ok(())
}

#[verifier::loop_isolation(false)]
fn relate_indexes_of(
    relater: &mut Relater,
    source: &LuaType,
    target: &LuaType,
    members: &Vec<(LuaMemberKey, LuaType)>,
) -> (r: RelationResult)
    ensures
        final(relater).did(
            *old(relater),
            rel_indexes_of(
                old(relater).scope(),
                old(relater).state(),
                source@,
                target@,
                types::field_tys(members@),
                0,
            ),
            r,
        ),
    decreases old(relater).scope().db.room, 12nat, old(relater).room_left(), 64nat, members@.len(),
{
    let ghost c = relater.scope();
    let ghost all = types::field_tys(members@);
    let ghost whole = rel_indexes_of(
        c,
        relater.state(),
        source@,
        target@,
        all,
        0,

    );
    let mut i: usize = 0;
    while i < members.len()
        invariant
            i <= members@.len(),
            relater.moved(*old(relater), relater.state()),
            whole == rel_indexes_of(
        c,
        relater.state(),
        source@,
        target@,
        all,
        i as nat,

    ),
        decreases members@.len() - i,
    {

        let (key, value_type) = &members[i];
        assert(all[i as int] == (key@, value_type@));
        if let LuaMemberKey::TypeKey(key_type) = key {
            if let Err(failure) = relate_index_member(
                relater,
                source,
                target,
                key_type,
                value_type,
                IntersectionState::Plain,
            ) {
                return Err(failure);
            }
        }
        i += 1;
    }
    Ok(())
}

} // verus!
