//! What holds of members that are inherited, or shared by the branches of a union.

use vstd::prelude::*;

use crate::db::DbTy;
use crate::member::collect;
use crate::member::collect::SymbolTy;
use crate::types::{GenericTplId, KeyTy, Ty, equality};

verus! {

/// No two members have the same key.
pub open spec fn member_keys_distinct(members: Seq<(KeyTy, SymbolTy)>) -> bool {
    forall|i: int, j: int|
        0 <= i < j < members.len() ==> !equality::key_eq((#[trigger] members[i]).0, (#[trigger] members[j]).0)
}

proof fn lemma_find_in_longer(members: Seq<(KeyTy, SymbolTy)>, more: (KeyTy, SymbolTy), key: KeyTy)
    ensures
        collect::find_member(members.push(more), key) == (match collect::find_member(members, key) {
            Some(symbol) => Some(symbol),
            None => if equality::key_eq(more.0, key) {
                Some(more.1)
            } else {
                None
            },
        }),
    decreases members.len(),
{
    if members.len() == 0 {
        assert(members.push(more)[0] == more);
        assert(collect::find_member(members.push(more).skip(1), key) is None);
    } else {
        assert(members.push(more)[0] == members[0]);
        assert(members.push(more).skip(1) =~= members.skip(1).push(more));
        lemma_find_in_longer(members.skip(1), more, key);
    }
}

proof fn lemma_missing_key(members: Seq<(KeyTy, SymbolTy)>, key: KeyTy, i: int)
    requires
        collect::find_member(members, key) is None,
        0 <= i < members.len(),
    ensures
        !equality::key_eq(members[i].0, key),
    decreases members.len(),
{
    if i > 0 {
        assert(members.skip(1)[i - 1] == members[i]);
        lemma_missing_key(members.skip(1), key, i - 1);
    }
}

/// A member hides the inherited ones of the same key.
pub proof fn own_member_hides_inherited(
    own: Seq<(KeyTy, SymbolTy)>,
    inherited: Seq<(KeyTy, SymbolTy)>,
    key: KeyTy,
)
    requires
        collect::find_member(own, key) is Some,
    ensures
        collect::find_member(collect::merged_members(own, inherited), key) == collect::find_member(own, key),
    decreases inherited.len(),
{
    if inherited.len() > 0 {
        own_member_hides_inherited(own, inherited.drop_last(), key);
        lemma_find_in_longer(collect::merged_members(own, inherited.drop_last()), inherited.last(), key);
    }
}

/// Inheriting members gives no key twice.
pub proof fn inheriting_gives_no_key_twice(
    own: Seq<(KeyTy, SymbolTy)>,
    inherited: Seq<(KeyTy, SymbolTy)>,
)
    requires
        member_keys_distinct(own),
    ensures
        member_keys_distinct(collect::merged_members(own, inherited)),
    decreases inherited.len(),
{
    if inherited.len() > 0 {
        inheriting_gives_no_key_twice(own, inherited.drop_last());
        let front = collect::merged_members(own, inherited.drop_last());
        let more = inherited.last();
        if collect::find_member(front, more.0) is None {
            assert forall|i: int| 0 <= i < front.len() implies !equality::key_eq(
                (#[trigger] front[i]).0,
                more.0,
            ) by {
                lemma_missing_key(front, more.0, i);
            }
            let longer = front.push(more);
            assert forall|i: int, j: int| 0 <= i < j < longer.len() implies !equality::key_eq(
                (#[trigger] longer[i]).0,
                (#[trigger] longer[j]).0,
            ) by {
                if j < front.len() {
                    assert(longer[i] == front[i] && longer[j] == front[j]);
                } else {
                    assert(longer[i] == front[i]);
                }
            }
        }
    }
}

/// A member whose name nobody hides is inherited.
pub proof fn unhidden_member_is_inherited(
    own: Seq<(KeyTy, SymbolTy)>,
    inherited: Seq<(KeyTy, SymbolTy)>,
    name: Seq<char>,
)
    requires
        collect::find_member(own, KeyTy::Name(name)) is None,
    ensures
        collect::find_member(collect::merged_members(own, inherited), KeyTy::Name(name)) == collect::find_member(
            inherited,
            KeyTy::Name(name),
        ),
    decreases inherited.len(),
{
    let key = KeyTy::Name(name);
    if inherited.len() > 0 {
        let before = inherited.drop_last();
        let more = inherited.last();
        unhidden_member_is_inherited(own, before, name);
        let front = collect::merged_members(own, before);
        assert(inherited =~= before.push(more));
        lemma_find_in_longer(before, more, key);
        lemma_find_in_longer(front, more, key);
        if equality::key_eq(more.0, key) {
            assert(more.0 == key);
        }
    }
}

/// A member of the list has the key.
pub open spec fn has_key(members: Seq<(KeyTy, SymbolTy)>, key: KeyTy) -> bool {
    exists|i: int|
        0 <= i < members.len() && ((#[trigger] members[i]).0 == key || equality::key_eq(members[i].0, key))
}

proof fn lemma_found_key(members: Seq<(KeyTy, SymbolTy)>, key: KeyTy)
    requires
        collect::find_member(members, key) is Some,
    ensures
        has_key(members, key),
    decreases members.len(),
{
    if equality::key_eq(members[0].0, key) {
        assert(members[0].0 == key || equality::key_eq(members[0].0, key));
    } else {
        lemma_found_key(members.skip(1), key);
        let rest = members.skip(1);
        let i = choose|i: int|
            0 <= i < rest.len() && ((#[trigger] rest[i]).0 == key || equality::key_eq(rest[i].0, key));
        assert(members[i + 1] == rest[i]);
    }
}

proof fn lemma_retained_group(
    groups: Seq<(KeyTy, Seq<SymbolTy>)>,
    members: Seq<(KeyTy, SymbolTy)>,
    g: int,
) -> (h: int)
    requires
        0 <= g < collect::retained(groups, members).len(),
    ensures
        0 <= h < groups.len(),
        collect::retained(groups, members)[g].0 == groups[h].0,
        collect::find_member(members, groups[h].0) is Some,
    decreases groups.len(),
{
    let front = collect::retained(groups.drop_last(), members);
    if g < front.len() {
        let h = lemma_retained_group(groups.drop_last(), members, g);
        assert(groups.drop_last()[h] == groups[h]);
        h
    } else {
        groups.len() - 1
    }
}

/// What a union has, each of its branches has that may have members at all.
pub proof fn union_member_is_in_every_branch(
    db: DbTy,
    seen: Seq<Ty>,
    modules: nat,
    types: Seq<Ty>,
    m: Option<Seq<(GenericTplId, Ty)>>,
    g: int,
    i: int,
)
    requires
        collect::collected_branches(db, seen, modules, types, m) matches Some(groups) && 0 <= g
            < groups.len(),
        0 <= i < types.len(),
        collect::collected(db, seen, modules, types[i], m) is Some,
    ensures
        has_key(
            collect::collected(db, seen, modules, types[i], m).unwrap(),
            collect::collected_branches(db, seen, modules, types, m).unwrap()[g].0,
        ),
    decreases types.len(),
{
    let groups = collect::collected_branches(db, seen, modules, types, m).unwrap();
    let shorter = types.drop_last();
    let front = collect::collected_branches(db, seen, modules, shorter, m);
    let last = collect::collected(db, seen, modules, types.last(), m);
    match last {
        Some(members) => match front {
            Some(before) => {
                let h = lemma_retained_group(before, members, g);
                if i < types.len() - 1 {
                    assert(shorter[i] == types[i]);
                    union_member_is_in_every_branch(db, seen, modules, shorter, m, h, i);
                } else {
                    lemma_found_key(members, groups[g].0);
                }
            },
            None => {
                if i < types.len() - 1 {
                    assert(shorter[i] == types[i]);
                    lemma_branch_with_members(db, seen, modules, shorter, m, i);
                } else {
                    assert(members[g].0 == groups[g].0);
                }
            },
        },
        None => {
            assert(shorter[i] == types[i]);
            union_member_is_in_every_branch(db, seen, modules, shorter, m, g, i);
        },
    }
}

proof fn lemma_branch_with_members(
    db: DbTy,
    seen: Seq<Ty>,
    modules: nat,
    types: Seq<Ty>,
    m: Option<Seq<(GenericTplId, Ty)>>,
    i: int,
)
    requires
        0 <= i < types.len(),
        collect::collected(db, seen, modules, types[i], m) is Some,
    ensures
        collect::collected_branches(db, seen, modules, types, m) is Some,
    decreases types.len(),
{
    if i < types.len() - 1 {
        assert(types.drop_last()[i] == types[i]);
        lemma_branch_with_members(db, seen, modules, types.drop_last(), m, i);
    }
}

} // verus!
