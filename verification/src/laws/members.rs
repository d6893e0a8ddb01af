//! Which members types have.

use vstd::prelude::*;

use crate::db;
use crate::db::{DbTy, DeclTy, ItemTy, OwnerTy};
use crate::member::collect;
use crate::member::collect::{OriginTy, SymbolTy};
use crate::type_check::entries;
use crate::types::{
    ArrayTy, InFiled, KeyTy, LuaArrayLen, LuaTupleStatus, ObjectTy, TupleTy, Ty, UnionTy, equality,
    equivalence,
};

verus! {

/// The members that stand for fields just as they are.
spec fn plain_members(fields: Seq<(KeyTy, Ty)>) -> Seq<(KeyTy, SymbolTy)> {
    Seq::new(
        fields.len(),
        |i: int|
            (fields[i].0, SymbolTy { origin: OriginTy::Type(fields[i].1), substitutor: None }),
    )
}

spec fn plain_items(items: Seq<ItemTy>) -> Seq<(KeyTy, SymbolTy)> {
    Seq::new(
        items.len(),
        |i: int|
            (items[i].key, SymbolTy { origin: OriginTy::Indexed(items[i].types), substitutor: None }),
    )
}

/// The members stand under names and numbers.
pub open spec fn items_are_plain(items: Seq<ItemTy>) -> bool {
    &&& forall|i: int| 0 <= i < items.len() ==> !((#[trigger] items[i]).key is TypeKey)
    &&& forall|i: int, j: int|
        0 <= i < j < items.len() ==> (#[trigger] items[i]).key != (#[trigger] items[j]).key
}

pub proof fn lemma_no_member(members: Seq<(KeyTy, SymbolTy)>, key: KeyTy)
    requires
        !(key is TypeKey),
        forall|i: int| 0 <= i < members.len() ==> (#[trigger] members[i]).0 != key,
    ensures
        collect::find_member(members, key) is None,
    decreases members.len(),
{
    if members.len() > 0 {
        assert(members[0].0 != key);
        let rest = members.skip(1);
        assert forall|i: int| 0 <= i < rest.len() implies (#[trigger] rest[i]).0 != key by {
            assert(rest[i] == members[i + 1]);
        }
        lemma_no_member(rest, key);
    }
}

proof fn lemma_member_at(members: Seq<(KeyTy, SymbolTy)>, key: KeyTy, i: int)
    requires
        !(key is TypeKey),
        0 <= i < members.len(),
        members[i].0 == key,
        forall|j: int| 0 <= j < i ==> (#[trigger] members[j]).0 != key,
    ensures
        collect::find_member(members, key) == Some(members[i].1),
    decreases i,
{
    if i > 0 {
        assert(members[0].0 != key);
        let rest = members.skip(1);
        assert(rest[i - 1] == members[i]);
        assert forall|j: int| 0 <= j < i - 1 implies (#[trigger] rest[j]).0 != key by {
            assert(rest[j] == members[j + 1]);
        }
        lemma_member_at(rest, key, i - 1);
    }
}

proof fn lemma_field_members(db: DbTy, fields: Seq<(KeyTy, Ty)>)
    requires
        equivalence::has_plain_keys(fields),
    ensures
        collect::field_members(db, fields, None) == plain_members(fields),
    decreases fields.len(),
{
    if fields.len() > 0 {
        let front = fields.drop_last();
        let last = fields[fields.len() - 1];
        assert(equivalence::has_plain_keys(front)) by {
            assert forall|i: int| 0 <= i < front.len() implies !((#[trigger] front[i]).0 is TypeKey) by {
                assert(front[i] == fields[i]);
            }
            assert forall|i: int, j: int| 0 <= i < j < front.len() implies (#[trigger] front[i]).0 != (
            #[trigger] front[j]).0 by {
                assert(front[i] == fields[i] && front[j] == fields[j]);
            }
        }
        lemma_field_members(db, front);
        assert(!(last.0 is TypeKey));
        assert forall|i: int| 0 <= i < plain_members(front).len() implies (#[trigger] plain_members(
            front,
        )[i]).0 != last.0 by {
            assert(fields[i].0 != fields[fields.len() - 1].0);
        }
        lemma_no_member(plain_members(front), last.0);
        assert(collect::field_members(db, fields, None) =~= plain_members(fields));
    } else {
        assert(collect::field_members(db, fields, None) =~= plain_members(fields));
    }
}

proof fn lemma_item_members(db: DbTy, items: Seq<ItemTy>)
    requires
        items_are_plain(items),
    ensures
        collect::item_members(db, items, None) == plain_items(items),
    decreases items.len(),
{
    if items.len() > 0 {
        let front = items.drop_last();
        let last = items[items.len() - 1];
        assert(items_are_plain(front)) by {
            assert forall|i: int| 0 <= i < front.len() implies !((#[trigger] front[i]).key is TypeKey) by {
                assert(front[i] == items[i]);
            }
            assert forall|i: int, j: int| 0 <= i < j < front.len() implies (#[trigger] front[i]).key
                != (#[trigger] front[j]).key by {
                assert(front[i] == items[i] && front[j] == items[j]);
            }
        }
        lemma_item_members(db, front);
        assert(!(last.key is TypeKey));
        assert forall|i: int| 0 <= i < plain_items(front).len() implies (#[trigger] plain_items(
            front,
        )[i]).0 != last.key by {
            assert(items[i].key != items[items.len() - 1].key);
        }
        lemma_no_member(plain_items(front), last.key);
        assert(collect::item_members(db, items, None) =~= plain_items(items));
    } else {
        assert(collect::item_members(db, items, None) =~= plain_items(items));
    }
}

/// An object has its fields as members, each with its type, and no others.
pub proof fn object_has_its_fields(db: DbTy, o: ObjectTy, i: int)
    requires
        o.index_access.len() == 0,
        equivalence::has_plain_keys(o.fields),
        0 <= i < o.fields.len(),
    ensures
        ({
            let members = collect::members_of_type(db, Ty::Object(Box::new(o)));
            &&& members.len() == o.fields.len()
            &&& members[i].0 == o.fields[i].0
            &&& collect::symbol_type(db, members[i].1) == o.fields[i].1
            &&& collect::find_member(members, o.fields[i].0) matches Some(symbol) && collect::symbol_type(db, symbol)
                == o.fields[i].1
        }),
{
    lemma_object_members(db, o);
    let members = plain_members(o.fields);
    assert(!(o.fields[i].0 is TypeKey));
    assert forall|j: int| 0 <= j < i implies (#[trigger] members[j]).0 != o.fields[i].0 by {
        assert(o.fields[j].0 != o.fields[i].0);
    }
    lemma_member_at(members, o.fields[i].0, i);
}

proof fn lemma_object_members(db: DbTy, o: ObjectTy)
    requires
        o.index_access.len() == 0,
        equivalence::has_plain_keys(o.fields),
    ensures
        collect::possible_members(db, Ty::Object(Box::new(o))) == Some(plain_members(o.fields)),
{
    lemma_field_members(db, o.fields);
}

/// An object asks for a member under each of its fields, and a table literal and a class ask for what
/// was declared of them.
pub proof fn entries_are_the_members(db: DbTy, o: ObjectTy, i: int)
    requires
        0 <= i < o.fields.len(),
    ensures
        entries::member_entries(db, Ty::Object(Box::new(o))).len() == o.fields.len() + o.index_access.len(),
        entries::member_entries(db, Ty::Object(Box::new(o)))[i] == o.fields[i],
        forall|k: int|
            0 <= k < o.index_access.len() ==> #[trigger] entries::member_entries(
                db,
                Ty::Object(Box::new(o)),
            )[o.fields.len() + k] == (
                KeyTy::TypeKey(Box::new(o.index_access[k].0)),
                o.index_access[k].1,
            ),
{
    reveal(entries::member_entries);
}

/// A class without super types has the members that were declared of it.
pub proof fn class_has_its_declared_members(
    db: DbTy,
    id: Seq<char>,
    decl: DeclTy,
    items: Seq<ItemTy>,
    i: int,
)
    requires
        db::decl_of(db, id) == Some(decl),
        decl.kind is Class,
        decl.super_types.len() == 0,
        db::items_of(db, OwnerTy::Type(id)) == items,
        items_are_plain(items),
        0 <= i < items.len(),
        items[i].types.len() == 1,
    ensures
        ({
            let members = collect::members_of_type(db, Ty::Ref(id));
            &&& members.len() == items.len()
            &&& collect::find_member(members, items[i].key) matches Some(symbol) && collect::symbol_type(db, symbol)
                == items[i].types[0]
        }),
{
    lemma_item_members(db, items);
    let members = plain_items(items);
    assert(!equality::holds_ty(Seq::<Ty>::empty(), Ty::Ref(id)));
    let none = Seq::<Ty>::empty();
    let modules = db.modules.len();
    assert(collect::collected_supers(
        db,
        none.push(Ty::Ref(id)),
        modules,
        members,
        decl.super_types,
        None,
    ) == members);
    assert(collect::collected_declared(db, none, modules, id, None, None) == Some(members));
    assert(collect::collected(db, none, modules, Ty::Ref(id), None) == Some(members));
    assert(collect::members_of_type(db, Ty::Ref(id)) == members);
    assert(!(items[i].key is TypeKey));
    assert forall|j: int| 0 <= j < i implies (#[trigger] members[j]).0 != items[i].key by {
        assert(items[j].key != items[i].key);
    }
    lemma_member_at(members, items[i].key, i);
}

/// A table literal has the members that were written in it.
pub proof fn table_literal_has_its_members(db: DbTy, range: InFiled, items: Seq<ItemTy>, i: int)
    requires
        db::items_of(db, OwnerTy::Element(range)) == items,
        items_are_plain(items),
        0 <= i < items.len(),
        items[i].types.len() == 1,
    ensures
        ({
            let members = collect::members_of_type(db, Ty::TableConst(range));
            &&& members.len() == items.len()
            &&& collect::find_member(members, items[i].key) matches Some(symbol) && collect::symbol_type(db, symbol)
                == items[i].types[0]
        }),
{
    lemma_item_members(db, items);
    let members = plain_items(items);
    assert(!(items[i].key is TypeKey));
    assert forall|j: int| 0 <= j < i implies (#[trigger] members[j]).0 != items[i].key by {
        assert(items[j].key != items[i].key);
    }
    lemma_member_at(members, items[i].key, i);
}

proof fn lemma_merged(members: Seq<(KeyTy, SymbolTy)>, more: Seq<(KeyTy, SymbolTy)>, key: KeyTy)
    requires
        !(key is TypeKey),
        forall|i: int| 0 <= i < more.len() ==> !((#[trigger] more[i]).0 is TypeKey),
    ensures
        collect::find_member(members, key) is Some ==> collect::find_member(collect::merged_members(members, more), key)
            == collect::find_member(members, key),
        collect::find_member(members, key) is None ==> collect::find_member(collect::merged_members(members, more), key)
            == collect::find_member(more, key),
    decreases more.len(),
{
    if more.len() > 0 {
        let front = more.drop_last();
        let last = more[more.len() - 1];
        assert forall|i: int| 0 <= i < front.len() implies !((#[trigger] front[i]).0 is TypeKey) by {
            assert(front[i] == more[i]);
        }
        lemma_merged(members, front, key);
        lemma_merged(members, front, last.0);
        let done = collect::merged_members(members, front);
        lemma_find_pushed(done, last, key);
        lemma_find_pushed(front, last, key);
        assert(front.push(last) =~= more);
    }
}

proof fn lemma_find_pushed(members: Seq<(KeyTy, SymbolTy)>, last: (KeyTy, SymbolTy), key: KeyTy)
    ensures
        collect::find_member(members.push(last), key) == if collect::find_member(members, key) is Some {
            collect::find_member(members, key)
        } else if equality::key_eq(last.0, key) {
            Some(last.1)
        } else {
            None
        },
    decreases members.len(),
{
    let all = members.push(last);
    if members.len() > 0 {
        assert(all[0] == members[0]);
        assert(all.skip(1) =~= members.skip(1).push(last));
        lemma_find_pushed(members.skip(1), last, key);
    } else {
        assert(all[0] == last);
        assert(all.skip(1) =~= Seq::<(KeyTy, SymbolTy)>::empty());
        reveal_with_fuel(collect::find_member, 2);
    }
}

/// A class has its own member under a name, and where it has none, that of its super type.
pub proof fn class_inherits_members(
    db: DbTy,
    sub: Seq<char>,
    base: Seq<char>,
    decl: DeclTy,
    base_decl: DeclTy,
    key: KeyTy,
)
    requires
        sub != base,
        !(key is TypeKey),
        db::decl_of(db, sub) == Some(decl),
        db::decl_of(db, base) == Some(base_decl),
        decl.kind is Class,
        base_decl.kind is Class,
        decl.super_types == seq![Ty::Ref(base)],
        base_decl.super_types.len() == 0,
        items_are_plain(db::items_of(db, OwnerTy::Type(sub))),
        items_are_plain(db::items_of(db, OwnerTy::Type(base))),
    ensures
        ({
            let own = collect::item_members(db, db::items_of(db, OwnerTy::Type(sub)), None);
            let inherited = collect::members_of_type(db, Ty::Ref(base));
            let members = collect::members_of_type(db, Ty::Ref(sub));
            &&& collect::find_member(own, key) is Some ==> collect::find_member(members, key) == collect::find_member(own, key)
            &&& collect::find_member(own, key) is None ==> collect::find_member(members, key) == collect::find_member(
                inherited,
                key,
            )
        }),
{
    let items = db::items_of(db, OwnerTy::Type(base));
    lemma_item_members(db, items);
    let own = collect::item_members(db, db::items_of(db, OwnerTy::Type(sub)), None);
    let none = Seq::<Ty>::empty();
    let seen = none.push(Ty::Ref(sub));
    let modules = db.modules.len();
    let more = plain_items(items);
    assert(!equality::holds_ty(none, Ty::Ref(sub)) && !equality::holds_ty(none, Ty::Ref(base)));
    assert(!equality::holds_ty(seen, Ty::Ref(base))) by {
        assert(seen[0] == Ty::Ref(sub));
    }
    assert(collect::collected_declared(db, seen, modules, base, None, None) == Some(more)) by {
        assert(collect::collected_supers(
            db,
            seen.push(Ty::Ref(base)),
            modules,
            more,
            base_decl.super_types,
            None,
        ) == more);
    }
    assert(collect::collected(db, seen, modules, Ty::Ref(base), None) == Some(more));
    assert(collect::collected_declared(db, none, modules, base, None, None) == Some(more)) by {
        assert(collect::collected_supers(
            db,
            none.push(Ty::Ref(base)),
            modules,
            more,
            base_decl.super_types,
            None,
        ) == more);
    }
    assert(collect::collected(db, none, modules, Ty::Ref(base), None) == Some(more));
    let supers = decl.super_types;
    assert(supers.drop_last() =~= Seq::<Ty>::empty());
    assert(collect::collected_supers(db, seen, modules, own, Seq::<Ty>::empty(), None) == own);
    assert(collect::collected_supers(db, seen, modules, own, supers, None) == collect::merged_members(own, more));
    assert(collect::collected_declared(db, none, modules, sub, None, None) == Some(collect::merged_members(own, more)));
    assert(collect::collected(db, none, modules, Ty::Ref(sub), None) == Some(collect::merged_members(own, more)));
    assert forall|i: int| 0 <= i < more.len() implies !((#[trigger] more[i]).0 is TypeKey) by {
        assert(!(items[i].key is TypeKey));
    }
    lemma_merged(own, more, key);
}

/// A tuple has its elements under 1, 2, 3 and so on; an array has its element under the integers and a
/// table its values under its keys.
pub proof fn elements_are_members(
    db: DbTy,
    a: Ty,
    b: Ty,
    len: LuaArrayLen,
    status: LuaTupleStatus,
)
    requires
        !(a is Variadic),
        !(b is Variadic),
    ensures
        ({
            let tuple = collect::members_of_type(
                db,
                Ty::Tuple(Box::new(TupleTy { types: seq![a, b], status })),
            );
            let array = collect::members_of_type(db, Ty::Array(Box::new(ArrayTy { base: a, len })));
            let table = collect::members_of_type(db, Ty::TableGeneric(seq![a, b]));
            &&& tuple.len() == 2
            &&& tuple[0].0 == KeyTy::Integer(1) && collect::symbol_type(db, tuple[0].1) == a
            &&& tuple[1].0 == KeyTy::Integer(2) && collect::symbol_type(db, tuple[1].1) == b
            &&& array.len() == 1
            &&& array[0].0 == KeyTy::TypeKey(Box::new(Ty::Integer)) && collect::symbol_type(db, array[0].1)
                == a
            &&& table.len() == 1
            &&& table[0].0 == KeyTy::TypeKey(Box::new(a)) && collect::symbol_type(db, table[0].1) == b
        }),
{
    reveal_with_fuel(collect::tuple_members, 4);
    reveal_with_fuel(collect::find_member, 3);
    let types = seq![a, b];
    assert(types[0] == a && types[1] == b);
    let first = (KeyTy::Integer(1), SymbolTy { origin: OriginTy::Type(a), substitutor: None });
    let one = Seq::<(KeyTy, SymbolTy)>::empty().push(first);
    assert(collect::element_key(0) == KeyTy::Integer(1) && collect::element_key(1) == KeyTy::Integer(2));
    assert(one[0] == first);
    assert(one.skip(1) =~= Seq::<(KeyTy, SymbolTy)>::empty());
}

/// The type of a member of a union is the union of the types that it has in the members, and of an
/// intersection what they have in common.
pub proof fn joined_members_join_their_types(db: DbTy, a: SymbolTy, b: SymbolTy)
    ensures
        collect::symbol_type(
            db,
            SymbolTy { origin: OriginTy::Union(seq![a, b]), substitutor: None },
        ) == db::union_ty(db::union_ty(Ty::Never, collect::symbol_type(db, a)), collect::symbol_type(db, b)),
        collect::symbol_type(
            db,
            SymbolTy { origin: OriginTy::Intersection(seq![a, b]), substitutor: None },
        ) == db::intersect_ty(collect::symbol_type(db, a), collect::symbol_type(db, b)),
{
    reveal_with_fuel(collect::symbol_type, 2);
    let types = collect::symbol_types(db, seq![a, b]);
    assert(types =~= seq![collect::symbol_type(db, a), collect::symbol_type(db, b)]);
    reveal_with_fuel(db::union_all_ty, 3);
    reveal_with_fuel(collect::intersect_all, 3);
    assert(types.drop_last() =~= seq![collect::symbol_type(db, a)]);
    assert(types.drop_last().drop_last() =~= Seq::<Ty>::empty());
}

/// A union has the members that all of its members have: of two objects with one field each, the
/// shared one, of either type.
pub proof fn union_has_shared_members(db: DbTy, a: KeyTy, b: KeyTy, s: Ty, t: Ty)
    requires
        !(a is TypeKey),
        !(b is TypeKey),
    ensures
        ({
            let x = Ty::Object(
                Box::new(ObjectTy { fields: seq![(a, s)], index_access: Seq::empty() }),
            );
            let y = Ty::Object(
                Box::new(ObjectTy { fields: seq![(b, t)], index_access: Seq::empty() }),
            );
            let either = collect::members_of_type(db, Ty::Union(Box::new(UnionTy::Multi(seq![x, y]))));
            let both = collect::members_of_type(db, Ty::Intersection(seq![x, y]));
            &&& a == b ==> either.len() == 1 && either[0].0 == a && collect::symbol_type(db, either[0].1)
                == db::union_ty(db::union_ty(Ty::Never, s), t)
            &&& a != b ==> either.len() == 0
            &&& a == b ==> both.len() == 1 && both[0].0 == a && collect::symbol_type(db, both[0].1)
                == db::intersect_ty(s, t)
            &&& a != b ==> both.len() == 2 && both[0].0 == a && collect::symbol_type(db, both[0].1) == s
                && both[1].0 == b && collect::symbol_type(db, both[1].1) == t
        }),
{
    let p = ObjectTy { fields: seq![(a, s)], index_access: Seq::empty() };
    let q = ObjectTy { fields: seq![(b, t)], index_access: Seq::empty() };
    let x = Ty::Object(Box::new(p));
    let y = Ty::Object(Box::new(q));
    lemma_object_members(db, p);
    lemma_object_members(db, q);
    let none = Seq::<Ty>::empty();
    let modules = db.modules.len();
    let sa = SymbolTy { origin: OriginTy::Type(s), substitutor: None };
    let sb = SymbolTy { origin: OriginTy::Type(t), substitutor: None };
    let ma = plain_members(p.fields);
    let mb = plain_members(q.fields);
    assert(ma =~= seq![(a, sa)]);
    assert(mb =~= seq![(b, sb)]);
    let types = seq![x, y];
    assert(types.drop_last() =~= seq![x]);
    assert(seq![x].drop_last() =~= none);
    assert(collect::collected(db, none, modules, x, None) == Some(ma));
    assert(collect::collected(db, none, modules, y, None) == Some(mb));
    assert(collect::collected_branches(db, none, modules, none, None) is None);
    let one = collect::joined(None, ma);
    assert(one =~= seq![(a, seq![sa])]);
    assert(collect::collected_branches(db, none, modules, seq![x], None) == Some(one));
    let two = collect::retained(one, mb);
    assert(collect::collected_branches(db, none, modules, types, None) == Some(two));
    reveal_with_fuel(collect::retained, 2);
    reveal_with_fuel(collect::find_member, 2);
    assert(one.drop_last() =~= Seq::<(KeyTy, Seq<SymbolTy>)>::empty());
    assert(mb.skip(1) =~= Seq::<(KeyTy, SymbolTy)>::empty());
    if a == b {
        assert(two =~= seq![(a, seq![sa].push(sb))]);
        assert(seq![sa].push(sb) =~= seq![sa, sb]);
    } else {
        assert(two =~= Seq::<(KeyTy, Seq<SymbolTy>)>::empty());
    }
    joined_members_join_their_types(db, sa, sb);
    let empty = Seq::<(KeyTy, Seq<SymbolTy>)>::empty();
    assert(collect::collected_parts(db, none, modules, none, None) == Some(empty));
    reveal_with_fuel(collect::grouped, 2);
    reveal_with_fuel(collect::find_group, 2);
    assert(ma.drop_last() =~= Seq::<(KeyTy, SymbolTy)>::empty());
    assert(mb.drop_last() =~= Seq::<(KeyTy, SymbolTy)>::empty());
    let first = collect::grouped(empty, ma);
    assert(first =~= seq![(a, seq![sa])]);
    assert(collect::collected_parts(db, none, modules, seq![x], None) == Some(first));
    let all = collect::grouped(first, mb);
    assert(collect::collected_parts(db, none, modules, types, None) == Some(all));
    assert(first.skip(1) =~= empty);
    if a == b {
        assert(all =~= seq![(a, seq![sa].push(sb))]);
    } else {
        assert(all =~= seq![(a, seq![sa]), (b, seq![sb])]);
        assert(collect::symbol_types(db, seq![sa]) =~= seq![s]);
        assert(collect::symbol_types(db, seq![sb]) =~= seq![t]);
    }
}

/// A class for which nothing was declared has no members.
pub proof fn lemma_memberless_class(db: DbTy, id: Seq<char>, decl: DeclTy)
    requires
        db::decl_of(db, id) == Some(decl),
        decl.kind is Class,
        decl.super_types.len() == 0,
        db::items_of(db, OwnerTy::Type(id)).len() == 0,
    ensures
        collect::members_of_type(db, Ty::Ref(id)).len() == 0,
{
    let items = db::items_of(db, OwnerTy::Type(id));
    let none = Seq::<Ty>::empty();
    let modules = db.modules.len();
    let members = Seq::<(KeyTy, SymbolTy)>::empty();
    assert(!equality::holds_ty(none, Ty::Ref(id)));
    assert(collect::item_members(db, items, None) == members);
    assert(collect::collected_supers(
        db,
        none.push(Ty::Ref(id)),
        modules,
        members,
        decl.super_types,
        None,
    ) == members);
    assert(collect::collected_declared(db, none, modules, id, None, None) == Some(members));
    assert(collect::collected(db, none, modules, Ty::Ref(id), None) == Some(members));
}

pub proof fn lemma_class_member_at(
    db: DbTy,
    id: Seq<char>,
    decl: DeclTy,
    items: Seq<ItemTy>,
    i: int,
)
    requires
        db::decl_of(db, id) == Some(decl),
        decl.kind is Class,
        decl.super_types.len() == 0,
        db::items_of(db, OwnerTy::Type(id)) == items,
        items_are_plain(items),
        0 <= i < items.len(),
        items[i].types.len() == 1,
    ensures
        collect::members_of_type(db, Ty::Ref(id)).len() == items.len(),
        collect::members_of_type(db, Ty::Ref(id))[i].0 == items[i].key,
        collect::symbol_type(db, collect::members_of_type(db, Ty::Ref(id))[i].1) == items[i].types[0],
{
    lemma_item_members(db, items);
    let none = Seq::<Ty>::empty();
    let modules = db.modules.len();
    let members = plain_items(items);
    assert(!equality::holds_ty(none, Ty::Ref(id)));
    assert(collect::collected_supers(
        db,
        none.push(Ty::Ref(id)),
        modules,
        members,
        decl.super_types,
        None,
    ) == members);
    assert(collect::collected_declared(db, none, modules, id, None, None) == Some(members));
    assert(collect::collected(db, none, modules, Ty::Ref(id), None) == Some(members));
}

} // verus!
