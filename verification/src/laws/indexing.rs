//! What is found under a key.

use vstd::prelude::*;

use crate::db;
use crate::db::{DbTy, DeclTy, ItemTy, OwnerTy};
use crate::infer::{keys, lookup, operator};
use crate::infer::lookup::LookupTy;
use crate::member::raw;
use crate::member::raw::InferFailReason;
use crate::type_check::{assignable, entries, normalize, relation, simple};
use crate::types::{ArrayTy, InFiled, KeyTy, LuaArrayLen, ObjectTy, TupleTy, Ty, UnionTy, complex};

verus! {

pub proof fn lemma_first_field(fields: Seq<(KeyTy, Ty)>, key: KeyTy, i: int)
    requires
        0 <= i < fields.len(),
        !(key is TypeKey),
        fields[i].0 == key,
        forall|j: int| 0 <= j < i ==> (#[trigger] fields[j]).0 != key,
    ensures
        complex::first_field(fields, key) == Some(fields[i].1),
    decreases i,
{
    if i > 0 {
        let rest = fields.skip(1);
        assert(fields[0].0 != key);
        assert forall|j: int| 0 <= j < i - 1 implies (#[trigger] rest[j]).0 != key by {
            assert(rest[j] == fields[j + 1]);
        }
        assert(rest[i - 1] == fields[i]);
        lemma_first_field(rest, key, i - 1);
    }
}

pub proof fn lemma_no_field(fields: Seq<(KeyTy, Ty)>, key: KeyTy)
    requires
        !(key is TypeKey),
        forall|j: int| 0 <= j < fields.len() ==> (#[trigger] fields[j]).0 != key,
    ensures
        complex::first_field(fields, key) is None,
    decreases fields.len(),
{
    if fields.len() > 0 {
        let rest = fields.skip(1);
        assert(fields[0].0 != key);
        assert forall|j: int| 0 <= j < rest.len() implies (#[trigger] rest[j]).0 != key by {
            assert(rest[j] == fields[j + 1]);
        }
        lemma_no_field(rest, key);
    }
}

proof fn lemma_fitting_index(db: DbTy, access: Ty, indexes: Seq<(Ty, Ty)>, i: int)
    requires
        0 <= i < indexes.len(),
        assignable::fits(db, access, indexes[i].0),
        forall|j: int| 0 <= j < i ==> !assignable::fits(db, access, (#[trigger] indexes[j]).0),
    ensures
        raw::fitting_index(db, access, indexes) == Some(indexes[i].1),
    decreases i,
{
    if i > 0 {
        let rest = indexes.skip(1);
        assert(!assignable::fits(db, access, indexes[0].0));
        assert forall|j: int| 0 <= j < i - 1 implies !assignable::fits(db, access, (#[trigger] rest[j]).0) by {
            assert(rest[j] == indexes[j + 1]);
        }
        assert(rest[i - 1] == indexes[i]);
        lemma_fitting_index(db, access, rest, i - 1);
    }
}

proof fn lemma_no_fitting_index(db: DbTy, access: Ty, indexes: Seq<(Ty, Ty)>)
    requires
        forall|j: int| 0 <= j < indexes.len() ==> !assignable::fits(db, access, (#[trigger] indexes[j]).0),
    ensures
        raw::fitting_index(db, access, indexes) is None,
    decreases indexes.len(),
{
    if indexes.len() > 0 {
        let rest = indexes.skip(1);
        assert(!assignable::fits(db, access, indexes[0].0));
        assert forall|j: int| 0 <= j < rest.len() implies !assignable::fits(db, access, (#[trigger] rest[j]).0) by {
            assert(rest[j] == indexes[j + 1]);
        }
        lemma_no_fitting_index(db, access, rest);
    }
}

pub proof fn lemma_item_found(items: Seq<ItemTy>, key: KeyTy, i: int)
    requires
        0 <= i < items.len(),
        !(key is TypeKey),
        items[i].key == key,
        forall|j: int| 0 <= j < i ==> (#[trigger] items[j]).key != key,
    ensures
        db::find_item(items, key) == Some(items[i]),
    decreases i,
{
    if i > 0 {
        let rest = items.skip(1);
        assert(items[0].key != key);
        assert forall|j: int| 0 <= j < i - 1 implies (#[trigger] rest[j]).key != key by {
            assert(rest[j] == items[j + 1]);
        }
        assert(rest[i - 1] == items[i]);
        lemma_item_found(rest, key, i - 1);
    }
}

pub proof fn lemma_no_item(items: Seq<ItemTy>, key: KeyTy)
    requires
        !(key is TypeKey),
        forall|j: int| 0 <= j < items.len() ==> (#[trigger] items[j]).key != key,
    ensures
        db::find_item(items, key) is None,
    decreases items.len(),
{
    if items.len() > 0 {
        let rest = items.skip(1);
        assert(items[0].key != key);
        assert forall|j: int| 0 <= j < rest.len() implies (#[trigger] rest[j]).key != key by {
            assert(rest[j] == items[j + 1]);
        }
        lemma_no_item(rest, key);
    }
}

/// The declaration listed under a name.
pub proof fn declaration_is_found_under_its_name(db: DbTy, i: int)
    requires
        0 <= i < db.type_decls.len(),
        forall|j: int| 0 <= j < i ==> (#[trigger] db.type_decls[j]).0 != db.type_decls[i].0,
    ensures
        db::decl_of(db, db.type_decls[i].0) == Some(db.type_decls[i].1),
{
    lemma_value_at(db.type_decls, i);
}

/// The first value under a key is the one that is found.
pub proof fn lemma_value_at<K, V>(pairs: Seq<(K, V)>, i: int)
    requires
        0 <= i < pairs.len(),
        forall|j: int| 0 <= j < i ==> (#[trigger] pairs[j]).0 != pairs[i].0,
    ensures
        db::first_value(pairs, pairs[i].0) == Some(pairs[i].1),
    decreases i,
{
    if i > 0 {
        let rest = pairs.skip(1);
        assert(pairs[0].0 != pairs[i].0);
        assert(rest[i - 1] == pairs[i]);
        assert forall|j: int| 0 <= j < i - 1 implies (#[trigger] rest[j]).0 != rest[i - 1].0 by {
            assert(rest[j] == pairs[j + 1]);
        }
        lemma_value_at(rest, i - 1);
    }
}

/// The keys that literals are: a text is a name, an integer a number, and any other type is a whole
/// kind of keys.
pub proof fn literal_is_its_own_key(s: Seq<char>, i: i64)
    ensures
        keys::key_from_type(Ty::StringConst(s)) == KeyTy::Name(s),
        keys::key_from_type(Ty::DocStringConst(s)) == KeyTy::Name(s),
        keys::key_from_type(Ty::IntegerConst(i)) == KeyTy::Integer(i),
        keys::key_from_type(Ty::DocIntegerConst(i)) == KeyTy::Integer(i),
        keys::key_from_type(Ty::String) == KeyTy::TypeKey(Box::new(Ty::String)),
        keys::key_from_type(Ty::Integer) == KeyTy::TypeKey(Box::new(Ty::Integer)),
        normalize::literal_key(Ty::StringConst(s)) == Some(KeyTy::Name(s)),
        normalize::literal_key(Ty::DocStringConst(s)) == Some(KeyTy::Name(s)),
        normalize::literal_key(Ty::IntegerConst(i)) == Some(KeyTy::Integer(i)),
        normalize::literal_key(Ty::DocIntegerConst(i)) == Some(KeyTy::Integer(i)),
        normalize::literal_key(Ty::String) is None,
        normalize::literal_key(Ty::Integer) is None,
        entries::key_type(KeyTy::Name(s)) == Some(Ty::StringConst(s)),
        entries::key_type(KeyTy::Integer(i)) == Some(Ty::IntegerConst(i)),
{
}

/// A table of keys and values yields the values under every key that fits the keys, and nothing under
/// another one.
pub proof fn table_yields_its_values(db: DbTy, keys: Ty, values: Ty, q: LookupTy, key: KeyTy)
    ensures
        assignable::fits(db, q.key_type, keys) ==> operator::member_or_index(db, Ty::TableGeneric(seq![keys, values]), q)
            == Ok::<Ty, InferFailReason>(values),
        !assignable::fits(db, q.key_type, keys) ==> operator::member_or_index(db, Ty::TableGeneric(seq![keys, values]), q)
            == Err::<Ty, InferFailReason>(InferFailReason::FieldNotFound),
        entries::key_type(key) is Some && assignable::fits(db, entries::key_type(key).unwrap(), keys) ==> raw::raw_type(
            db,
            Ty::TableGeneric(seq![keys, values]),
            key,
        ) == Ok::<Ty, InferFailReason>(values),
        entries::key_type(key) is Some && !assignable::fits(db, entries::key_type(key).unwrap(), keys) ==> raw::raw_type(
            db,
            Ty::TableGeneric(seq![keys, values]),
            key,
        ) == Err::<Ty, InferFailReason>(InferFailReason::FieldNotFound),
{
}

/// An object yields the field under its name.
pub proof fn object_yields_its_field(db: DbTy, o: ObjectTy, i: int, q: LookupTy)
    requires
        0 <= i < o.fields.len(),
        q.key == o.fields[i].0,
        !(q.key is TypeKey),
        forall|j: int| 0 <= j < i ==> (#[trigger] o.fields[j]).0 != q.key,
    ensures
        operator::member_or_index(db, Ty::Object(Box::new(o)), q) == Ok::<Ty, InferFailReason>(o.fields[i].1),
        raw::raw_type(db, Ty::Object(Box::new(o)), q.key) == Ok::<Ty, InferFailReason>(o.fields[i].1),
{
    lemma_first_field(o.fields, q.key, i);
}

/// Under a key without a field, an object yields the value of the first index that the key fits, and
/// nothing where it fits none.
pub proof fn object_yields_by_index(db: DbTy, o: ObjectTy, i: int, q: LookupTy)
    requires
        !(q.key is TypeKey),
        q.key == keys::key_from_type(q.key_type),
        forall|j: int| 0 <= j < o.fields.len() ==> (#[trigger] o.fields[j]).0 != q.key,
    ensures
        0 <= i < o.index_access.len() && assignable::fits(db, q.key_type, o.index_access[i].0) && (forall|j: int|
            0 <= j < i ==> !assignable::fits(db, q.key_type, (#[trigger] o.index_access[j]).0))
            ==> operator::member_or_index(db, Ty::Object(Box::new(o)), q) == Ok::<Ty, InferFailReason>(
            o.index_access[i].1,
        ),
        (forall|j: int|
            0 <= j < o.index_access.len() ==> !assignable::fits(db, q.key_type, (#[trigger] o.index_access[j]).0))
            ==> operator::member_or_index(db, Ty::Object(Box::new(o)), q) == Err::<Ty, InferFailReason>(
            InferFailReason::FieldNotFound,
        ),
{
    lemma_no_field(o.fields, q.key);
    if 0 <= i < o.index_access.len() && assignable::fits(db, q.key_type, o.index_access[i].0) && (forall|j: int|
        0 <= j < i ==> !assignable::fits(db, q.key_type, (#[trigger] o.index_access[j]).0)) {
        lemma_fitting_index(db, q.key_type, o.index_access, i);
    }
    if forall|j: int|
        0 <= j < o.index_access.len() ==> !assignable::fits(db, q.key_type, (#[trigger] o.index_access[j]).0) {
        lemma_no_fitting_index(db, q.key_type, o.index_access);
    }
}

/// A tuple yields the element at a place, and nothing behind its last element.
pub proof fn tuple_yields_by_place(db: DbTy, x: TupleTy, q: LookupTy, i: i64)
    requires
        q.key == KeyTy::Integer(i),
        0 < i <= usize::MAX,
        x.types.len() > 0,
        !(x.types[x.types.len() - 1] is Variadic),
    ensures
        i <= x.types.len() ==> lookup::looked_up(db, Ty::Tuple(Box::new(x)), q) == Ok::<
            Ty,
            InferFailReason,
        >(x.types[i - 1]),
        i <= x.types.len() ==> raw::raw_type(db, Ty::Tuple(Box::new(x)), q.key) == Ok::<
            Ty,
            InferFailReason,
        >(x.types[i - 1]),
        i > x.types.len() ==> lookup::looked_up(db, Ty::Tuple(Box::new(x)), q) == Err::<
            Ty,
            InferFailReason,
        >(InferFailReason::FieldNotFound),
{
}

/// An array yields its element type where the place is known to lie within; elsewhere the element may
/// be missing, where indexes are strict.
pub proof fn array_yields_its_element(db: DbTy, base: Ty, n: i64, i: i64, q: LookupTy)
    requires
        q.key == KeyTy::Integer(i),
        !q.is_table_field,
        !(base is Any),
        !(base is Unknown),
    ensures
        0 < i <= n ==> lookup::looked_up(
            db,
            Ty::Array(Box::new(ArrayTy { base, len: LuaArrayLen::Max(n) })),
            q,
        ) == Ok::<Ty, InferFailReason>(base),
        !db.strict_array_index ==> lookup::looked_up(
            db,
            Ty::Array(Box::new(ArrayTy { base, len: LuaArrayLen::Unbounded })),
            q,
        ) == Ok::<Ty, InferFailReason>(base),
        db.strict_array_index ==> lookup::looked_up(
            db,
            Ty::Array(Box::new(ArrayTy { base, len: LuaArrayLen::Unbounded })),
            q,
        ) == Ok::<Ty, InferFailReason>(db::union_ty(base, Ty::Nil)),
        db.strict_array_index && (i <= 0 || i > n) ==> lookup::looked_up(
            db,
            Ty::Array(Box::new(ArrayTy { base, len: LuaArrayLen::Max(n) })),
            q,
        ) == Ok::<Ty, InferFailReason>(db::union_ty(base, Ty::Nil)),
{
}

/// An integer that is not known yields the element of an array, which is there in a loop over it; a
/// name yields nothing.
pub proof fn array_yields_under_any_integer(db: DbTy, a: ArrayTy, q: LookupTy, name: Seq<char>)
    requires
        !q.is_table_field,
        !(a.base is Any),
        !(a.base is Unknown),
    ensures
        q.key_type is Integer && q.key == KeyTy::TypeKey(Box::new(Ty::Integer)) ==> {
            &&& q.is_key_expr && q.in_range ==> lookup::looked_up(db, Ty::Array(Box::new(a)), q) == Ok::<
                Ty,
                InferFailReason,
            >(a.base)
            &&& !q.in_range && db.strict_array_index ==> lookup::looked_up(db, Ty::Array(Box::new(a)), q)
                == Ok::<Ty, InferFailReason>(db::union_ty(a.base, Ty::Nil))
            &&& !q.in_range && !db.strict_array_index ==> lookup::looked_up(db, Ty::Array(Box::new(a)), q)
                == Ok::<Ty, InferFailReason>(a.base)
        },
        q.key_type == Ty::StringConst(name) && q.key == KeyTy::Name(name) ==> lookup::looked_up(
            db,
            Ty::Array(Box::new(a)),
            q,
        ) == Err::<Ty, InferFailReason>(InferFailReason::FieldNotFound),
{
    reveal(assignable::fits);
    reveal(simple::simple_answer);
    reveal_with_fuel(relation::rel_types, 2);
}

/// A class yields its own member, whatever its super types have.
pub proof fn class_yields_its_own_member(
    db: DbTy,
    id: Seq<char>,
    decl: DeclTy,
    items: Seq<ItemTy>,
    i: int,
    q: LookupTy,
)
    requires
        db::decl_of(db, id) == Some(decl),
        decl.kind is Class,
        db::items_of(db, OwnerTy::Type(id)) == items,
        0 <= i < items.len(),
        items[i].key == q.key,
        !(q.key is TypeKey),
        forall|j: int| 0 <= j < i ==> (#[trigger] items[j]).key != q.key,
        items[i].types.len() == 1,
    ensures
        operator::member_or_index(db, Ty::Ref(id), q) == Ok::<Ty, InferFailReason>(items[i].types[0]),
        operator::member_or_index(db, Ty::Def(id), q) == Ok::<Ty, InferFailReason>(items[i].types[0]),
        raw::raw_type(db, Ty::Ref(id), q.key) == Ok::<Ty, InferFailReason>(items[i].types[0]),
{
    lemma_item_found(items, q.key, i);
    reveal_with_fuel(lookup::look_member, 2);
    reveal_with_fuel(lookup::look_inside, 2);
    reveal_with_fuel(lookup::look_declared, 2);
    reveal_with_fuel(raw::raw_member, 2);
    reveal_with_fuel(raw::raw_inside, 2);
    reveal_with_fuel(raw::raw_declared, 2);
}

/// A class yields what its super type has, where it has no member of its own.
pub proof fn class_yields_what_it_inherits(
    db: DbTy,
    sub: Seq<char>,
    base: Seq<char>,
    decl: DeclTy,
    base_decl: DeclTy,
    items: Seq<ItemTy>,
    i: int,
    q: LookupTy,
)
    requires
        sub != base,
        db::decl_of(db, sub) == Some(decl),
        db::decl_of(db, base) == Some(base_decl),
        decl.kind is Class,
        base_decl.kind is Class,
        decl.super_types.len() > 0,
        decl.super_types[0] == Ty::Ref(base),
        q.key is Name,
        forall|j: int|
            0 <= j < db::items_of(db, OwnerTy::Type(sub)).len() ==> (#[trigger] db::items_of(
                db,
                OwnerTy::Type(sub),
            )[j]).key != q.key,
        db::items_of(db, OwnerTy::Type(base)) == items,
        0 <= i < items.len(),
        items[i].key == q.key,
        forall|j: int| 0 <= j < i ==> (#[trigger] items[j]).key != q.key,
        items[i].types.len() == 1,
    ensures
        operator::member_or_index(db, Ty::Ref(sub), q) == Ok::<Ty, InferFailReason>(items[i].types[0]),
{
    lemma_no_item(db::items_of(db, OwnerTy::Type(sub)), q.key);
    lemma_item_found(items, q.key, i);
    let limit = lookup::look_limit();
    let room = (limit - 1) as nat;
    let lower = (room - 1) as nat;
    let none = Seq::<Seq<char>>::empty();
    let seen = none.push(sub);
    let wanted = Ok::<Ty, InferFailReason>(items[i].types[0]);
    assert(!seen.contains(base)) by {
        assert(seen[0] == sub);
    }
    assert(lookup::look_declared(db, base, q, seen, lower) == wanted);
    assert(lookup::look_inside(db, Ty::Ref(base), q, seen, lower) == wanted);
    assert(lookup::look_member(db, Ty::Ref(base), q, seen, room) == wanted);
    assert(lookup::look_inherited(db, decl.super_types, 0, q, seen, room) == wanted);
    assert(!none.contains(sub));
    assert(lookup::look_declared(db, sub, q, none, room) == wanted);
    assert(lookup::look_inside(db, Ty::Ref(sub), q, none, room) == wanted);
    assert(lookup::look_member(db, Ty::Ref(sub), q, none, limit) == wanted);
}

/// A table literal yields the member that was written under a name, and nothing under another one.
pub proof fn table_literal_yields_its_member(
    db: DbTy,
    range: InFiled,
    items: Seq<ItemTy>,
    i: int,
    q: LookupTy,
)
    requires
        db::items_of(db, OwnerTy::Element(range)) == items,
        q.key is Name,
    ensures
        0 <= i < items.len() && items[i].key == q.key && items[i].types.len() == 1 && (forall|j: int|
            0 <= j < i ==> (#[trigger] items[j]).key != q.key) ==> lookup::looked_up(
            db,
            Ty::TableConst(range),
            q,
        ) == Ok::<Ty, InferFailReason>(items[i].types[0]),
        (forall|j: int| 0 <= j < items.len() ==> (#[trigger] items[j]).key != q.key) ==> lookup::looked_up(
            db,
            Ty::TableConst(range),
            q,
        ) == Err::<Ty, InferFailReason>(InferFailReason::FieldNotFound),
{
    if 0 <= i < items.len() && items[i].key == q.key && (forall|j: int|
        0 <= j < i ==> (#[trigger] items[j]).key != q.key) {
        lemma_item_found(items, q.key, i);
    }
    if forall|j: int| 0 <= j < items.len() ==> (#[trigger] items[j]).key != q.key {
        lemma_no_item(items, q.key);
    }
}

/// Where the members of a union both have a member, the union yields either; where one has none, the
/// other or nil; where none has one, nothing is found.
pub proof fn union_yields_what_its_members_yield(
    db: DbTy,
    a: ObjectTy,
    b: ObjectTy,
    q: LookupTy,
)
    ensures
        ({
            let x = lookup::looked_up(db, Ty::Object(Box::new(a)), q);
            let y = lookup::looked_up(db, Ty::Object(Box::new(b)), q);
            let both = lookup::looked_up(
                db,
                Ty::Union(
                    Box::new(
                        UnionTy::Multi(seq![Ty::Object(Box::new(a)), Ty::Object(Box::new(b))]),
                    ),
                ),
                q,
            );
            &&& x is Ok && y is Ok ==> both == Ok::<Ty, InferFailReason>(
                db::union_ty(db::union_ty(Ty::Never, x->Ok_0), y->Ok_0),
            )
            &&& x is Ok && y is Err ==> both == Ok::<Ty, InferFailReason>(
                db::union_ty(db::union_ty(Ty::Never, x->Ok_0), Ty::Nil),
            )
            &&& x is Err && y is Ok ==> both == Ok::<Ty, InferFailReason>(
                db::union_ty(db::union_ty(Ty::Never, y->Ok_0), Ty::Nil),
            )
            &&& x is Err && y is Err ==> both == Err::<Ty, InferFailReason>(
                InferFailReason::FieldNotFound,
            )
        }),
{
    let s = Ty::Object(Box::new(a));
    let t = Ty::Object(Box::new(b));
    let u = Ty::Union(Box::new(UnionTy::Multi(seq![s, t])));
    let none = Seq::<Seq<char>>::empty();
    let limit = lookup::look_limit();
    let room = (limit - 1) as nat;
    let x = lookup::looked_up(db, s, q);
    let y = lookup::looked_up(db, t, q);
    assert(lookup::look_member(db, s, q, none, room) == x);
    assert(lookup::look_member(db, t, q, none, room) == y);
    assert(lookup::look_member(db, u, q, none, limit) == lookup::look_inside(db, u, q, none, room));
    assert(lookup::look_inside(db, u, q, none, room) == lookup::look_union(
        db,
        seq![s, t],
        q,
        none,
        room,
    ));
    lemma_two_members(db, s, t, q, room);
    reveal_with_fuel(db::union_all_ty, 4);
    if x is Ok {
        let one = Seq::<Ty>::empty().push(x->Ok_0);
        assert(one.drop_last() =~= Seq::<Ty>::empty());
        assert(one.push(Ty::Nil).drop_last() =~= one);
        if y is Ok {
            assert(one.push(y->Ok_0).drop_last() =~= one);
        }
    } else if y is Ok {
        let one = Seq::<Ty>::empty().push(y->Ok_0);
        assert(one.drop_last() =~= Seq::<Ty>::empty());
        assert(one.push(Ty::Nil).drop_last() =~= one);
    }
}

proof fn lemma_two_members(db: DbTy, s: Ty, t: Ty, q: LookupTy, room: nat)
    requires
        s is Object,
        t is Object,
    ensures
        ({
            let none = Seq::<Seq<char>>::empty();
            let x = lookup::look_member(db, s, q, none, room);
            let y = lookup::look_member(db, t, q, none, room);
            let (found, missing) = lookup::look_members(
                db,
                seq![s, t],
                0,
                Seq::empty(),
                false,
                false,
                q,
                none,
                room,
            );
            &&& missing == (x is Err || y is Err)
            &&& found == (match (x, y) {
                (Ok(a), Ok(b)) => Seq::<Ty>::empty().push(a).push(b),
                (Ok(a), Err(_)) => Seq::<Ty>::empty().push(a),
                (Err(_), Ok(b)) => Seq::<Ty>::empty().push(b),
                (Err(_), Err(_)) => Seq::<Ty>::empty(),
            })
        }),
{
    let none = Seq::<Seq<char>>::empty();
    let types = seq![s, t];
    assert forall|found: Seq<Ty>, missing: bool| #[trigger]
        lookup::look_members(db, types, 2, found, missing, false, q, none, room) == (
            found,
            missing,
        ) by {}
    assert(types[0] == s && types[1] == t);
    assert forall|found: Seq<Ty>, missing: bool| #[trigger]
        lookup::look_members(db, types, 1, found, missing, false, q, none, room) == (
            match lookup::look_member(db, t, q, none, room) {
                Ok(b) => (found.push(b), missing),
                Err(_) => (found, true),
            }
        ) by {
        match lookup::look_member(db, t, q, none, room) {
            Ok(b) => {
                assert(lookup::look_members(db, types, 2, found.push(b), missing, false, q, none, room) == (
                    found.push(b),
                    missing,
                ));
            },
            Err(_) => {
                assert(lookup::look_members(db, types, 2, found, true, false, q, none, room) == (
                    found,
                    true,
                ));
            },
        }
    }
    match lookup::look_member(db, s, q, none, room) {
        Ok(a) => {
            let one = Seq::<Ty>::empty().push(a);
            let last = lookup::look_members(db, types, 1, one, false, false, q, none, room);
            assert(lookup::look_members(db, types, 0, Seq::empty(), false, false, q, none, room)
                == last);
        },
        Err(_) => {
            let last = lookup::look_members(
                db,
                types,
                1,
                Seq::empty(),
                true,
                false,
                q,
                none,
                room,
            );
            assert(lookup::look_members(db, types, 0, Seq::empty(), false, false, q, none, room)
                == last);
        },
    }
}

/// An alias yields what the type behind it yields.
pub proof fn alias_yields_what_it_stands_for(
    db: DbTy,
    id: Seq<char>,
    decl: DeclTy,
    origin: ObjectTy,
    q: LookupTy,
)
    requires
        db::decl_of(db, id) == Some(decl),
        decl.kind is Alias,
        decl.alias_ref == Some(Ty::Object(Box::new(origin))),
    ensures
        lookup::looked_up(db, Ty::Ref(id), q) == lookup::looked_up(db, Ty::Object(Box::new(origin)), q),
        raw::raw_type(db, Ty::Ref(id), q.key) == raw::raw_type(db, Ty::Object(Box::new(origin)), q.key),
{
    reveal_with_fuel(lookup::look_member, 3);
    reveal_with_fuel(lookup::look_inside, 2);
    reveal_with_fuel(lookup::look_declared, 2);
    reveal_with_fuel(raw::raw_member, 3);
    reveal_with_fuel(raw::raw_inside, 2);
    reveal_with_fuel(raw::raw_declared, 2);
}

/// A global variable is found by its name.
pub proof fn global_is_found_by_name(db: DbTy, i: int, t: Ty, q: LookupTy)
    requires
        0 <= i < db.globals.len(),
        db.globals[i].1 == Some(t),
        q.key == KeyTy::Name(db.globals[i].0),
        forall|j: int| 0 <= j < i ==> (#[trigger] db.globals[j]).0 != db.globals[i].0,
    ensures
        lookup::looked_up(db, Ty::Global, q) == Ok::<Ty, InferFailReason>(t),
{
    lemma_value_at(db.globals, i);
}

/// Under a key that nothing is known of, tables yield anything, and nil yields nothing at all.
pub proof fn open_types_yield_anything(db: DbTy, q: LookupTy)
    ensures
        lookup::looked_up(db, Ty::Any, q) == Ok::<Ty, InferFailReason>(Ty::Any),
        lookup::looked_up(db, Ty::Table, q) == Ok::<Ty, InferFailReason>(Ty::Any),
        lookup::looked_up(db, Ty::Unknown, q) == Ok::<Ty, InferFailReason>(Ty::Any),
        lookup::looked_up(db, Ty::Nil, q) == Ok::<Ty, InferFailReason>(Ty::Never),
{
}

/// A class with an operator for indexing yields its result under a key that fits its operand and that
/// names no member.
pub proof fn class_yields_by_its_operator(
    db: DbTy,
    id: Seq<char>,
    decl: DeclTy,
    i: int,
    key: Ty,
)
    requires
        db::decl_of(db, id) == Some(decl),
        decl.kind is Class,
        0 <= i < decl.index_operators.len(),
        assignable::fits(db, key, decl.index_operators[i].0),
        forall|j: int| 0 <= j < i ==> !assignable::fits(db, key, (#[trigger] decl.index_operators[j]).0),
    ensures
        operator::operate(db, Ty::Ref(id), key, Seq::empty(), lookup::look_limit()) == Ok::<Ty, InferFailReason>(
            decl.index_operators[i].1,
        ),
{
    lemma_fitting_index(db, key, decl.index_operators, i);
    reveal_with_fuel(operator::operate, 2);
    reveal_with_fuel(operator::operate_inside, 2);
    reveal_with_fuel(operator::operate_declared, 2);
}

/// A member that is declared several times is of one of the types of its declarations.
pub proof fn declared_types_of_a_member_are_joined(item: ItemTy)
    ensures
        item.types.len() == 0 ==> db::item_type(item) is None,
        item.types.len() == 1 ==> db::item_type(item) == Some(item.types[0]),
        item.types.len() == 2 ==> db::item_type(item) == Some(
            db::union_ty(db::union_ty(Ty::Never, item.types[0]), item.types[1]),
        ),
{
    reveal_with_fuel(db::union_all_ty, 3);
    if item.types.len() == 2 {
        assert(item.types.drop_last().drop_last() =~= Seq::<Ty>::empty());
    }
}

} // verus!
