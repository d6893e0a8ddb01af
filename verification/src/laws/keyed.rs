//! What is found under whole types of keys, and in types made of others.

use vstd::prelude::*;

use crate::db;
use crate::db::{DbTy, DeclTy, ItemTy, OwnerTy};
use crate::infer::{keys, lookup, operator};
use crate::infer::lookup::LookupTy;
use crate::laws::{fitting, indexing, joining};
use crate::member::raw::InferFailReason;
use crate::type_check::assignable;
use crate::type_check::structured::dispatch;
use crate::types::{
    FileId, GenericTy, InFiled, InstanceTy, KeyTy, LuaTupleStatus, ObjectTy, TplTy, TupleTy, Ty,
    UnionTy, predicates,
};

verus! {

proof fn lemma_one_key(key: KeyTy)
    ensures
        keys::add_key(Seq::empty(), key) == seq![key],
{
    assert(!keys::holds_key(Seq::<KeyTy>::empty(), key));
    assert(keys::add_key(Seq::empty(), key) =~= seq![key]);
}

/// A literal stands for one key, a choice of literals for one key each, and a whole basic type for
/// none that can be listed.
pub proof fn keys_that_a_type_stands_for(db: DbTy, s: Seq<char>, i: i64)
    ensures
        keys::type_keys(db, Ty::StringConst(s)) == seq![KeyTy::Name(s)],
        keys::type_keys(db, Ty::DocStringConst(s)) == seq![KeyTy::Name(s)],
        keys::type_keys(db, Ty::IntegerConst(i)) == seq![KeyTy::Integer(i)],
        keys::type_keys(db, Ty::DocIntegerConst(i)) == seq![KeyTy::Integer(i)],
        keys::type_keys(db, Ty::String).len() == 0,
        keys::type_keys(db, Ty::Integer).len() == 0,
        keys::type_keys(
            db,
            Ty::Union(
                Box::new(
                    UnionTy::Multi(seq![Ty::DocStringConst(s), Ty::DocIntegerConst(i)]),
                ),
            ),
        ) == seq![KeyTy::Name(s), KeyTy::Integer(i)],
{
    lemma_one_key(KeyTy::Name(s));
    lemma_one_key(KeyTy::Integer(i));
    let a = Ty::DocStringConst(s);
    let b = Ty::DocIntegerConst(i);
    let types = seq![a, b];
    let room = db.type_decls.len();
    let none = Seq::<KeyTy>::empty();
    assert(types.drop_last() =~= seq![a]);
    assert(seq![a].drop_last() =~= Seq::<Ty>::empty());
    assert(keys::keys_of_types(db, Seq::<Ty>::empty(), none, room) == none);
    assert(keys::keys_of_type(db, a, none, room) == seq![KeyTy::Name(s)]);
    assert(keys::keys_of_types(db, seq![a], none, room) == seq![KeyTy::Name(s)]);
    let one = seq![KeyTy::Name(s)];
    assert(!keys::holds_key(one, KeyTy::Integer(i)));
    assert(keys::keys_of_type(db, b, one, room) == one.push(KeyTy::Integer(i)));
    assert(types.last() == b);
    assert(keys::keys_of_types(db, types, none, room) == one.push(KeyTy::Integer(i)));
    let u = Ty::Union(Box::new(UnionTy::Multi(types)));
    assert(keys::keys_of_type(db, u, none, room) == keys::keys_of_types(db, types, none, room));
    assert(one.push(KeyTy::Integer(i)) =~= seq![KeyTy::Name(s), KeyTy::Integer(i)]);
}

/// An alias stands for the keys of the type behind it, and an enumeration for its values, or for its
/// names where it is one of names.
pub proof fn keys_that_a_declared_type_stands_for(
    db: DbTy,
    id: Seq<char>,
    decl: DeclTy,
    s: Seq<char>,
    name: KeyTy,
)
    requires
        db::decl_of(db, id) == Some(decl),
        db.type_decls.len() > 0,
    ensures
        decl.kind is Alias && decl.alias_ref == Some(Ty::DocStringConst(s)) ==> keys::type_keys(
            db,
            Ty::Ref(id),
        ) == seq![KeyTy::Name(s)],
        decl.kind is Enum && db::items_of(db, OwnerTy::Type(id)) == seq![
            ItemTy { key: name, types: seq![Ty::StringConst(s)] },
        ] ==> {
            &&& decl.is_enum_key ==> keys::type_keys(db, Ty::Ref(id)) == seq![name]
            &&& !decl.is_enum_key ==> keys::type_keys(db, Ty::Ref(id)) == seq![KeyTy::Name(s)]
        },
{
    lemma_one_key(KeyTy::Name(s));
    lemma_one_key(name);
    let room = db.type_decls.len();
    let none = Seq::<KeyTy>::empty();
    if decl.kind is Alias && decl.alias_ref == Some(Ty::DocStringConst(s)) {
        assert(keys::keys_of_type(db, Ty::DocStringConst(s), none, (room - 1) as nat) == seq![
            KeyTy::Name(s),
        ]);
        assert(keys::keys_of_type(db, Ty::Ref(id), none, room) == seq![KeyTy::Name(s)]);
    }
    let item = ItemTy { key: name, types: seq![Ty::StringConst(s)] };
    let items = seq![item];
    assert(items.drop_last() =~= Seq::<ItemTy>::empty());
    reveal_with_fuel(keys::add_enum_keys, 2);
    reveal_with_fuel(keys::add_literals, 2);
    assert(item.types.drop_last() =~= Seq::<Ty>::empty());
    assert(item.types.last() == Ty::StringConst(s));
    assert(keys::add_literals(none, item.types) == seq![KeyTy::Name(s)]);
    assert(keys::add_enum_keys(none, items, true) == seq![name]);
    assert(keys::add_enum_keys(none, items, false) == seq![KeyTy::Name(s)]);
}

/// Under a type that stands for one key, there is what is under that key.
pub proof fn type_of_one_key_finds_its_member(
    db: DbTy,
    items: Seq<ItemTy>,
    i: int,
    s: Seq<char>,
)
    requires
        0 <= i < items.len(),
        items[i].key == KeyTy::Name(s),
        items[i].types.len() == 1,
        forall|j: int| 0 <= j < i ==> (#[trigger] items[j]).key != KeyTy::Name(s),
    ensures
        keys::type_under_keys(db, items, Ty::DocStringConst(s)) == Some(items[i].types[0]),
        keys::type_under_keys(db, items, Ty::String) is None,
{
    keys_that_a_type_stands_for(db, s, 0);
    indexing::lemma_item_found(items, KeyTy::Name(s), i);
    let keys = seq![KeyTy::Name(s)];
    reveal_with_fuel(keys::types_under, 2);
    assert(keys.drop_last() =~= Seq::<KeyTy>::empty());
    assert(keys::types_under(items, keys) =~= seq![items[i].types[0]]);
    assert(keys::types_under(items, keys::type_keys(db, Ty::String)) =~= Seq::<Ty>::empty());
}

/// Under any text, there is what is under a name, or nothing.
pub proof fn any_text_finds_members_or_nil(db: DbTy, s: Seq<char>, i: i64, t: Ty)
    ensures
        keys::type_fitting(
            db,
            seq![ItemTy { key: KeyTy::Name(s), types: seq![t] }],
            Ty::String,
        ) == Some(predicates::ty_from_list(seq![t, Ty::Nil])),
        keys::type_fitting(
            db,
            seq![ItemTy { key: KeyTy::Name(s), types: seq![t] }],
            Ty::Integer,
        ) is None,
        keys::type_fitting(
            db,
            seq![ItemTy { key: KeyTy::Integer(i), types: seq![t] }],
            Ty::Integer,
        ) == Some(predicates::ty_from_list(seq![t, Ty::Nil])),
{
    let none = assignable::nothing_kept();
    fitting::value_fits_at_a_glance(db, none, Ty::StringConst(s), Ty::String, false);
    fitting::value_fits_at_a_glance(db, none, Ty::StringConst(s), Ty::Integer, false);
    fitting::value_fits_at_a_glance(db, none, Ty::IntegerConst(i), Ty::Integer, false);
    let x = seq![ItemTy { key: KeyTy::Name(s), types: seq![t] }];
    let y = seq![ItemTy { key: KeyTy::Integer(i), types: seq![t] }];
    reveal_with_fuel(keys::types_fitting, 2);
    assert(x.drop_last() =~= Seq::<ItemTy>::empty());
    assert(y.drop_last() =~= Seq::<ItemTy>::empty());
    assert(Seq::<Ty>::empty() + seq![t] =~= seq![t]);
    assert(keys::types_fitting(db, x, Ty::String) =~= seq![t]);
    assert(keys::types_fitting(db, x, Ty::Integer) =~= Seq::<Ty>::empty());
    assert(keys::types_fitting(db, y, Ty::Integer) =~= seq![t]);
    assert(seq![t].push(Ty::Nil) =~= seq![t, Ty::Nil]);
}

/// An intersection yields what both parts yield in common, or what the one yields that has it.
pub proof fn intersection_yields_what_its_parts_yield(
    db: DbTy,
    a: ObjectTy,
    b: ObjectTy,
    q: LookupTy,
)
    ensures
        ({
            let x = lookup::looked_up(db, Ty::Object(Box::new(a)), q);
            let y = lookup::looked_up(db, Ty::Object(Box::new(b)), q);
            let both = lookup::looked_up(
                db,
                Ty::Intersection(seq![Ty::Object(Box::new(a)), Ty::Object(Box::new(b))]),
                q,
            );
            &&& x is Ok && y is Ok && !(x->Ok_0 is Never) ==> both == Ok::<Ty, InferFailReason>(
                db::intersect_ty(x->Ok_0, y->Ok_0),
            )
            &&& x is Ok && y is Err ==> both == x
            &&& x is Err && y is Ok ==> both == y
            &&& x is Err && y is Err ==> both == Err::<Ty, InferFailReason>(
                InferFailReason::FieldNotFound,
            )
        }),
{
    let s = Ty::Object(Box::new(a));
    let t = Ty::Object(Box::new(b));
    let types = seq![s, t];
    let whole = Ty::Intersection(types);
    let none = Seq::<Seq<char>>::empty();
    let limit = lookup::look_limit();
    let room = (limit - 1) as nat;
    let x = lookup::looked_up(db, s, q);
    let y = lookup::looked_up(db, t, q);
    assert(lookup::look_member(db, s, q, none, room) == x);
    assert(lookup::look_member(db, t, q, none, room) == y);
    assert(x is Err ==> x == Err::<Ty, InferFailReason>(InferFailReason::FieldNotFound));
    assert(y is Err ==> y == Err::<Ty, InferFailReason>(InferFailReason::FieldNotFound));
    assert(types[0] == s && types[1] == t);
    assert forall|r: Option<Ty>| #[trigger]
        lookup::look_intersection(db, types, 2, r, q, none, room) == lookup::or_not_found(r) by {}
    assert forall|r: Option<Ty>| r != Some(Ty::Never) implies #[trigger] lookup::look_intersection(
        db,
        types,
        1,
        r,
        q,
        none,
        room,
    ) == lookup::or_not_found(
        match y {
            Ok(v) => Some(
                match r {
                    Some(u) => db::intersect_ty(u, v),
                    None => v,
                },
            ),
            Err(_) => r,
        },
    ) by {
        let next = match y {
            Ok(v) => Some(
                match r {
                    Some(u) => db::intersect_ty(u, v),
                    None => v,
                },
            ),
            Err(_) => r,
        };
        assert(lookup::look_intersection(db, types, 2, next, q, none, room) == lookup::or_not_found(next));
    }
    let first = match x {
        Ok(u) => Some(u),
        Err(_) => None,
    };
    assert(lookup::look_intersection(db, types, 0, None, q, none, room) == lookup::look_intersection(
        db,
        types,
        1,
        first,
        q,
        none,
        room,
    ));
    assert(lookup::look_inside(db, whole, q, none, room) == lookup::look_intersection(
        db,
        types,
        0,
        None,
        q,
        none,
        room,
    ));
    assert(lookup::look_member(db, whole, q, none, limit) == lookup::look_inside(db, whole, q, none, room));
    if first == Some(Ty::Never) {
        assert(lookup::look_intersection(db, types, 1, first, q, none, room) == lookup::or_not_found(first));
    }
}

/// A template yields what its bound yields, a reference to a module what the module exports.
pub proof fn stand_ins_yield_what_they_stand_for(
    db: DbTy,
    tpl: TplTy,
    o: ObjectTy,
    file: FileId,
    q: LookupTy,
)
    requires
        tpl.param.constraint == Some(Ty::Object(Box::new(o))),
        db::first_value(db.modules, file) == Some(Some(Ty::Object(Box::new(o)))),
    ensures
        lookup::looked_up(db, Ty::TplRef(Box::new(tpl)), q) == lookup::looked_up(db, Ty::Object(Box::new(o)), q),
        lookup::looked_up(db, Ty::ModuleRef(file), q) == lookup::looked_up(db, Ty::Object(Box::new(o)), q),
{
    let s = Ty::Object(Box::new(o));
    let none = Seq::<Seq<char>>::empty();
    let limit = lookup::look_limit();
    let room = (limit - 1) as nat;
    let x = lookup::looked_up(db, s, q);
    assert(lookup::look_member(db, s, q, none, room) == x);
    let t = Ty::TplRef(Box::new(tpl));
    assert(lookup::look_inside(db, t, q, none, room) == x);
    assert(lookup::look_member(db, t, q, none, limit) == x);
    let m = Ty::ModuleRef(file);
    assert(lookup::look_inside(db, m, q, none, room) == x);
    assert(lookup::look_member(db, m, q, none, limit) == x);
}

/// A namespace yields the type that is declared in it under a name, and else a namespace inside it.
pub proof fn namespace_yields_by_its_path(db: DbTy, ns: Seq<char>, name: Seq<char>, q: LookupTy)
    requires
        q.key == KeyTy::Name(name),
    ensures
        db::decl_of(db, ns + "."@ + name) is Some ==> lookup::looked_up(db, Ty::Namespace(ns), q) == Ok::<
            Ty,
            InferFailReason,
        >(Ty::Def(ns + "."@ + name)),
        db::decl_of(db, ns + "."@ + name) is None ==> lookup::looked_up(db, Ty::Namespace(ns), q) == Ok::<
            Ty,
            InferFailReason,
        >(Ty::Namespace(ns + "."@ + name)),
{
}

/// A text has the members that are declared for texts.
pub proof fn text_has_the_members_of_texts(db: DbTy, s: Seq<char>, q: LookupTy)
    ensures
        lookup::looked_up(db, Ty::String, q) == lookup::looked_up(db, Ty::Ref("string"@), q),
        lookup::looked_up(db, Ty::StringConst(s), q) == lookup::looked_up(db, Ty::Ref("string"@), q),
        lookup::looked_up(db, Ty::DocStringConst(s), q) == lookup::looked_up(db, Ty::Ref("string"@), q),
{
    let none = Seq::<Seq<char>>::empty();
    let limit = lookup::look_limit();
    let room = (limit - 1) as nat;
    let id = "string"@;
    let x = lookup::look_declared(db, id, q, none, room);
    assert(lookup::look_inside(db, Ty::Ref(id), q, none, room) == x);
    assert(lookup::look_inside(db, Ty::String, q, none, room) == x);
    assert(lookup::look_inside(db, Ty::StringConst(s), q, none, room) == x);
    assert(lookup::look_inside(db, Ty::DocStringConst(s), q, none, room) == x);
}

/// A generic class yields its own member with the arguments filled in.
pub proof fn generic_class_yields_filled_in_members(
    db: DbTy,
    g: GenericTy,
    decl: DeclTy,
    items: Seq<ItemTy>,
    i: int,
    q: LookupTy,
)
    requires
        db::decl_of(db, g.base) == Some(decl),
        decl.kind is Class,
        decl.super_types.len() == 0,
        db::items_of(db, OwnerTy::Type(g.base)) == items,
        0 <= i < items.len(),
        items[i].key == q.key,
        q.key is Name,
        forall|j: int| 0 <= j < i ==> (#[trigger] items[j]).key != q.key,
        items[i].types.len() == 1,
    ensures
        lookup::looked_up(db, Ty::Generic(Box::new(g)), q) == Ok::<Ty, InferFailReason>(
            dispatch::applied(db, items[i].types[0], g.params),
        ),
{
    indexing::lemma_item_found(items, q.key, i);
    let none = Seq::<Seq<char>>::empty();
    let limit = lookup::look_limit();
    let room = (limit - 1) as nat;
    let t = Ty::Generic(Box::new(g));
    assert(lookup::look_declared(db, g.base, q, none, room) == Ok::<Ty, InferFailReason>(
        items[i].types[0],
    ));
    assert(lookup::look_super_generics(db, decl.super_types, 0, g.params, q, none, room) is None);
    let wanted = Ok::<Ty, InferFailReason>(dispatch::applied(db, items[i].types[0], g.params));
    assert(lookup::look_generic(db, g, q, none, room) == wanted);
    assert(lookup::look_inside(db, t, q, none, room) == wanted);
    assert(lookup::look_member(db, t, q, none, limit) == wanted);
}

/// Under an integer that is not known, a tuple yields any of its elements, or nil where the integer is
/// not known to lie within.
pub proof fn tuple_yields_under_any_integer(
    db: DbTy,
    a: Ty,
    b: Ty,
    status: LuaTupleStatus,
    q: LookupTy,
)
    requires
        q.key == KeyTy::TypeKey(Box::new(Ty::Integer)),
        !q.is_table_field,
        q.is_key_expr,
    ensures
        ({
            let t = Ty::Tuple(Box::new(TupleTy { types: seq![a, b], status }));
            let both = db::union_ty(db::union_ty(Ty::Never, a), b);
            &&& q.in_range ==> lookup::looked_up(db, t, q) == Ok::<Ty, InferFailReason>(both)
            &&& !q.in_range ==> lookup::looked_up(db, t, q) == Ok::<Ty, InferFailReason>(
                db::union_ty(both, Ty::Nil),
            )
        }),
{
    joining::union_of_all_types(a, b);
    let types = seq![a, b];
    reveal_with_fuel(db::union_all_ty, 2);
    assert(types.push(Ty::Nil).drop_last() =~= types);
}

/// A table literal with a metatable yields by its operator where nothing is written under a name.
pub proof fn metatable_yields_where_nothing_is_written(
    db: DbTy,
    range: InFiled,
    operators: Seq<(Ty, Ty)>,
    q: LookupTy,
)
    requires
        db::first_value(db.metatables, range) == Some(operators),
        operators.len() > 0,
        assignable::fits(db, q.key_type, operators[0].0),
        q.key is Name,
        forall|j: int|
            0 <= j < db::items_of(db, OwnerTy::Element(range)).len() ==> (#[trigger] db::items_of(
                db,
                OwnerTy::Element(range),
            )[j]).key != q.key,
    ensures
        operator::member_or_index(db, Ty::TableConst(range), q) == Ok::<Ty, InferFailReason>(operators[0].1),
{
    indexing::lemma_no_item(db::items_of(db, OwnerTy::Element(range)), q.key);
}

/// An instance yields what its type has where its table has nothing, what its table has where its type
/// has nothing, and else what both have in common.
pub proof fn instance_yields_by_type_and_table(
    db: DbTy,
    o: ObjectTy,
    range: InFiled,
    q: LookupTy,
)
    ensures
        ({
            let x = lookup::looked_up(db, Ty::Object(Box::new(o)), q);
            let y = lookup::looked_up(db, Ty::TableConst(range), q);
            let r = lookup::looked_up(
                db,
                Ty::Instance(Box::new(InstanceTy { base: Ty::Object(Box::new(o)), range })),
                q,
            );
            let missing = Err::<Ty, InferFailReason>(InferFailReason::FieldNotFound);
            &&& x is Ok && y == missing ==> r == x
            &&& x is Err ==> r == y
            &&& x is Ok && y is Ok && !(db::intersect_ty(x->Ok_0, y->Ok_0) is Never) ==> r == Ok::<
                Ty,
                InferFailReason,
            >(db::intersect_ty(x->Ok_0, y->Ok_0))
        }),
{
    let s = Ty::Object(Box::new(o));
    let inst = InstanceTy { base: s, range };
    let t = Ty::Instance(Box::new(inst));
    let none = Seq::<Seq<char>>::empty();
    let limit = lookup::look_limit();
    let room = (limit - 1) as nat;
    assert(lookup::look_member(db, s, q, none, room) == lookup::looked_up(db, s, q));
    assert(lookup::look_inside(db, t, q, none, room) == lookup::look_instance(db, inst, q, none, room));
    assert(lookup::look_member(db, t, q, none, limit) == lookup::look_inside(db, t, q, none, room));
}

/// A union yields under its operators what its members yield.
pub proof fn union_yields_by_operators(
    db: DbTy,
    k: Ty,
    v: Ty,
    l: Ty,
    w: Ty,
    key: Ty,
)
    ensures
        ({
            let a = Ty::TableGeneric(seq![k, v]);
            let b = Ty::TableGeneric(seq![l, w]);
            let r = operator::operate(
                db,
                Ty::Union(Box::new(UnionTy::Multi(seq![a, b]))),
                key,
                Seq::empty(),
                lookup::look_limit(),
            );
            &&& assignable::fits(db, key, k) && assignable::fits(db, key, l) ==> r == Ok::<Ty, InferFailReason>(
                db::union_ty(db::union_ty(Ty::Never, v), w),
            )
            &&& assignable::fits(db, key, k) && !assignable::fits(db, key, l) ==> r == Ok::<Ty, InferFailReason>(
                db::union_ty(Ty::Never, v),
            )
            &&& !assignable::fits(db, key, k) && !assignable::fits(db, key, l) ==> r == Err::<Ty, InferFailReason>(
                InferFailReason::FieldNotFound,
            )
        }),
{
    let a = Ty::TableGeneric(seq![k, v]);
    let b = Ty::TableGeneric(seq![l, w]);
    let types = seq![a, b];
    let u = Ty::Union(Box::new(UnionTy::Multi(types)));
    let none = Seq::<Seq<char>>::empty();
    let limit = lookup::look_limit();
    let room = (limit - 1) as nat;
    let empty = Seq::<Ty>::empty();
    assert(types[0] == a && types[1] == b);
    assert(seq![k, v][0] == k && seq![k, v][1] == v && seq![l, w][0] == l && seq![l, w][1] == w);
    let x = operator::operate(db, a, key, none, room);
    let y = operator::operate(db, b, key, none, room);
    assert(x == lookup::look_table_generic(db, seq![k, v], key));
    assert(y == lookup::look_table_generic(db, seq![l, w], key));
    joining::union_of_all_types(v, w);
    let one = empty.push(v);
    let two = one.push(w);
    assert(one =~= seq![v] && two =~= seq![v, w]);
    assert(operator::operate_union(db, types, 2, two, key, none, room) == Ok::<Ty, InferFailReason>(
        db::union_all_ty(two),
    ));
    assert(operator::operate_union(db, types, 2, one, key, none, room) == Ok::<Ty, InferFailReason>(
        db::union_all_ty(one),
    ));
    assert(operator::operate_union(db, types, 2, empty, key, none, room) == Err::<Ty, InferFailReason>(
        InferFailReason::FieldNotFound,
    ));
    if assignable::fits(db, key, k) {
        let next = operator::operate_union(db, types, 1, one, key, none, room);
        if assignable::fits(db, key, l) {
            assert(next == operator::operate_union(db, types, 2, two, key, none, room));
        } else {
            assert(next == operator::operate_union(db, types, 2, one, key, none, room));
        }
        assert(operator::operate_union(db, types, 0, empty, key, none, room) == next);
    } else if !assignable::fits(db, key, l) {
        let next = operator::operate_union(db, types, 1, empty, key, none, room);
        assert(next == operator::operate_union(db, types, 2, empty, key, none, room));
        assert(operator::operate_union(db, types, 0, empty, key, none, room) == next);
    }
    assert(operator::operate_inside(db, u, key, none, room) == operator::operate_union(
        db,
        types,
        0,
        empty,
        key,
        none,
        room,
    ));
    assert(operator::operate(db, u, key, none, limit) == operator::operate_inside(db, u, key, none, room));
}

} // verus!
