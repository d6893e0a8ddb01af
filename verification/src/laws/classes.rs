//! How classes and enumerations stand to other types.

use vstd::prelude::*;

use crate::db;
use crate::db::{DbTy, DeclTy, ItemTy, OwnerTy, TablesTy};
use crate::generic::substitutor;
use crate::infer::{lookup, operator};
use crate::infer::lookup::LookupTy;
use crate::laws::{fitting, indexing, members, shapes};
use crate::member::collect;
use crate::member::collect::{OriginTy, SymbolTy};
use crate::member::raw::InferFailReason;
use crate::type_check::{
    assignable, entries, error_chain, normalize, records, relation, simple, union,
};
use crate::type_check::relation::{IntersectionState, RelMaybe, RelScope, RelationFailure};
use crate::type_check::structured::{dispatch, object_type, tuple};
use crate::types::{
    ArrayTy, GenericTplId, GenericTy, InFiled, KeyTy, LuaArrayLen, ObjectTy, ParamTy, TplTy, Ty,
    UnionTy, complex, equality,
};

verus! {

/// A class fits a table and is fit by one; a plain value does not fit it, and it fits only the basic
/// type that it is named after.
pub proof fn class_stands_beside_basic_types(db: DbTy, id: Seq<char>)
    requires
        records::is_plain_class(db, id),
    ensures
        assignable::fits(db, Ty::Ref(id), Ty::Table),
        assignable::fits(db, Ty::Table, Ty::Ref(id)),
        assignable::fits(db, Ty::Ref(id), Ty::Userdata),
        !assignable::fits(db, Ty::String, Ty::Ref(id)),
        !assignable::fits(db, Ty::Integer, Ty::Ref(id)),
        !assignable::fits(db, Ty::Boolean, Ty::Ref(id)),
        !assignable::fits(db, Ty::Nil, Ty::Ref(id)),
        assignable::fits(db, Ty::Ref(id), Ty::String) == (id == "string"@),
        assignable::fits(db, Ty::Ref(id), Ty::Integer) == (id == "integer"@),
        !assignable::fits(db, Ty::Ref(id), Ty::Boolean),
        !assignable::fits(db, Ty::Ref(id), Ty::Nil),
{
    let t = Ty::Ref(id);
    lemma_beside(db, t, Ty::Table);
    lemma_beside(db, Ty::Table, t);
    lemma_beside(db, t, Ty::Userdata);
    lemma_beside(db, Ty::String, t);
    lemma_beside(db, Ty::Integer, t);
    lemma_beside(db, Ty::Boolean, t);
    lemma_beside(db, Ty::Nil, t);
    lemma_beside(db, t, Ty::String);
    lemma_beside(db, t, Ty::Integer);
    lemma_beside(db, t, Ty::Boolean);
    lemma_beside(db, t, Ty::Nil);
}

proof fn lemma_beside(db: DbTy, s: Ty, t: Ty)
    requires
        records::is_data(db, s),
        records::is_data(db, t),
        (s is Ref && fitting::value_kind(t) is Some) || (fitting::value_kind(s) is Some && t is Ref),
    ensures
        assignable::fits(db, s, t) == records::fits_without_members(db, s, t),
{
    assert(simple::simple_answer(s, t) is None) by {
        reveal(simple::simple_answer);
    }
    assert(records::settled_within(db, s, t, 100));
    assert(records::data_steps(db, s, t, 100) == 1);
    assert(records::data_fits(db, s, t, 100) == records::fits_without_members(db, s, t));
    records::data_is_compared_by_shape(db, assignable::nothing_kept(), s, t, false);
    reveal(assignable::fits);
}

/// An enumeration fits a type if all of its values do.
pub proof fn enumeration_fits_if_its_values_do(
    db: DbTy,
    id: Seq<char>,
    decl: DeclTy,
    values: Seq<Ty>,
    t: Ty,
)
    requires
        db::decl_of(db, id) == Some(decl),
        decl.kind is Enum,
        values.len() > 0,
        decl.enum_fields == Some(Ty::Union(Box::new(UnionTy::Multi(values)))),
        forall|i: int| 0 <= i < values.len() ==> fitting::value_kind(#[trigger] values[i]) is Some,
        fitting::value_kind(t) is Some,
    ensures
        assignable::fits(db, Ty::Ref(id), t) == forall|i: int|
            0 <= i < values.len() ==> fitting::value_fits(#[trigger] values[i], t),
{
    let s = Ty::Ref(id);
    let v = Ty::Union(Box::new(UnionTy::Multi(values)));
    let state = IntersectionState::Plain;
    reveal(normalize::normalized);
    assert(simple::simple_answer(s, t) is None && simple::simple_answer(v, t) is None) by {
        reveal(simple::simple_answer);
    }
    fitting::lemma_asked(db, s, t);
    fitting::lemma_own_form(db, v);
    fitting::lemma_own_form(db, t);
    let c = fitting::first_scope(db, s, t, false);
    let st = fitting::first_state(s, t);
    let inner = relation::rel_types(c, st, v, t, state);
    assert(relation::unfolded(db, s) is None);
    assert(relation::rel_inside(c, st, s, t, state) == relation::rel_plain(c, st, s, t, state));
    assert(dispatch::rel_enum_source(c, st, s, id, decl, t, state) == inner);
    assert(dispatch::rel_declared_source(c, st, s, id, t, state) == Some(inner));
    assert(dispatch::rel_by_source(c, st, s, t, state) == relation::rel_some(inner));
    assert(dispatch::rel_structured(c, st, s, t, state) == relation::rel_some(inner));
    let d = RelScope { depth: 2, ..c };
    assert(relation::kept_answer(st.answers, v, t, state) is None);
    assert(inner == relation::rel_complex(c, st, v, t, state));
    assert(relation::rel_scoped(c, st, v, t, state) == relation::rel_inside(d, st, v, t, state));
    assert(inner.res == relation::rel_scoped(c, st, v, t, state).res);
    fitting::lemma_sources(d, st, values, 0, t);
    assert(union::rel_union(d, st, v, t, state) is Some);
    assert(relation::rel_inside(d, st, v, t, state).res == union::rel_source_members(
        d,
        st,
        values,
        0,
        None,
        t,
        state,
    ).res);
}

/// An object with a value at the first place fits an array if the value does; one without any place
/// does not.
pub proof fn object_of_places_fits_an_array(
    db: DbTy,
    a: Ty,
    x: Ty,
    name: Seq<char>,
    len: LuaArrayLen,
)
    requires
        fitting::value_kind(a) is Some,
        fitting::value_kind(x) is Some,
        !db.strict_array_index,
    ensures
        ({
            let object = |key: KeyTy| Ty::Object(
                Box::new(ObjectTy { fields: seq![(key, a)], index_access: Seq::empty() }),
            );
            let array = Ty::Array(Box::new(ArrayTy { base: x, len }));
            &&& assignable::fits(db, object(KeyTy::Integer(1)), array) == fitting::value_fits(a, x)
            &&& !assignable::fits(db, object(KeyTy::Name(name)), array)
        }),
{
    lemma_object_array(db, a, x, KeyTy::Integer(1), len);
    lemma_object_array(db, a, x, KeyTy::Name(name), len);
}

proof fn lemma_object_array(db: DbTy, a: Ty, x: Ty, key: KeyTy, len: LuaArrayLen)
    requires
        fitting::value_kind(a) is Some,
        fitting::value_kind(x) is Some,
        !db.strict_array_index,
        key == KeyTy::Integer(1) || key is Name,
    ensures
        assignable::fits(
            db,
            Ty::Object(
                Box::new(ObjectTy { fields: seq![(key, a)], index_access: Seq::empty() }),
            ),
            Ty::Array(Box::new(ArrayTy { base: x, len })),
        ) == (key is Integer && fitting::value_fits(a, x)),
{
    let o = ObjectTy { fields: seq![(key, a)], index_access: Seq::empty() };
    let s = Ty::Object(Box::new(o));
    let t = Ty::Array(Box::new(ArrayTy { base: x, len }));
    let p = IntersectionState::Plain;
    fitting::lemma_glance_at_parts(s, t);
    fitting::lemma_asked(db, s, t);
    let c = fitting::first_scope(db, s, t, false);
    let st = fitting::first_state(s, t);
    reveal(normalize::normalized);
    reveal(normalize::array_slot);
    reveal(object_type::has_elements);
    reveal(object_type::has_positive_key);
    reveal(tuple::is_positive_key);
    assert(normalize::array_slot(db, x) == x);
    assert(o.fields[0] == (key, a));
    assert(tuple::is_positive_key(key) == key is Integer);
    assert(object_type::has_elements(o) == key is Integer) by {
        if key is Integer {
            assert(tuple::is_positive_key(o.fields[0].0));
        }
    }
    let one = relation::rel_spend(st).st;
    fitting::lemma_value_step(c, one, a, x, p);
    let message = error_chain::property_msg(key);
    let r = object_type::rel_slot(c, st, a, x, message, p);
    assert(r.res == if fitting::value_fits(a, x) {
        Ok::<(), RelationFailure>(())
    } else {
        Err(RelationFailure::Unrelated)
    });
    assert(object_type::rel_object_fields(c, r.st, o.fields, 1, x, p) == relation::rel_ok(r.st));
    assert(object_type::rel_object_fields(c, st, o.fields, 1, x, p) == relation::rel_ok(st));
    let f = object_type::rel_object_fields(c, st, o.fields, 0, x, p);
    assert(f.res == if key is Integer && !fitting::value_fits(a, x) {
        Err(RelationFailure::Unrelated)
    } else {
        Ok::<(), RelationFailure>(())
    });
    assert(object_type::rel_object_indexes(c, f.st, o.index_access, 0, x, p) == relation::rel_ok(f.st));
    let w = object_type::rel_object_array(c, st, s, t, o, x, p);
    assert(w.res == if key is Integer && fitting::value_fits(a, x) {
        Ok::<(), RelationFailure>(())
    } else {
        Err(RelationFailure::Unrelated)
    });
    assert(relation::unfolded(db, s) is None && relation::unfolded(db, t) is None);
    assert(dispatch::rel_to_array(c, st, s, t, x, p) == Some(w));
    assert(dispatch::rel_to_structure(c, st, s, t, p) == Some(w));
    assert(dispatch::rel_by_source(c, st, s, t, p) == (RelMaybe { st, res: None }));
    assert(dispatch::rel_by_target(c, st, s, t, p) == relation::rel_some(w));
    assert(dispatch::rel_structured(c, st, s, t, p) == relation::rel_some(w));
    assert(relation::rel_inside(c, st, s, t, p) == relation::rel_plain(c, st, s, t, p));
}

/// A class without a member under a name yields what its operator for indexing yields.
pub proof fn operator_yields_where_no_member_is(
    db: DbTy,
    id: Seq<char>,
    decl: DeclTy,
    q: LookupTy,
)
    requires
        db::decl_of(db, id) == Some(decl),
        decl.kind is Class,
        decl.super_types.len() == 0,
        q.key is Name,
        forall|j: int|
            0 <= j < db::items_of(db, OwnerTy::Type(id)).len() ==> (#[trigger] db::items_of(
                db,
                OwnerTy::Type(id),
            )[j]).key != q.key,
        decl.index_operators.len() > 0,
        assignable::fits(db, q.key_type, decl.index_operators[0].0),
    ensures
        operator::member_or_index(db, Ty::Ref(id), q) == Ok::<Ty, InferFailReason>(
            decl.index_operators[0].1,
        ),
{
    let none = Seq::<Seq<char>>::empty();
    let limit = lookup::look_limit();
    let room = (limit - 1) as nat;
    indexing::lemma_no_item(db::items_of(db, OwnerTy::Type(id)), q.key);
    let missing = Err::<Ty, InferFailReason>(InferFailReason::FieldNotFound);
    assert(!none.contains(id));
    assert(lookup::look_inherited(db, decl.super_types, 0, q, none.push(id), room) == missing);
    assert(lookup::look_declared(db, id, q, none, room) == missing);
    assert(lookup::look_inside(db, Ty::Ref(id), q, none, room) == missing);
    assert(lookup::look_member(db, Ty::Ref(id), q, none, limit) == missing);
    indexing::class_yields_by_its_operator(db, id, decl, 0, q.key_type);
}

/// The members of a generic class have its arguments filled in.
pub proof fn members_of_a_generic_class_are_filled_in(
    x: TablesTy,
    room: nat,
    base: Seq<char>,
    decl: DeclTy,
    name: Seq<char>,
    param: ParamTy,
    t: Ty,
)
    requires
        db::decl_of(substitutor::index_at(x, room), base) == Some(decl),
        decl.kind is Class,
        decl.super_types.len() == 0,
        db::items_of(substitutor::index_at(x, room), OwnerTy::Type(base)) == seq![
            ItemTy {
                key: KeyTy::Name(name),
                types: seq![
                    Ty::TplRef(Box::new(TplTy { tpl_id: GenericTplId::Type(0), param })),
                ],
            },
        ],
    ensures
        ({
            let db = substitutor::index_at(x, room);
            let members = collect::members_of_type(
                db,
                Ty::Generic(Box::new(GenericTy { base, params: seq![t] })),
            );
            &&& members.len() == 1
            &&& members[0].0 == KeyTy::Name(name)
            &&& collect::symbol_type(db, members[0].1) == t
        }),
{
    let db = substitutor::index_at(x, room);
    let slot = Ty::TplRef(Box::new(TplTy { tpl_id: GenericTplId::Type(0), param }));
    let item = ItemTy { key: KeyTy::Name(name), types: seq![slot] };
    let items = seq![item];
    let g = GenericTy { base, params: seq![t] };
    let whole = Ty::Generic(Box::new(g));
    let none = Seq::<Ty>::empty();
    let modules = db.modules.len();
    let m = substitutor::args_subst(seq![t]);
    let symbol = SymbolTy { origin: OriginTy::Indexed(seq![slot]), substitutor: Some(m) };
    let members = seq![(KeyTy::Name(name), symbol)];
    assert(items.drop_last() =~= Seq::<ItemTy>::empty());
    reveal_with_fuel(collect::item_members, 2);
    assert(collect::item_members(db, items, Some(m)) =~= members);
    assert(!equality::holds_ty(none, Ty::Ref(base)));
    assert(collect::collected_supers(
        db,
        none.push(Ty::Ref(base)),
        modules,
        members,
        decl.super_types,
        Some(m),
    ) == members);
    assert(collect::collected_declared(db, none, modules, base, Some(seq![t]), None) == Some(members));
    assert(collect::collected(db, none, modules, whole, None) == Some(members));
    assert(m[0] == (GenericTplId::Type(0), t));
    indexing::lemma_value_at(m, 0);
    assert(db::evaluated(db, slot, m) == t);
    assert(collect::symbol_type(db, symbol) == t);
}

/// The source has the same member as the object under every plain key.
pub open spec fn looks_like(db: DbTy, s: Ty, o: ObjectTy) -> bool {
    forall|key: KeyTy|
        !(key is TypeKey) ==> #[trigger] entries::direct_member(db, s, key) == complex::first_field(o.fields, key)
}

proof fn lemma_looks_like(
    db: DbTy,
    s: Ty,
    a: ObjectTy,
    t: Ty,
    fields: Seq<(KeyTy, Ty)>,
)
    requires
        records::is_data(db, s),
        records::is_data(db, t),
        records::has_members(s),
        records::has_members(t),
        fitting::is_flat_object(a),
        fitting::is_flat_object(ObjectTy { fields, index_access: Seq::empty() }),
        entries::member_entries(db, t) == fields,
        looks_like(db, s, a),
        simple::simple_answer(s, t) is None,
    ensures
        assignable::fits(db, s, t) == forall|j: int|
            0 <= j < fields.len() ==> fitting::has_wanted_field(a.fields, #[trigger] fields[j]),
{
    let b = ObjectTy { fields, index_access: Seq::empty() };
    let o = Ty::Object(Box::new(a));
    reveal(entries::direct_member);
    assert forall|j: int| 0 <= j < fields.len() implies records::field_settled_within(
        db,
        s,
        #[trigger] fields[j],
        99,
    ) && records::field_fits(db, s, fields[j], 99) == fitting::has_wanted_field(a.fields, fields[j]) by {
        fitting::lemma_wanted_field(db, a, b, j);
        assert(!(fields[j].0 is TypeKey));
        assert(entries::direct_member(db, s, fields[j].0) == complex::first_field(a.fields, fields[j].0));
        assert(entries::direct_member(db, o, fields[j].0) == complex::first_field(a.fields, fields[j].0));
    }
    assert(records::fields_settled_within(db, s, fields, 99));
    assert(records::settled_within(db, s, t, 100));
    fitting::lemma_flat_steps(db, a, b, 0);
    lemma_same_steps(db, s, a, fields, 0);
    assert(records::data_steps(db, s, t, 100) <= 20_000);
    assert(records::all_fields_fit(db, s, fields, 0, 99) == forall|j: int|
        0 <= j < fields.len() ==> fitting::has_wanted_field(a.fields, #[trigger] fields[j])) by {
        if records::all_fields_fit(db, s, fields, 0, 99) {
            assert forall|j: int| 0 <= j < fields.len() implies fitting::has_wanted_field(
                a.fields,
                #[trigger] fields[j],
            ) by {
                assert(records::field_fits(db, s, fields[j], 99));
            }
        }
    }
    records::data_is_compared_by_shape(db, assignable::nothing_kept(), s, t, false);
    reveal(assignable::fits);
}

proof fn lemma_same_steps(db: DbTy, s: Ty, a: ObjectTy, fields: Seq<(KeyTy, Ty)>, k: nat)
    requires
        looks_like(db, s, a),
        fitting::is_flat_object(ObjectTy { fields, index_access: Seq::empty() }),
        k <= fields.len(),
    ensures
        records::fields_steps(db, s, fields, k, 99) == records::fields_steps(
            db,
            Ty::Object(Box::new(a)),
            fields,
            k,
            99,
        ),
    decreases fields.len() - k,
{
    reveal(entries::direct_member);
    if k < fields.len() {
        lemma_same_steps(db, s, a, fields, k + 1);
        let key = fields[k as int].0;
        assert(!(key is TypeKey));
        assert(entries::direct_member(db, s, key) == complex::first_field(a.fields, key));
        assert(entries::direct_member(db, Ty::Object(Box::new(a)), key) == complex::first_field(a.fields, key));
    }
}

proof fn lemma_wanted_is_flat(items: Seq<ItemTy>)
    requires
        members::items_are_plain(items),
        items.len() <= 1000,
        forall|i: int|
            0 <= i < items.len() ==> (#[trigger] items[i]).types.len() == 1 && fitting::value_kind(
                items[i].types[0],
            ) is Some && !(items[i].types[0] is Function),
    ensures
        fitting::is_flat_object(ObjectTy { fields: shapes::wanted_members(items), index_access: Seq::empty() }),
{
    let fields = shapes::wanted_members(items);
    assert forall|i: int| 0 <= i < fields.len() implies !((#[trigger] fields[i]).0 is TypeKey)
        && fitting::value_kind(fields[i].1) is Some && !(fields[i].1 is Function) by {
        assert(items[i].types.len() == 1);
        assert(!(items[i].key is TypeKey));
    }
    assert forall|i: int, j: int| 0 <= i < j < fields.len() implies (#[trigger] fields[i]).0 != (
    #[trigger] fields[j]).0 by {
        assert(items[i].key != items[j].key);
    }
}

proof fn lemma_item_is_field(items: Seq<ItemTy>, key: KeyTy)
    requires
        members::items_are_plain(items),
        !(key is TypeKey),
        forall|i: int| 0 <= i < items.len() ==> (#[trigger] items[i]).types.len() == 1,
    ensures
        (match db::find_item(items, key) {
            Some(item) => db::item_type(item),
            None => None,
        }) == complex::first_field(shapes::wanted_members(items), key),
        db::find_item(items, key) matches Some(item) ==> db::item_type(item) is Some,
{
    let fields = shapes::wanted_members(items);
    if exists|i: int| 0 <= i < items.len() && (#[trigger] items[i]).key == key {
        let i = choose|i: int| 0 <= i < items.len() && (#[trigger] items[i]).key == key;
        assert forall|j: int| 0 <= j < i implies (#[trigger] items[j]).key != key by {
            assert(items[j].key != items[i].key);
        }
        assert forall|j: int| 0 <= j < i implies (#[trigger] fields[j]).0 != key by {
            assert(items[j].key != key);
        }
        indexing::lemma_item_found(items, key, i);
        indexing::lemma_first_field(fields, key, i);
        assert(items[i].types.len() == 1);
    } else {
        assert forall|j: int| 0 <= j < items.len() implies (#[trigger] items[j]).key != key by {}
        assert forall|j: int| 0 <= j < fields.len() implies (#[trigger] fields[j]).0 != key by {
            assert(items[j].key != key);
        }
        indexing::lemma_no_item(items, key);
        indexing::lemma_no_field(fields, key);
    }
}

/// A written table fits a class member by member.
pub proof fn written_table_fits_a_class_member_by_member(
    db: DbTy,
    range: InFiled,
    written: Seq<ItemTy>,
    id: Seq<char>,
    items: Seq<ItemTy>,
)
    requires
        db::items_of(db, OwnerTy::Element(range)) == written,
        members::items_are_plain(written),
        written.len() <= 1000,
        forall|i: int|
            0 <= i < written.len() ==> (#[trigger] written[i]).types.len() == 1 && fitting::value_kind(
                written[i].types[0],
            ) is Some && !(written[i].types[0] is Function),
        shapes::is_flat_class(db, id, items),
    ensures
        assignable::fits(db, Ty::TableConst(range), Ty::Ref(id)) == forall|j: int|
            0 <= j < items.len() ==> fitting::has_wanted_field(
                shapes::wanted_members(written),
                #[trigger] shapes::wanted_members(items)[j],
            ),
{
    let s = Ty::TableConst(range);
    let t = Ty::Ref(id);
    let a = ObjectTy { fields: shapes::wanted_members(written), index_access: Seq::empty() };
    shapes::lemma_class_entries(db, id, items);
    lemma_wanted_is_flat(written);
    lemma_wanted_is_flat(items);
    reveal(entries::direct_member);
    assert forall|key: KeyTy| !(key is TypeKey) implies #[trigger] entries::direct_member(db, s, key)
        == complex::first_field(a.fields, key) by {
        lemma_item_is_field(written, key);
    }
    assert(simple::simple_answer(s, t) is None) by {
        reveal(simple::simple_answer);
    }
    lemma_looks_like(db, s, a, t, shapes::wanted_members(items));
}

/// A class fits another class member by member, whatever they are called.
pub proof fn class_fits_a_class_member_by_member(
    db: DbTy,
    sub: Seq<char>,
    has: Seq<ItemTy>,
    id: Seq<char>,
    items: Seq<ItemTy>,
)
    requires
        sub != id,
        shapes::is_flat_class(db, sub, has),
        shapes::is_flat_class(db, id, items),
    ensures
        assignable::fits(db, Ty::Ref(sub), Ty::Ref(id)) == forall|j: int|
            0 <= j < items.len() ==> fitting::has_wanted_field(
                shapes::wanted_members(has),
                #[trigger] shapes::wanted_members(items)[j],
            ),
{
    let s = Ty::Ref(sub);
    let t = Ty::Ref(id);
    let fields = shapes::wanted_members(has);
    let a = ObjectTy { fields, index_access: Seq::empty() };
    shapes::lemma_class_entries(db, id, items);
    lemma_wanted_is_flat(has);
    lemma_wanted_is_flat(items);
    assert forall|key: KeyTy| !(key is TypeKey) implies #[trigger] entries::direct_member(db, s, key)
        == complex::first_field(a.fields, key) by {
        lemma_class_member_is_field(db, sub, has, key);
    }
    assert(simple::simple_answer(s, t) is None) by {
        reveal(simple::simple_answer);
    }
    lemma_looks_like(db, s, a, t, shapes::wanted_members(items));
}

proof fn lemma_class_member_is_field(db: DbTy, id: Seq<char>, items: Seq<ItemTy>, key: KeyTy)
    requires
        shapes::is_flat_class(db, id, items),
        !(key is TypeKey),
    ensures
        entries::direct_member(db, Ty::Ref(id), key) == complex::first_field(shapes::wanted_members(items), key),
{
    reveal(entries::direct_member);
    let decl = db::decl_of(db, id).unwrap();
    let fields = shapes::wanted_members(items);
    let members = collect::members_of_type(db, Ty::Ref(id));
    if items.len() == 0 {
        members::lemma_memberless_class(db, id, decl);
    } else {
        members::lemma_class_member_at(db, id, decl, items, 0);
    }
    assert forall|j: int| 0 <= j < items.len() implies (#[trigger] members[j]).0 == items[j].key by {
        assert(items[j].types.len() == 1);
        members::lemma_class_member_at(db, id, decl, items, j);
    }
    if exists|i: int| 0 <= i < items.len() && (#[trigger] items[i]).key == key {
        let i = choose|i: int| 0 <= i < items.len() && (#[trigger] items[i]).key == key;
        assert(items[i].types.len() == 1);
        members::class_has_its_declared_members(db, id, decl, items, i);
        assert forall|j: int| 0 <= j < i implies (#[trigger] fields[j]).0 != key by {
            assert(items[j].key != items[i].key);
        }
        indexing::lemma_first_field(fields, key, i);
    } else {
        assert forall|j: int| 0 <= j < members.len() implies (#[trigger] members[j]).0 != key by {
            assert(items[j].key != key);
        }
        members::lemma_no_member(members, key);
        assert forall|j: int| 0 <= j < fields.len() implies (#[trigger] fields[j]).0 != key by {
            assert(items[j].key != key);
        }
        indexing::lemma_no_field(fields, key);
    }
}

} // verus!
