//! Which values fit classes, intersections and lists.

use vstd::prelude::*;

use crate::db;
use crate::db::{DbTy, DeclTy, ItemTy, OwnerTy};
use crate::laws::{fitting, indexing, joining, members};
use crate::type_check::{
    assignable, entries, error_chain, intersection, normalize, records, relation, simple, union,
};
use crate::type_check::error_chain::MessageTy;
use crate::type_check::relation::{IntersectionState, RelationFailure};
use crate::type_check::structured::{dispatch, index, member, tuple};
use crate::types::{
    ArrayTy, KeyTy, LuaArrayLen, LuaTupleStatus, ObjectTy, TupleTy, Ty, UnionTy, equality,
};

verus! {

/// The members of a class that are declared once each, with values without parts.
pub open spec fn is_flat_class(db: DbTy, id: Seq<char>, items: Seq<ItemTy>) -> bool {
    &&& db::decl_of(db, id) matches Some(decl) && decl.kind is Class && decl.alias_ref is None
        && decl.super_types.len() == 0
    &&& db::items_of(db, OwnerTy::Type(id)) == items
    &&& members::items_are_plain(items)
    &&& items.len() <= 1000
    &&& forall|i: int|
        0 <= i < items.len() ==> (#[trigger] items[i]).types.len() == 1 && fitting::value_kind(
            items[i].types[0],
        ) is Some && !(items[i].types[0] is Function)
}

/// What a class asks for.
pub open spec fn wanted_members(items: Seq<ItemTy>) -> Seq<(KeyTy, Ty)> {
    Seq::new(items.len(), |i: int| (items[i].key, items[i].types[0]))
}

pub proof fn lemma_class_entries(db: DbTy, id: Seq<char>, items: Seq<ItemTy>)
    requires
        is_flat_class(db, id, items),
    ensures
        entries::member_entries(db, Ty::Ref(id)) == wanted_members(items),
{
    reveal(entries::member_entries);
    let decl = db::decl_of(db, id).unwrap();
    let entries = entries::member_entries(db, Ty::Ref(id));
    if items.len() > 0 {
        members::class_has_its_declared_members(db, id, decl, items, 0);
    } else {
        members::lemma_memberless_class(db, id, decl);
    }
    assert(entries.len() == items.len());
    assert forall|i: int| 0 <= i < items.len() implies #[trigger] entries[i] == wanted_members(
        items,
    )[i] by {
        members::lemma_class_member_at(db, id, decl, items, i);
    }
    assert(entries =~= wanted_members(items));
}

/// An object fits a class member by member: each declared member has to be there and to fit, or may be
/// left out.
pub proof fn object_fits_a_class_member_by_member(
    db: DbTy,
    a: ObjectTy,
    id: Seq<char>,
    items: Seq<ItemTy>,
)
    requires
        fitting::is_flat_object(a),
        is_flat_class(db, id, items),
    ensures
        assignable::fits(db, Ty::Object(Box::new(a)), Ty::Ref(id)) == forall|j: int|
            0 <= j < items.len() ==> fitting::has_wanted_field(
                a.fields,
                ((#[trigger] items[j]).key, items[j].types[0]),
            ),
{
    let s = Ty::Object(Box::new(a));
    let t = Ty::Ref(id);
    let fields = wanted_members(items);
    let b = ObjectTy { fields, index_access: Seq::empty() };
    lemma_class_entries(db, id, items);
    assert(fitting::is_flat_object(b)) by {
        assert forall|i: int| 0 <= i < fields.len() implies !((#[trigger] fields[i]).0 is TypeKey)
            && fitting::value_kind(fields[i].1) is Some && !(fields[i].1 is Function) by {
            assert(items[i].types.len() == 1);
            assert(!(items[i].key is TypeKey));
        }
        assert forall|i: int, j: int| 0 <= i < j < fields.len() implies (#[trigger] fields[i]).0 != (
        #[trigger] fields[j]).0 by {
            assert(items[i].key != items[j].key);
        }
    }
    reveal(assignable::fits);
    assert(simple::simple_answer(s, t) is None) by {
        reveal(simple::simple_answer);
    }
    fitting::lemma_flat_object_is_data(db, a);
    assert(records::is_data(db, t));
    assert forall|j: int| 0 <= j < fields.len() implies records::field_settled_within(
        db,
        s,
        #[trigger] fields[j],
        99,
    ) && records::field_fits(db, s, fields[j], 99) == fitting::has_wanted_field(a.fields, fields[j]) by {
        fitting::lemma_wanted_field(db, a, b, j);
    }
    assert(records::fields_settled_within(db, s, fields, 99));
    assert(records::settled_within(db, s, t, 100));
    fitting::lemma_flat_steps(db, a, b, 0);
    assert(records::data_steps(db, s, t, 100) <= 20_000);
    let fit = forall|j: int|
        0 <= j < items.len() ==> fitting::has_wanted_field(
            a.fields,
            ((#[trigger] items[j]).key, items[j].types[0]),
        );
    assert(records::all_fields_fit(db, s, fields, 0, 99) == fit) by {
        if records::all_fields_fit(db, s, fields, 0, 99) {
            assert forall|j: int| 0 <= j < items.len() implies fitting::has_wanted_field(
                a.fields,
                ((#[trigger] items[j]).key, items[j].types[0]),
            ) by {
                assert(records::field_fits(db, s, fields[j], 99));
            }
        }
        if fit {
            assert forall|j: int| 0 <= j < fields.len() implies records::field_fits(
                db,
                s,
                #[trigger] fields[j],
                99,
            ) by {
                assert(fitting::has_wanted_field(a.fields, (items[j].key, items[j].types[0])));
            }
        }
    }
    records::data_is_compared_by_shape(db, assignable::nothing_kept(), s, t, false);
}

/// The reason why an object without a wanted field does not fit names the field.
pub proof fn missing_field_is_named(db: DbTy, name: Seq<char>, b: Ty)
    requires
        fitting::value_kind(b) is Some && !(b is Function) && !(b is Nil),
    ensures
        ({
            let s = Ty::Object(
                Box::new(ObjectTy { fields: Seq::empty(), index_access: Seq::empty() }),
            );
            let t = Ty::Object(
                Box::new(
                    ObjectTy { fields: seq![(KeyTy::Name(name), b)], index_access: Seq::empty() },
                ),
            );
            let r = assignable::compared(db, assignable::nothing_kept(), s, t, true);
            &&& r.res == Err::<(), RelationFailure>(RelationFailure::Unrelated)
            &&& r.st.chain == seq![
                MessageTy::MissingMembers { source: s, target: t, keys: seq![KeyTy::Name(name)] },
            ]
        }),
{
    let x = ObjectTy { fields: Seq::empty(), index_access: Seq::empty() };
    let y = ObjectTy { fields: seq![(KeyTy::Name(name), b)], index_access: Seq::empty() };
    let s = Ty::Object(Box::new(x));
    let t = Ty::Object(Box::new(y));
    assert(y.fields[0] == (KeyTy::Name(name), b));
    assert(fitting::is_flat_object(x) && fitting::is_flat_object(y));
    fitting::lemma_flat_object_is_data(db, x);
    fitting::lemma_flat_object_is_data(db, y);
    reveal(entries::member_entries);
    let entries = entries::member_entries(db, t);
    assert(entries =~= y.fields);
    assert(!equality::ty_eq(s, t)) by {
        if equality::ty_eq(s, t) {
            assert(equality::fields_eq(x.fields, y.fields));
        }
    }
    assert(simple::simple_answer(s, t) is None) by {
        reveal(simple::simple_answer);
    }
    fitting::lemma_wanted_field(db, x, y, 0);
    indexing::lemma_no_field(x.fields, KeyTy::Name(name));
    reveal(entries::direct_member);
    reveal(normalize::omittable);
    reveal_with_fuel(normalize::may_be_omitted, 2);
    assert(entries::direct_member(db, s, KeyTy::Name(name)) is None);
    assert(records::fields_settled_within(db, s, entries, 99));
    assert(records::settled_within(db, s, t, 100));
    fitting::lemma_flat_steps(db, x, y, 0);
    assert(!records::all_fields_fit(db, s, entries, 0, 99)) by {
        assert(!records::field_fits(db, s, entries[0], 99));
    }
    records::data_is_compared_by_shape(db, assignable::nothing_kept(), s, t, true);
    reveal_with_fuel(records::absent_keys, 2);
    assert(entries.drop_last() =~= Seq::<(KeyTy, Ty)>::empty());
    assert(records::is_lacking(db, s, entries.last()));
    assert(records::absent_keys(db, s, entries) =~= seq![KeyTy::Name(name)]);
    let message = MessageTy::MissingMembers {
        source: s,
        target: t,
        keys: records::absent_keys(db, s, entries),
    };
    assert(error_chain::pushed(Seq::empty(), message) =~= seq![message]);
}

/// A field in front of a field makes one path; any other message stands in front of the rest.
pub proof fn reasons_are_joined_to_paths(
    outer: Seq<char>,
    inner: Seq<char>,
    rest: Seq<MessageTy>,
    message: MessageTy,
    key: KeyTy,
)
    requires
        !(message is Field),
    ensures
        error_chain::pushed(Seq::empty(), message) == seq![message],
        error_chain::pushed(seq![MessageTy::Field { name: inner }] + rest, MessageTy::Field { name: outer })
            == seq![MessageTy::Field { name: outer + "."@ + inner }] + rest,
        error_chain::pushed(rest, message) == seq![message] + rest,
        error_chain::property_msg(KeyTy::Name(outer)) == (MessageTy::Field { name: outer }),
        !(key is Name) ==> error_chain::property_msg(key) == (MessageTy::Property { key }),
{
    let chain = seq![MessageTy::Field { name: inner }] + rest;
    assert(chain[0] == MessageTy::Field { name: inner });
    assert(chain.skip(1) =~= rest);
    assert(error_chain::pushed(Seq::empty(), message) =~= seq![message]);
    assert(error_chain::pushed(rest, message) =~= seq![message] + rest);
}

/// A value of a type may be left out where it may be nil.
pub proof fn what_may_be_left_out(db: DbTy, t: Ty, id: Seq<char>, decl: DeclTy)
    requires
        joining::is_there(t) && !(t is Ref) && !(t is Def),
        db::decl_of(db, id) == Some(decl),
    ensures
        normalize::omittable(db, Ty::Nil),
        normalize::omittable(db, Ty::Any),
        normalize::omittable(db, Ty::Union(Box::new(UnionTy::Nullable(t)))),
        !normalize::omittable(db, t),
        !normalize::omittable(db, Ty::Boolean),
        decl.alias_ref == Some(Ty::Nil) ==> normalize::omittable(db, Ty::Ref(id)),
        decl.alias_ref == Some(Ty::Union(Box::new(UnionTy::Nullable(t)))) ==> normalize::omittable(
            db,
            Ty::Ref(id),
        ),
        decl.alias_ref is None || decl.alias_ref == Some(Ty::String) ==> !normalize::omittable(db, Ty::Ref(id)),
{
    reveal(normalize::omittable);
    reveal_with_fuel(normalize::may_be_omitted, 3);
    reveal_with_fuel(normalize::alias_may_be_omitted, 3);
}

/// An intersection is fit by what fits both of its parts.
pub proof fn intersection_is_fit_by_what_fits_both(db: DbTy, s: Ty, a: Ty, b: Ty)
    requires
        fitting::value_kind(s) is Some,
        fitting::value_kind(a) is Some,
        fitting::value_kind(b) is Some,
    ensures
        assignable::fits(db, s, Ty::Intersection(seq![a, b])) == (fitting::value_fits(s, a) && fitting::value_fits(s, b)),
{
    let parts = seq![a, b];
    let t = Ty::Intersection(parts);
    assert(simple::simple_answer(s, t) is None) by {
        reveal(simple::simple_answer);
    }
    assert(!relation::is_listed_value(db, s, t)) by {
        reveal(relation::is_listed_value);
    }
    reveal(normalize::normalized);
    fitting::lemma_asked(db, s, t);
    let c = fitting::first_scope(db, s, t, false);
    let st = fitting::first_state(s, t);
    let p = IntersectionState::Plain;
    let at = IntersectionState::Target;
    fitting::lemma_value_step(c, st, s, a, at);
    fitting::lemma_value_step(c, st, s, b, at);
    assert(parts[0] == a && parts[1] == b);
    reveal(entries::member_entries);
    reveal_with_fuel(index::flat_parts, 3);
    assert(parts.drop_last() =~= seq![a]);
    assert(seq![a].drop_last() =~= Seq::<Ty>::empty());
    let flat = index::flat_parts(parts);
    assert(index::flat_type(a) =~= seq![a] && index::flat_type(b) =~= seq![b]);
    assert(flat =~= parts);
    assert(entries::member_entries(db, a) =~= Seq::<(KeyTy, Ty)>::empty());
    assert(entries::member_entries(db, b) =~= Seq::<(KeyTy, Ty)>::empty());
    assert(member::rel_index_of_parts(c, st, s, t, flat, 2) == relation::rel_ok(st));
    assert(member::rel_indexes_of(c, st, s, t, Seq::empty(), 0) == relation::rel_ok(st));
    assert(member::rel_index_of_parts(c, st, s, t, flat, 1) == relation::rel_ok(st));
    assert(member::rel_index_of_parts(c, st, s, t, flat, 0) == relation::rel_ok(st));
    assert(intersection::rel_to_parts(c, st, s, t, parts, 2, None, p) == relation::rel_ok(st));
    let second = intersection::rel_to_parts(c, st, s, t, parts, 1, None, p);
    assert(second.res == if fitting::value_fits(s, b) {
        Ok::<(), RelationFailure>(())
    } else {
        Err(RelationFailure::Unrelated)
    });
    let first = intersection::rel_to_parts(c, st, s, t, parts, 0, None, p);
    assert(first.res == if fitting::value_fits(s, a) && fitting::value_fits(s, b) {
        Ok::<(), RelationFailure>(())
    } else {
        Err(RelationFailure::Unrelated)
    });
    assert(relation::unfolded(db, s) is None && relation::unfolded(db, t) is None);
    assert(union::rel_union(c, st, s, t, p) is None);
    assert(intersection::rel_intersection(c, st, s, t, p) == Some(first));
    assert(relation::rel_inside(c, st, s, t, p) == first);
}

/// A tuple fits an array if each of its elements does.
pub proof fn tuple_fits_an_array_element_by_element(
    db: DbTy,
    a: Ty,
    b: Ty,
    x: Ty,
    len: LuaArrayLen,
    status: LuaTupleStatus,
)
    requires
        fitting::value_kind(a) is Some,
        fitting::value_kind(b) is Some,
        fitting::value_kind(x) is Some,
        !db.strict_array_index,
    ensures
        assignable::fits(
            db,
            Ty::Tuple(Box::new(TupleTy { types: seq![a, b], status })),
            Ty::Array(Box::new(ArrayTy { base: x, len })),
        ) == (fitting::value_fits(a, x) && fitting::value_fits(b, x)),
{
    let types = seq![a, b];
    let s = Ty::Tuple(Box::new(TupleTy { types, status }));
    let t = Ty::Array(Box::new(ArrayTy { base: x, len }));
    let p = IntersectionState::Plain;
    fitting::lemma_glance_at_parts(s, t);
    fitting::lemma_asked(db, s, t);
    let c = fitting::first_scope(db, s, t, false);
    let st = fitting::first_state(s, t);
    fitting::lemma_plain_steps(c, st, s, t);
    reveal(normalize::array_slot);
    assert(normalize::array_slot(db, x) == x);
    assert(types[0] == a && types[1] == b);
    let one = relation::rel_spend(st).st;
    let two = relation::rel_spend(one).st;
    fitting::lemma_value_step(c, one, a, x, p);
    fitting::lemma_value_step(c, two, b, x, p);
    assert(tuple::rel_tuple_array(c, two, types, 2, x, p) == relation::rel_ok(two));
    assert(tuple::rel_tuple_array(c, one, types, 1, x, p).res == if fitting::value_fits(b, x) {
        Ok::<(), RelationFailure>(())
    } else {
        Err(RelationFailure::Unrelated)
    });
    let r = tuple::rel_tuple_array(c, st, types, 0, x, p);
    assert(r.res == if fitting::value_fits(a, x) && fitting::value_fits(b, x) {
        Ok::<(), RelationFailure>(())
    } else {
        Err(RelationFailure::Unrelated)
    });
    assert(dispatch::rel_to_array(c, st, s, t, x, p) == Some(r));
    assert(dispatch::rel_to_structure(c, st, s, t, p) == Some(r));
}

} // verus!
