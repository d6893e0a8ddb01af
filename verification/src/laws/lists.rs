//! What lists, numbers and nested types are found to be.

use vstd::prelude::*;

use crate::db;
use crate::db::DbTy;
use crate::infer::table;
use crate::infer::table::ListField;
use crate::laws::{conditions, fitting, joining};
use crate::type_check::assignable;
use crate::types::{
    ArrayTy, FunctionTy, KeyTy, LuaArrayLen, LuaTupleStatus, ObjectTy, TplTy, TupleTy, Ty,
    VariadicTy, basic, equality, predicates, traverse,
};

verus! {

/// A list that ends with a run of values which its first element fits is an array of them.
pub proof fn list_that_ends_with_a_run(
    db: DbTy,
    a: ListField,
    b: ListField,
    base: Ty,
)
    requires
        !a.is_dots,
        !(a.typ@ is Variadic),
        fitting::value_kind(a.typ@) is Some,
        fitting::value_kind(base) is Some,
        !(base is Nil),
        b.typ@ == Ty::Variadic(Box::new(VariadicTy::Base(base))),
    ensures
        fitting::value_fits(a.typ@, base) ==> table::list_type(db, seq![a, b]) == Ty::Array(
            Box::new(ArrayTy { base, len: LuaArrayLen::Unbounded }),
        ),
        !fitting::value_fits(a.typ@, base) ==> table::list_type(db, seq![a, b]) == Ty::Tuple(
            Box::new(
                TupleTy { types: seq![a.typ@, b.typ@], status: LuaTupleStatus::InferResolve },
            ),
        ),
{
    let types = table::field_types(seq![a, b]);
    assert(types =~= seq![a.typ@, b.typ@]);
    assert(types.last() == b.typ@);
    joining::single_type_is_taken_away_whole(base, Ty::Nil);
    assert(!equality::holds_ty(predicates::members_of(Ty::Nil), base));
    assert(db::remove_ty(base, Ty::Nil) == base);
    fitting::value_fits_at_a_glance(db, assignable::nothing_kept(), a.typ@, base, false);
    assert(table::front_fits(db, types, base) == fitting::value_fits(a.typ@, base)) by {
        assert(types[0] == a.typ@);
        if table::front_fits(db, types, base) {
            assert(assignable::fits(db, types[0], base));
        }
    }
    let front = types.drop_last();
    assert(front =~= seq![a.typ@]);
    assert(front.drop_last() =~= Seq::<Ty>::empty());
    assert(table::flat_list(Seq::<Ty>::empty()) =~= Seq::<Ty>::empty());
    assert(table::flat_list(front) =~= seq![a.typ@]);
    assert(table::flat_run(VariadicTy::Base(base)) =~= seq![b.typ@]);
    assert(table::flat_list(types) =~= seq![a.typ@, b.typ@]);
}

/// Of a union, a written table may be of the members that are no plain values.
pub proof fn written_table_is_of_the_table_part(db: DbTy, o: ObjectTy, t: Ty)
    requires
        t is String || t is Integer || t is Boolean || t is Nil,
    ensures
        table::table_part(db, seq![Ty::Object(Box::new(o)), t]) == Ty::Object(Box::new(o)),
        table::table_part(db, seq![t, Ty::Object(Box::new(o))]) == Ty::Object(Box::new(o)),
        table::table_part(db, seq![t]) == Ty::Unknown,
{
    let s = Ty::Object(Box::new(o));
    reveal_with_fuel(table::tables_of, 3);
    reveal_with_fuel(db::union_all_ty, 3);
    assert(seq![s, t].drop_last() =~= seq![s]);
    assert(seq![t, s].drop_last() =~= seq![t]);
    assert(seq![s].drop_last() =~= Seq::<Ty>::empty());
    assert(seq![t].drop_last() =~= Seq::<Ty>::empty());
    assert(table::may_be_table(db, s, 16) && !table::may_be_table(db, t, 16));
    assert(table::tables_of(db, seq![s, t]) =~= seq![s]);
    assert(table::tables_of(db, seq![t, s]) =~= seq![s]);
    assert(table::tables_of(db, seq![t]) =~= Seq::<Ty>::empty());
}

/// A type holds a template if one stands somewhere inside it.
pub proof fn template_is_found_inside(
    tpl: TplTy,
    leaf: Ty,
    len: LuaArrayLen,
    key: KeyTy,
    name: Seq<char>,
    f: FunctionTy,
)
    requires
        conditions::is_leaf(leaf),
    ensures
        ({
            let slot = Ty::TplRef(Box::new(tpl));
            let found = |t: Ty| traverse::holds_tpl(traverse::preorder(t));
            let array = |t: Ty| Ty::Array(Box::new(ArrayTy { base: t, len }));
            let object = |t: Ty| Ty::Object(
                Box::new(ObjectTy { fields: seq![(key, t)], index_access: Seq::empty() }),
            );
            let giving = |t: Ty| Ty::DocFunction(
                Box::new(FunctionTy { params: Seq::empty(), ret: t, ..f }),
            );
            let taking = |t: Ty| Ty::DocFunction(
                Box::new(FunctionTy { params: seq![(name, Some(t))], ret: leaf, ..f }),
            );
            &&& found(slot) && !found(leaf)
            &&& found(array(slot)) && !found(array(leaf))
            &&& found(object(slot)) && !found(object(leaf))
            &&& found(giving(slot)) && !found(giving(leaf))
            &&& found(taking(slot)) && !found(taking(leaf))
        }),
{
    let slot = Ty::TplRef(Box::new(tpl));
    lemma_nested_in_each(slot, leaf, len, key, name, f);
    lemma_nested_in_each(leaf, leaf, len, key, name, f);
    assert(traverse::preorder(slot) =~= seq![slot]);
    assert(traverse::preorder(leaf) =~= seq![leaf]);
}

/// Whether what is put into a type is found in it.
proof fn lemma_nested_in_each(
    t: Ty,
    leaf: Ty,
    len: LuaArrayLen,
    key: KeyTy,
    name: Seq<char>,
    f: FunctionTy,
)
    requires
        conditions::is_leaf(leaf),
        conditions::is_leaf(t) || t is TplRef,
    ensures
        ({
            let array = Ty::Array(Box::new(ArrayTy { base: t, len }));
            let object = Ty::Object(
                Box::new(ObjectTy { fields: seq![(key, t)], index_access: Seq::empty() }),
            );
            let giving = Ty::DocFunction(
                Box::new(FunctionTy { params: Seq::empty(), ret: t, ..f }),
            );
            let taking = Ty::DocFunction(
                Box::new(FunctionTy { params: seq![(name, Some(t))], ret: leaf, ..f }),
            );
            &&& traverse::holds_tpl(traverse::preorder(t)) == t is TplRef
            &&& traverse::holds_tpl(traverse::preorder(array)) == t is TplRef
            &&& traverse::holds_tpl(traverse::preorder(object)) == t is TplRef
            &&& traverse::holds_tpl(traverse::preorder(giving)) == t is TplRef
            &&& traverse::holds_tpl(traverse::preorder(taking)) == t is TplRef
        }),
{
    let inner = seq![t];
    assert(traverse::nested(t) =~= Seq::<Ty>::empty());
    assert(traverse::preorder(t) =~= inner);
    assert(traverse::preorder(leaf) =~= seq![leaf]);
    lemma_holds(inner, 0);
    let array = Ty::Array(Box::new(ArrayTy { base: t, len }));
    assert(traverse::nested(array) == traverse::preorder(t));
    assert(traverse::preorder(array) =~= seq![array, t]);
    lemma_holds(seq![array, t], 1);
    let fields = seq![(key, t)];
    let object = Ty::Object(Box::new(ObjectTy { fields, index_access: Seq::empty() }));
    assert(fields.take(0) =~= Seq::<(KeyTy, Ty)>::empty());
    assert(traverse::preorder_fields(Seq::<(KeyTy, Ty)>::empty()) =~= Seq::<Ty>::empty());
    assert(traverse::preorder_fields(fields) =~= inner);
    assert(traverse::preorder_pairs(Seq::<(Ty, Ty)>::empty()) =~= Seq::<Ty>::empty());
    assert(traverse::nested(object) =~= inner);
    assert(traverse::preorder(object) =~= seq![object, t]);
    lemma_holds(seq![object, t], 1);
    let none = Seq::<(Seq<char>, Option<Ty>)>::empty();
    let giving = Ty::DocFunction(Box::new(FunctionTy { params: none, ret: t, ..f }));
    assert(traverse::preorder_named(none) =~= Seq::<Ty>::empty());
    assert(traverse::nested(giving) =~= inner);
    assert(traverse::preorder(giving) =~= seq![giving, t]);
    lemma_holds(seq![giving, t], 1);
    let params = seq![(name, Some(t))];
    let taking = Ty::DocFunction(Box::new(FunctionTy { params, ret: leaf, ..f }));
    assert(params.skip(1) =~= none);
    assert(traverse::preorder_opt(Some(t)) =~= inner);
    assert(traverse::preorder_named(params) =~= inner);
    assert(traverse::nested(taking) =~= seq![t, leaf]);
    assert(traverse::preorder(taking) =~= seq![taking, t, leaf]);
    lemma_holds(seq![taking, t, leaf], 1);
}

/// A list with a template at a place, and none anywhere else, holds one only if that is one.
proof fn lemma_holds(types: Seq<Ty>, i: int)
    requires
        0 <= i < types.len(),
        forall|j: int| 0 <= j < types.len() && j != i ==> !traverse::is_tpl_node(#[trigger] types[j]),
    ensures
        traverse::holds_tpl(types) == traverse::is_tpl_node(types[i]),
{
    if traverse::is_tpl_node(types[i]) {
        assert(traverse::holds_tpl(types));
    }
}

/// Numbers are equal by value: the two zeros are one, and what is no number equals nothing.
pub proof fn numbers_are_equal_by_value(a: u64, b: u64)
    ensures
        basic::float_eq(0, 0x8000_0000_0000_0000),
        basic::float_is_nan(a) ==> !basic::float_eq(a, b) && !basic::float_eq(b, a) && !basic::float_eq(a, a),
        !basic::float_is_nan(a) ==> basic::float_eq(a, a),
        basic::float_eq(a, b) ==> a == b || (a as int % 0x8000_0000_0000_0000 == 0 && b as int
            % 0x8000_0000_0000_0000 == 0),
{
}

} // verus!
