//! What expressions are known to be.

use vstd::prelude::*;

use crate::db;
use crate::db::{DbTy, DeclTy, ItemTy, OwnerTy};
use crate::flow::query::VarRefId;
use crate::infer::{expected, expr, methods, operator, or_rule, range, table};
use crate::infer::expected::{FieldPlace, TablePlace};
use crate::infer::or_rule::OrSide;
use crate::infer::range::BoundExpr;
use crate::infer::table::ListField;
use crate::laws::{fitting, indexing, joining};
use crate::member::raw::InferFailReason;
use crate::type_check::assignable;
use crate::types::{
    ArrayTy, FunctionTy, InFiled, KeyTy, LuaArrayLen, LuaTupleStatus, LuaType, ObjectTy, TupleTy,
    Ty, UnionTy, VariadicTy, complex, predicates,
};

verus! {

/// `or` yields its left side where that is there, its right side where the left is nil or false, and
/// else either, the left without nil.
pub proof fn or_yields_what_is_there(t: Ty, right: Ty)
    requires
        joining::is_there(t),
    ensures
        or_rule::or_type(t, right) == t,
        or_rule::or_type(Ty::Nil, right) == right,
        or_rule::or_type(Ty::BooleanConst(false), right) == right,
        or_rule::or_type(Ty::Union(Box::new(UnionTy::Nullable(t))), right) == db::union_ty(t, right),
        or_rule::or_type(Ty::Boolean, right) == db::union_ty(Ty::BooleanConst(true), right),
{
    joining::truth_of_single_types(t);
    truth_of_single_parts(t);
    let u = UnionTy::Nullable(t);
    joining::truth_of_unions(u);
    assert(complex::union_tys(u)[0] == t && complex::union_tys(u)[1] == Ty::Nil);
}

/// What is left of a type where the value is there, and where it is nil or false.
pub proof fn truth_of_single_parts(t: Ty)
    requires
        joining::is_there(t),
    ensures
        or_rule::truthy_ty(t) == t,
        or_rule::truthy_ty(Ty::Union(Box::new(UnionTy::Nullable(t)))) == t,
        or_rule::truthy_ty(Ty::Boolean) == Ty::BooleanConst(true),
        or_rule::falsy_ty(t) == Ty::Never,
        or_rule::falsy_ty(Ty::Nil) == Ty::Nil,
        or_rule::falsy_ty(Ty::Boolean) == Ty::BooleanConst(false),
        or_rule::falsy_ty(Ty::Union(Box::new(UnionTy::Nullable(t)))) == Ty::Nil,
{
    joining::truth_of_single_types(t);
    let members = seq![t, Ty::Nil];
    reveal_with_fuel(or_rule::truthy_parts, 3);
    reveal_with_fuel(or_rule::falsy_parts, 3);
    assert(members.drop_last() =~= seq![t]);
    assert(seq![t].drop_last() =~= Seq::<Ty>::empty());
    assert(complex::union_tys(UnionTy::Nullable(t)) == members);
    assert(or_rule::truthy_parts(members) =~= seq![t]);
    assert(or_rule::falsy_parts(members) =~= seq![Ty::Nil]);
}

/// The part of a union that is there is made of the members that are there, and the other part of
/// the others.
pub proof fn truth_splits_a_union(types: Seq<Ty>, i: int)
    requires
        0 <= i < types.len(),
        joining::is_there(types[i]) || types[i] is Nil,
    ensures
        joining::is_there(types[i]) ==> or_rule::truthy_parts(types).contains(types[i]),
        types[i] is Nil ==> or_rule::falsy_parts(types).contains(types[i]),
        !or_rule::truthy_parts(types).contains(Ty::Nil),
        joining::is_there(types[i]) ==> !or_rule::falsy_parts(types).contains(types[i]),
    decreases types.len(),
{
    lemma_truthy_parts(types);
    lemma_falsy_parts(types);
    if joining::is_there(types[i]) {
        joining::truth_of_single_types(types[i]);
        assert(or_rule::truthy_part(types[i]) == Some(types[i]));
    } else {
        joining::truth_of_single_types(Ty::String);
        assert(or_rule::falsy_part(types[i]) == Some(types[i]));
    }
}

proof fn lemma_truthy_parts(types: Seq<Ty>)
    ensures
        forall|i: int|
            0 <= i < types.len() ==> (or_rule::truthy_part(#[trigger] types[i]) matches Some(t)
                ==> or_rule::truthy_parts(types).contains(t)),
        forall|j: int| 0 <= j < or_rule::truthy_parts(types).len() ==> !((#[trigger] or_rule::truthy_parts(types)[j]) is Nil),
    decreases types.len(),
{
    if types.len() > 0 {
        let front = types.drop_last();
        lemma_truthy_parts(front);
        let before = or_rule::truthy_parts(front);
        let all = or_rule::truthy_parts(types);
        assert forall|i: int| 0 <= i < types.len() implies (or_rule::truthy_part(#[trigger] types[i]) matches Some(
            t,
        ) ==> all.contains(t)) by {
            if let Some(t) = or_rule::truthy_part(types[i]) {
                if i < front.len() {
                    assert(front[i] == types[i]);
                    let k = choose|k: int| 0 <= k < before.len() && before[k] == t;
                    assert(all[k] == t);
                } else {
                    assert(all[all.len() - 1] == t);
                }
            }
        }
    }
}

proof fn lemma_falsy_parts(types: Seq<Ty>)
    ensures
        forall|i: int|
            0 <= i < types.len() ==> (or_rule::falsy_part(#[trigger] types[i]) matches Some(t)
                ==> or_rule::falsy_parts(types).contains(t)),
        forall|j: int| 0 <= j < or_rule::falsy_parts(types).len() ==> !joining::is_there(#[trigger] or_rule::falsy_parts(types)[j]),
    decreases types.len(),
{
    if types.len() > 0 {
        let front = types.drop_last();
        lemma_falsy_parts(front);
        let before = or_rule::falsy_parts(front);
        let all = or_rule::falsy_parts(types);
        if joining::is_there(types.last()) {
            joining::truth_of_single_types(types.last());
        }
        assert forall|i: int| 0 <= i < types.len() implies (or_rule::falsy_part(#[trigger] types[i]) matches Some(
            t,
        ) ==> all.contains(t)) by {
            if let Some(t) = or_rule::falsy_part(types[i]) {
                if i < front.len() {
                    assert(front[i] == types[i]);
                    let k = choose|k: int| 0 <= k < before.len() && before[k] == t;
                    assert(all[k] == t);
                } else {
                    assert(all[all.len() - 1] == t);
                }
            }
        }
    }
}

/// Where the right side of `or` raises an error the left one is there; where it is an empty table, the
/// left one is there if an empty table may be of its type.
pub proof fn or_with_a_stand_in(
    db: DbTy,
    t: Ty,
    right: Ty,
    side: OrSide,
)
    requires
        joining::is_there(t),
    ensures
        or_rule::special_or(
            db,
            Ty::Union(Box::new(UnionTy::Nullable(t))),
            right,
            side,
            OrSide::ErrorCall,
        ) == Some(t),
        or_rule::special_or(
            db,
            Ty::Union(Box::new(UnionTy::Nullable(Ty::Table))),
            right,
            side,
            OrSide::EmptyTable,
        ) == Some(Ty::Table),
        !assignable::fits(db, Ty::Table, t) ==> or_rule::special_or(
            db,
            Ty::Union(Box::new(UnionTy::Nullable(t))),
            right,
            side,
            OrSide::EmptyTable,
        ) is None,
        assignable::fits(db, right, t) ==> or_rule::special_or(
            db,
            Ty::Union(Box::new(UnionTy::Nullable(t))),
            right,
            side,
            OrSide::Table,
        ) == Some(t),
        !assignable::fits(db, right, t) ==> or_rule::special_or(
            db,
            Ty::Union(Box::new(UnionTy::Nullable(t))),
            right,
            side,
            OrSide::Table,
        ) is None,
        or_rule::special_or(db, t, right, side, OrSide::Other) is None,
{
    truth_of_single_parts(t);
    truth_of_single_parts(Ty::Table);
    fitting::value_fits_at_a_glance(db, assignable::nothing_kept(), Ty::Table, Ty::Table, false);
}

/// An empty table is of a class unless a member of it has to be given.
pub proof fn empty_table_lacks_required_members(
    db: DbTy,
    id: Seq<char>,
    decl: DeclTy,
    items: Seq<ItemTy>,
    i: int,
)
    requires
        db::decl_of(db, id) == Some(decl),
        decl.super_types.len() == 0,
        db::items_of(db, OwnerTy::Type(id)) == items,
    ensures
        0 <= i < items.len() && items[i].types.len() == 1 && joining::is_there(items[i].types[0])
            ==> !or_rule::allows_empty(db, Ty::Ref(id)),
        (forall|j: int|
            0 <= j < items.len() ==> (#[trigger] items[j]).types.len() == 1 && predicates::ty_is_optional(
                items[j].types[0],
            )) ==> or_rule::allows_empty(db, Ty::Ref(id)),
        or_rule::allows_empty(db, Ty::Table),
        !or_rule::allows_empty(db, Ty::String),
{
    reveal_with_fuel(or_rule::requires_any, 2);
    reveal_with_fuel(or_rule::some_requires, 2);
    if 0 <= i < items.len() && items[i].types.len() == 1 && joining::is_there(items[i].types[0]) {
        joining::truth_of_single_types(items[i].types[0]);
        assert(!predicates::ty_is_optional(items[i].types[0]));
        assert(or_rule::is_required_item(items[i]));
        assert(or_rule::requires_fields(db, id));
    }
    if forall|j: int|
        0 <= j < items.len() ==> (#[trigger] items[j]).types.len() == 1 && predicates::ty_is_optional(
            items[j].types[0],
        ) {
        assert forall|j: int| 0 <= j < items.len() implies !or_rule::is_required_item(#[trigger] items[j]) by {
            assert(predicates::ty_is_optional(items[j].types[0]));
        }
        assert(!or_rule::requires_fields(db, id));
    }
}

/// An index expression is the member, or what the flow of control leaves of it; a safe one on what may
/// be nil may be nil.
pub proof fn index_expression_is_the_member(
    member: Ty,
    narrowed: Ty,
    prefix: Ty,
    reason: InferFailReason,
)
    requires
        joining::is_there(prefix),
    ensures
        expr::indexed(member, None, false, prefix) == Ok::<Ty, InferFailReason>(member),
        expr::indexed(member, Some(Ok(narrowed)), false, prefix) == Ok::<Ty, InferFailReason>(narrowed),
        expr::indexed(member, Some(Err(InferFailReason::Unsupported)), false, prefix) == Ok::<
            Ty,
            InferFailReason,
        >(member),
        reason != InferFailReason::Unsupported ==> expr::indexed(member, Some(Err(reason)), true, prefix)
            == Err::<Ty, InferFailReason>(reason),
        expr::indexed(member, None, true, prefix) == Ok::<Ty, InferFailReason>(member),
        expr::indexed(member, None, true, Ty::Union(Box::new(UnionTy::Nullable(prefix)))) == Ok::<
            Ty,
            InferFailReason,
        >(db::union_ty(member, Ty::Nil)),
        expr::indexed(member, None, false, Ty::Union(Box::new(UnionTy::Nullable(prefix)))) == Ok::<
            Ty,
            InferFailReason,
        >(member),
{
    joining::truth_of_single_types(prefix);
}

/// An index stays within an array where it runs up to the length of that array, or down from it.
pub proof fn loop_to_the_length_stays_within(
    array: VarRefId,
    other: VarRefId,
    from: BoundExpr,
    by: BoundExpr,
    n: i64,
)
    requires
        other != array,
    ensures
        ({
            let own = BoundExpr::Length(Some(array));
            &&& range::upper_bound(seq![from, own], None) == Some(own)
            &&& n > 0 ==> range::upper_bound(seq![from, own, by], Some(Ty::IntegerConst(n))) == Some(own)
            &&& n < 0 ==> range::upper_bound(seq![own, from, by], Some(Ty::IntegerConst(n))) == Some(own)
            &&& range::upper_bound(seq![from, own, by], None) is None
            &&& range::is_length_of(own, Some(array)) == Some(true)
            &&& range::is_length_of(own, Some(other)) == Some(false)
            &&& range::is_length_of(BoundExpr::Other, Some(array)) is None
        }),
{
}

/// A list of two values is a tuple of them; one that starts with the rest of the arguments is an array.
pub proof fn list_is_a_tuple_of_its_values(
    db: DbTy,
    a: ListField,
    b: ListField,
)
    requires
        !a.is_dots,
        !(a.typ@ is Variadic),
        !(b.typ@ is Variadic),
    ensures
        table::list_type(db, seq![a, b]) == Ty::Tuple(
            Box::new(
                TupleTy { types: seq![a.typ@, b.typ@], status: LuaTupleStatus::InferResolve },
            ),
        ),
{
    let types = table::field_types(seq![a, b]);
    assert(types =~= seq![a.typ@, b.typ@]);
    assert(types.last() == b.typ@);
    let front = types.drop_last();
    assert(front =~= seq![a.typ@]);
    assert(front.drop_last() =~= Seq::<Ty>::empty());
    assert(table::flat_list(Seq::<Ty>::empty()) =~= Seq::<Ty>::empty());
    assert(table::flat_list(front) =~= seq![a.typ@]);
    assert(table::flat_list(types) =~= seq![a.typ@, b.typ@]);
}

/// The rest of the arguments makes an array, a run of known values a tuple.
pub proof fn list_of_a_run(t: Ty, base: Ty, types: Seq<Ty>)
    requires
        !(t is Variadic),
    ensures
        ({
            let array = |x: Ty| Ty::Array(
                Box::new(ArrayTy { base: x, len: LuaArrayLen::Unbounded }),
            );
            &&& table::dots_type(t) == array(t)
            &&& table::dots_type(Ty::Variadic(Box::new(VariadicTy::Base(base)))) == array(base)
            &&& table::dots_type(Ty::Variadic(Box::new(VariadicTy::Multi(types)))) == Ty::Tuple(
                Box::new(TupleTy { types, status: LuaTupleStatus::InferResolve }),
            )
        }),
{
}

/// A table that is passed is expected to be of the type of its parameter.
pub proof fn passed_table_is_of_its_parameter(
    db: DbTy,
    f: FunctionTy,
    i: nat,
    t: Ty,
)
    ensures
        i < f.params.len() && f.params[i as int].1 == Some(t) && !(t is Union) ==> expected::expected_argument(
            db,
            f,
            i,
        ) == Ok::<Ty, InferFailReason>(t),
        i < f.params.len() && f.params[i as int].1 is None ==> expected::expected_argument(db, f, i) == Ok::<
            Ty,
            InferFailReason,
        >(Ty::Any),
        i >= f.params.len() ==> expected::expected_argument(db, f, i) is Err,
        f.is_colon_define ==> expected::argument_place(f, i + 1, false) == i && expected::argument_place(f, i, true) == i,
        !f.is_colon_define ==> expected::argument_place(f, i, false) == i && expected::argument_place(f, i, true) == i
            + 1,
{
}

/// A function is a method if it is written as one or takes itself first.
pub proof fn method_takes_its_receiver(db: DbTy, f: FunctionTy, id: Seq<char>, name: Seq<char>)
    requires
        f.params == seq![(name, Some(Ty::String))],
    ensures
        f.is_colon_define ==> methods::takes_receiver(db, f, None),
        !f.is_colon_define ==> methods::takes_receiver(db, f, None) == (name == "self"@),
        !f.is_colon_define ==> !methods::takes_receiver(db, f, Some(Ty::Ref(id))),
        methods::takes_receiver(
            db,
            FunctionTy { params: seq![(name, Some(Ty::SelfInfer))], ..f },
            None,
        ),
        !f.is_colon_define ==> !methods::takes_receiver(
            db,
            FunctionTy { params: Seq::empty(), ..f },
            Some(Ty::Ref(id)),
        ),
{
    assert(f.params[0] == (name, Some(Ty::String)));
}

/// A written literal stands in a type as a literal of the type.
pub proof fn literal_is_documented(i: i64, s: Seq<char>, t: Ty)
    requires
        joining::is_there(t) && !(t is IntegerConst) && !(t is StringConst),
    ensures
        methods::documented(Ty::IntegerConst(i)) == Ty::DocIntegerConst(i),
        methods::documented(Ty::StringConst(s)) == Ty::DocStringConst(s),
        methods::documented(t) == t,
{
}

/// An object with fields 1 and 2 is an array of their types, and one with an index for integers an
/// array of its values.
pub proof fn object_of_places_is_an_array(a: Ty, b: Ty, name: Seq<char>)
    ensures
        ({
            let one = KeyTy::Integer(1);
            let two = KeyTy::Integer(2);
            let none = Seq::<(Ty, Ty)>::empty();
            &&& methods::array_base(ObjectTy { fields: seq![(one, a), (two, b)], index_access: none })
                == Some(db::union_ty(a, b))
            &&& methods::array_base(ObjectTy { fields: seq![(two, b), (one, a)], index_access: none })
                == Some(db::union_ty(a, b))
            &&& methods::array_base(
                ObjectTy { fields: seq![(KeyTy::Name(name), a)], index_access: none },
            ) is None
            &&& methods::array_base(
                ObjectTy { fields: Seq::empty(), index_access: seq![(Ty::Integer, a)] },
            ) == Some(a)
            &&& methods::array_base(
                ObjectTy { fields: Seq::empty(), index_access: seq![(Ty::String, a)] },
            ) is None
        }),
{
    let one = KeyTy::Integer(1);
    let two = KeyTy::Integer(2);
    let x = seq![(one, a), (two, b)];
    let y = seq![(two, b), (one, a)];
    indexing::lemma_first_field(x, one, 0);
    indexing::lemma_first_field(x, two, 1);
    indexing::lemma_first_field(y, one, 1);
    indexing::lemma_first_field(y, two, 0);
    indexing::lemma_no_field(seq![(KeyTy::Name(name), a)], one);
    reveal_with_fuel(methods::place_values, 3);
    reveal_with_fuel(methods::integer_values, 2);
    assert(seq![(Ty::Integer, a)].drop_last() =~= Seq::<(Ty, Ty)>::empty());
    assert(seq![(Ty::String, a)].drop_last() =~= Seq::<(Ty, Ty)>::empty());
}

/// A written table may be of a table type, and not of a plain value or nil.
pub proof fn written_table_is_no_plain_value(db: DbTy, o: ObjectTy, a: ArrayTy, room: nat)
    requires
        room > 0,
    ensures
        table::may_be_table(db, Ty::Table, room),
        table::may_be_table(db, Ty::Object(Box::new(o)), room),
        table::may_be_table(db, Ty::Array(Box::new(a)), room),
        !table::may_be_table(db, Ty::String, room),
        !table::may_be_table(db, Ty::Integer, room),
        !table::may_be_table(db, Ty::Boolean, room),
        !table::may_be_table(db, Ty::Function, room),
        !table::may_be_table(db, Ty::Nil, room),
{
}

/// What is known of a place is what a table in it is expected to be; a table that is returned without
/// more being known is itself.
pub proof fn table_is_expected_to_be_what_its_place_is(
    db: DbTy,
    declared: TablePlace,
    assigned: TablePlace,
    returned: TablePlace,
    t: LuaType,
    range: InFiled,
)
    requires
        !(t@ is TableConst),
        declared == TablePlace::Declared(Ok(t)),
        assigned == TablePlace::Assigned(Ok(t)),
        returned == (TablePlace::Returned { known: None, range }),
    ensures
        expected::expected_table(db, declared) == Ok::<Ty, InferFailReason>(t@),
        expected::expected_table(db, assigned) == Ok::<Ty, InferFailReason>(t@),
        expected::expected_table(db, returned) == Ok::<Ty, InferFailReason>(Ty::TableConst(range)),
        expected::expected_table(db, TablePlace::Other) is Err,
{
}

/// The value of a field is expected to be what the expected table has under its key.
pub proof fn field_is_expected_to_be_its_member(db: DbTy, field: FieldPlace, parent: Ty, t: Ty)
    requires
        expected::expected_table(db, field.parent) == Ok::<Ty, InferFailReason>(parent),
        operator::member_or_index(db, parent, field.lookup@) == Ok::<Ty, InferFailReason>(t),
    ensures
        expected::expected_field_value(db, field) == Ok::<Ty, InferFailReason>(t),
        field.known is None && field.is_value_field ==> expected::expected_field(db, field) == Ok::<
            Ty,
            InferFailReason,
        >(t),
        field.known is None && !field.is_value_field ==> expected::expected_field(db, field) is Err,
{
}

/// A literal on the right side of `or` only makes sure that there is a value, where it fits a variable
/// on the left.
pub proof fn or_with_a_literal(db: DbTy, t: Ty, right: Ty)
    requires
        joining::is_there(t),
        !(right is Nil),
    ensures
        ({
            let left = Ty::Union(Box::new(UnionTy::Nullable(t)));
            &&& assignable::fits(db, right, left) ==> or_rule::special_or(
                db,
                left,
                right,
                OrSide::Name,
                OrSide::Literal,
            ) == Some(t)
            &&& !assignable::fits(db, right, left) ==> or_rule::special_or(
                db,
                left,
                right,
                OrSide::Name,
                OrSide::Literal,
            ) is None
            &&& or_rule::special_or(db, left, right, OrSide::Other, OrSide::Literal) is None
            &&& or_rule::special_or(db, left, Ty::Nil, OrSide::Name, OrSide::Literal) is None
        }),
{
    truth_of_single_parts(t);
}

} // verus!
