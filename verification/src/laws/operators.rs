//! What operators on types yield.

use vstd::prelude::*;

use crate::db;
use crate::db::{DbTy, TablesTy};
use crate::generic::{special, substitutor};
use crate::laws::{conditions, members};
use crate::member::{collect, raw};
use crate::type_check::assignable;
use crate::types::{
    ArrayTy, CallTy, GenericTplId, KeyTy, LuaAliasCallKind, LuaArrayLen, ObjectTy, TupleTy, Ty,
    UnionTy, VariadicTy, complex, equality, equivalence, traverse,
};

verus! {

/// Adding two types gives their union, taking one away leaves the rest, and asking whether one extends
/// the other answers with a truth value.
pub proof fn binary_operators_on_types(
    db: DbTy,
    a: Ty,
    b: Ty,
    m: Seq<(GenericTplId, Ty)>,
)
    ensures
        ({
            let s = db::evaluated(db, a, m);
            let t = db::evaluated(db, b, m);
            let call = |kind: LuaAliasCallKind| special::call_type(
                db,
                CallTy { call_kind: kind, operand: seq![a, b] },
                m,
            );
            &&& call(LuaAliasCallKind::Add) == db::union_ty(s, t)
            &&& call(LuaAliasCallKind::Sub) == db::remove_ty(s, t)
            &&& call(LuaAliasCallKind::Select) == special::selected(s, t)
            &&& !traverse::holds_tpl(traverse::preorder(s)) && !traverse::holds_tpl(traverse::preorder(t)) ==> call(LuaAliasCallKind::Extends)
                == Ty::BooleanConst(assignable::surely_fits(db, s, t))
        }),
{
    let operands = db::evaluated_all(db, seq![a, b], m);
    assert(operands =~= seq![db::evaluated(db, a, m), db::evaluated(db, b, m)]);
    assert(operands[0] == db::evaluated(db, a, m) && operands[1] == db::evaluated(db, b, m));
}

// ----------------------------------------------------------------------------
// Runs of values.

/// None of the types is a run of values itself.
pub open spec fn none_is_run(types: Seq<Ty>) -> bool {
    forall|i: int| 0 <= i < types.len() ==> !((#[trigger] types[i]) is Variadic)
}

proof fn lemma_min_len(types: Seq<Ty>)
    requires
        none_is_run(types),
    ensures
        complex::min_len_of(types) == types.len(),
        complex::max_len_of(types) == Some(types.len()),
    decreases types.len(),
{
    if types.len() > 0 {
        assert(!(types[0] is Variadic));
        let rest = types.skip(1);
        assert(none_is_run(rest)) by {
            assert forall|i: int| 0 <= i < rest.len() implies !((#[trigger] rest[i]) is Variadic) by {
                assert(rest[i] == types[i + 1]);
            }
        }
        lemma_min_len(rest);
    }
}

/// A run holds as many values as it lists, and the value of each place at that place.
pub proof fn run_holds_what_it_lists(types: Seq<Ty>, i: nat)
    requires
        none_is_run(types),
    ensures
        complex::variadic_min_len(VariadicTy::Multi(types)) == Some(types.len()),
        complex::variadic_max_len(VariadicTy::Multi(types)) == Some(types.len()),
        i < types.len() ==> complex::variadic_at(VariadicTy::Multi(types), i) == Some(types[i as int]),
        i >= types.len() ==> complex::variadic_at(VariadicTy::Multi(types), i) is None,
        i < types.len() ==> complex::variadic_from(VariadicTy::Multi(types), i) == VariadicTy::Multi(
            types.skip(i as int),
        ),
        i < types.len() ==> complex::tuple_at(types, i) == Some(types[i as int]),
{
    lemma_min_len(types);
    reveal_with_fuel(complex::variadic_at, 2);
    reveal_with_fuel(complex::types_at, 2);
    if types.len() > 0 {
        assert(!(types[types.len() - 1] is Variadic));
    }
}

/// A repeated value is there at every place, and any number of them will do.
pub proof fn repeated_value_never_ends(t: Ty, i: nat)
    ensures
        complex::variadic_at(VariadicTy::Base(t), i) == Some(t),
        complex::variadic_from(VariadicTy::Base(t), i) == VariadicTy::Base(t),
        complex::variadic_min_len(VariadicTy::Base(t)) is None,
        complex::variadic_max_len(VariadicTy::Base(t)) is None,
{
}

/// `select` yields the values from a place on, counted from one or from the end; `select` of `#` their
/// number; nothing is known of place zero.
pub proof fn select_yields_the_values_from_a_place(types: Seq<Ty>, i: i64)
    requires
        none_is_run(types),
        types.len() <= i64::MAX && types.len() <= usize::MAX,
    ensures
        ({
            let run = Ty::Variadic(Box::new(VariadicTy::Multi(types)));
            &&& 1 <= i <= types.len() ==> special::selected(run, Ty::IntegerConst(i)) == Ty::Variadic(
                Box::new(VariadicTy::Multi(types.skip(i - 1))),
            )
            &&& -types.len() <= i <= -1 ==> special::selected(run, Ty::IntegerConst(i)) == Ty::Variadic(
                Box::new(VariadicTy::Multi(types.skip(types.len() + i))),
            )
            &&& special::selected(run, Ty::IntegerConst(0)) == Ty::Unknown
            &&& special::selected(run, Ty::StringConst("#"@)) == Ty::IntegerConst(types.len() as i64)
            &&& special::selected(run, Ty::DocStringConst("#"@)) == Ty::IntegerConst(types.len() as i64)
        }),
{
    lemma_min_len(types);
}

/// `unpack` of a tuple yields its elements, from a place on where one is given; of an array, elements
/// that may be missing, and of a table its values.
pub proof fn unpack_yields_the_elements(
    db: DbTy,
    x: TupleTy,
    i: i64,
    base: Ty,
    keys: Ty,
    len: LuaArrayLen,
)
    ensures
        ({
            let tuple = Ty::Tuple(Box::new(x));
            let all = Ty::Variadic(Box::new(VariadicTy::Multi(x.types)));
            let each = Ty::Variadic(Box::new(VariadicTy::Base(db::union_ty(base, Ty::Nil))));
            &&& special::unpacked(db, seq![tuple]) == all
            &&& special::unpacked(db, seq![tuple, Ty::IntegerConst(1)]) == all
            &&& 1 < i <= x.types.len() ==> special::unpacked(db, seq![tuple, Ty::IntegerConst(i)])
                == Ty::Variadic(Box::new(VariadicTy::Multi(x.types.skip(i - 1))))
            &&& special::unpacked(db, seq![Ty::Array(Box::new(ArrayTy { base, len }))]) == each
            &&& special::unpacked(db, seq![Ty::TableGeneric(seq![keys, base])]) == each
            &&& special::unpacked(db, Seq::empty()) == Ty::Unknown
        }),
{
}

// ----------------------------------------------------------------------------
// Members by operators.

/// Indexing a type by a literal yields the member; where there is none, nothing can be there, and a raw
/// read is unknown.
pub proof fn index_operator_reads_the_member(
    db: DbTy,
    owner: Ty,
    s: Seq<char>,
    i: i64,
)
    requires
        !(owner is Unknown),
        !(owner is Variadic),
    ensures
        raw::raw_type(db, owner, KeyTy::Name(s)) is Ok ==> {
            &&& special::indexed_type(db, owner, Ty::StringConst(s)) == raw::raw_type(db, owner, KeyTy::Name(s))->Ok_0
            &&& special::indexed_type(db, owner, Ty::DocStringConst(s)) == raw::raw_type(
                db,
                owner,
                KeyTy::Name(s),
            )->Ok_0
            &&& special::read_member(db, owner, Ty::DocStringConst(s), false) == raw::raw_type(
                db,
                owner,
                KeyTy::Name(s),
            )->Ok_0
        },
        raw::raw_type(db, owner, KeyTy::Name(s)) is Err ==> {
            &&& special::indexed_type(db, owner, Ty::DocStringConst(s)) == Ty::Never
            &&& special::read_member(db, owner, Ty::DocStringConst(s), false) == Ty::Unknown
        },
        raw::raw_type(db, owner, KeyTy::Integer(i)) is Ok ==> special::indexed_type(
            db,
            owner,
            Ty::DocIntegerConst(i),
        ) == raw::raw_type(db, owner, KeyTy::Integer(i))->Ok_0,
        special::indexed_type(db, owner, Ty::String) == Ty::Never,
{
}

/// Indexing by a choice of keys yields a choice of what each key yields.
pub proof fn index_by_a_choice_of_keys(db: DbTy, owner: Ty, a: Ty, b: Ty, indexing: bool)
    ensures
        special::read_member(db, owner, Ty::Union(Box::new(UnionTy::Multi(seq![a, b]))), indexing)
            == db::union_ty(
            db::union_ty(Ty::Never, special::read_member(db, owner, a, indexing)),
            special::read_member(db, owner, b, indexing),
        ),
{
    let keys = seq![a, b];
    assert(keys.drop_last() =~= seq![a]);
    assert(seq![a].drop_last() =~= Seq::<Ty>::empty());
    assert(special::read_all(db, owner, Seq::<Ty>::empty(), indexing) == Ty::Never);
    assert(special::read_all(db, owner, seq![a], indexing) == db::union_ty(
        Ty::Never,
        special::read_member(db, owner, a, indexing),
    ));
    assert(keys.last() == b && seq![a].last() == a);
    assert(special::read_all(db, owner, keys, indexing) == db::union_ty(
        special::read_all(db, owner, seq![a], indexing),
        special::read_member(db, owner, b, indexing),
    ));
    assert(special::read_member(db, owner, Ty::Union(Box::new(UnionTy::Multi(keys))), indexing)
        == special::read_all(db, owner, keys, indexing));
}

/// A run of values is indexed by places counted from zero.
pub proof fn run_is_indexed_by_places(db: DbTy, types: Seq<Ty>, base: Ty, i: i64)
    ensures
        ({
            let run = Ty::Variadic(Box::new(VariadicTy::Multi(types)));
            let repeated = Ty::Variadic(Box::new(VariadicTy::Base(base)));
            &&& 0 <= i < types.len() ==> special::indexed_type(db, run, Ty::IntegerConst(i))
                == types[i as int]
            &&& i < 0 || i >= types.len() ==> special::indexed_type(db, run, Ty::IntegerConst(i)) == Ty::Never
            &&& special::indexed_type(db, repeated, Ty::IntegerConst(i)) == base
        }),
{
}

proof fn lemma_literal_names(members: Seq<(KeyTy, Ty)>)
    requires
        forall|i: int| 0 <= i < members.len() ==> (#[trigger] members[i]).0 is Name,
    ensures
        special::literal_types(members).len() == members.len(),
        forall|i: int|
            0 <= i < members.len() ==> #[trigger] special::literal_types(members)[i] == Ty::DocStringConst(
                members[i].0->Name_0,
            ),
    decreases members.len(),
{
    if members.len() > 0 {
        let front = members.drop_last();
        assert forall|i: int| 0 <= i < front.len() implies (#[trigger] front[i]).0 is Name by {
            assert(front[i] == members[i]);
        }
        lemma_literal_names(front);
        assert(members[members.len() - 1].0 is Name);
        assert forall|i: int| 0 <= i < members.len() implies #[trigger] special::literal_types(members)[i]
            == Ty::DocStringConst(members[i].0->Name_0) by {
            if i < front.len() {
                assert(special::literal_types(front)[i] == Ty::DocStringConst(front[i].0->Name_0));
            }
        }
    }
}

/// The keys of an object are the names of its fields, as literals.
pub proof fn keys_of_an_object_are_its_names(
    db: DbTy,
    o: ObjectTy,
    operand: Ty,
    m: Seq<(GenericTplId, Ty)>,
)
    requires
        o.index_access.len() == 0,
        equivalence::has_plain_keys(o.fields),
        forall|i: int| 0 <= i < o.fields.len() ==> (#[trigger] o.fields[i]).0 is Name,
        db::evaluated(db, operand, m) == Ty::Object(Box::new(o)),
    ensures
        special::keyed_members(db, Ty::Object(Box::new(o))) == Some(o.fields),
        special::call_type(db, CallTy { call_kind: LuaAliasCallKind::KeyOf, operand: seq![operand] }, m)
            == db::union_all_ty(
            Seq::new(o.fields.len(), |i: int| Ty::DocStringConst(o.fields[i].0->Name_0)),
        ),
{
    let t = Ty::Object(Box::new(o));
    let keyed = special::keyed_members(db, t).unwrap();
    if o.fields.len() > 0 {
        members::object_has_its_fields(db, o, 0);
    } else {
        reveal_with_fuel(collect::field_members, 2);
    }
    assert forall|i: int| 0 <= i < o.fields.len() implies #[trigger] keyed[i] == o.fields[i] by {
        members::object_has_its_fields(db, o, i);
    }
    assert(keyed =~= o.fields);
    lemma_literal_names(o.fields);
    let names = Seq::new(o.fields.len(), |i: int| Ty::DocStringConst(o.fields[i].0->Name_0));
    assert(special::literal_types(o.fields) =~= names);
    assert(db::evaluated_all(db, seq![operand], m)[0] == t);
}

proof fn lemma_put_over(fields: Seq<(KeyTy, Ty)>, key: KeyTy, value: Ty, other: KeyTy)
    requires
        !(key is TypeKey),
        !(other is TypeKey),
    ensures
        complex::first_field(complex::put_field(fields, key, value), key) == Some(value),
        key != other ==> complex::first_field(complex::put_field(fields, key, value), other) == complex::first_field(
            fields,
            other,
        ),
    decreases fields.len(),
{
    let after = complex::put_field(fields, key, value);
    if fields.len() == 0 {
        reveal_with_fuel(complex::first_field, 2);
        assert(after.skip(1) =~= Seq::<(KeyTy, Ty)>::empty());
    } else if equality::key_eq(fields[0].0, key) {
        assert(after[0] == (fields[0].0, value));
        assert(after.skip(1) =~= fields.skip(1));
    } else {
        assert(after[0] == fields[0]);
        assert(after.skip(1) =~= complex::put_field(fields.skip(1), key, value));
        lemma_put_over(fields.skip(1), key, value, other);
    }
}

proof fn lemma_overlaid(left: Seq<(KeyTy, Ty)>, right: Seq<(KeyTy, Ty)>, key: KeyTy)
    requires
        !(key is TypeKey),
        forall|i: int| 0 <= i < right.len() ==> !((#[trigger] right[i]).0 is TypeKey),
    ensures
        (forall|i: int| 0 <= i < right.len() ==> (#[trigger] right[i]).0 != key) ==> complex::first_field(
            special::overlaid(left, right),
            key,
        ) == complex::first_field(left, key),
        forall|i: int|
            0 <= i < right.len() && (#[trigger] right[i]).0 == key && (forall|j: int|
                i < j < right.len() ==> (#[trigger] right[j]).0 != key) ==> complex::first_field(
                special::overlaid(left, right),
                key,
            ) == Some(right[i].1),
    decreases right.len(),
{
    if right.len() > 0 {
        let front = right.drop_last();
        let last = right[right.len() - 1];
        assert(!(last.0 is TypeKey));
        assert forall|i: int| 0 <= i < front.len() implies !((#[trigger] front[i]).0 is TypeKey) by {
            assert(front[i] == right[i]);
        }
        lemma_overlaid(left, front, key);
        lemma_put_over(special::overlaid(left, front), last.0, last.1, key);
        assert forall|i: int| 0 <= i < front.len() implies #[trigger] front[i] == right[i] by {}
        if forall|i: int| 0 <= i < right.len() ==> (#[trigger] right[i]).0 != key {
            assert(last.0 != key);
            assert forall|i: int| 0 <= i < front.len() implies (#[trigger] front[i]).0 != key by {
                assert(right[i].0 != key);
            }
        }
        assert forall|i: int|
            0 <= i < right.len() && (#[trigger] right[i]).0 == key && (forall|j: int|
                i < j < right.len() ==> (#[trigger] right[j]).0 != key) implies complex::first_field(
            special::overlaid(left, right),
            key,
        ) == Some(right[i].1) by {
            if i < front.len() {
                assert(right[right.len() - 1].0 != key);
                assert(front[i] == right[i]);
                assert forall|j: int| i < j < front.len() implies (#[trigger] front[j]).0 != key by {
                    assert(right[j].0 != key);
                }
            }
        }
    }
}

proof fn lemma_named_fields(members: Seq<(KeyTy, Ty)>)
    requires
        forall|i: int| 0 <= i < members.len() ==> !((#[trigger] members[i]).0 is TypeKey),
    ensures
        special::named_fields(members) == members,
        special::typed_fields(members) == Seq::<(Ty, Ty)>::empty(),
    decreases members.len(),
{
    if members.len() > 0 {
        let front = members.drop_last();
        assert forall|i: int| 0 <= i < front.len() implies !((#[trigger] front[i]).0 is TypeKey) by {
            assert(front[i] == members[i]);
        }
        assert(!(members[members.len() - 1].0 is TypeKey));
        lemma_named_fields(front);
        assert(front.push(members.last()) =~= members);
    } else {
        assert(special::named_fields(members) =~= members);
    }
}

proof fn lemma_put_plain(fields: Seq<(KeyTy, Ty)>, key: KeyTy, value: Ty)
    requires
        !(key is TypeKey),
        forall|i: int| 0 <= i < fields.len() ==> !((#[trigger] fields[i]).0 is TypeKey),
    ensures
        forall|i: int|
            0 <= i < complex::put_field(fields, key, value).len() ==> !((#[trigger] complex::put_field(
                fields,
                key,
                value,
            )[i]).0 is TypeKey),
    decreases fields.len(),
{
    if fields.len() > 0 && !equality::key_eq(fields[0].0, key) {
        let rest = fields.skip(1);
        assert forall|i: int| 0 <= i < rest.len() implies !((#[trigger] rest[i]).0 is TypeKey) by {
            assert(rest[i] == fields[i + 1]);
        }
        lemma_put_plain(rest, key, value);
        let after = complex::put_field(fields, key, value);
        assert(!(fields[0].0 is TypeKey));
        assert forall|i: int| 0 <= i < after.len() implies !((#[trigger] after[i]).0 is TypeKey) by {
            if i > 0 {
                assert(after[i] == complex::put_field(rest, key, value)[i - 1]);
            }
        }
    } else if fields.len() > 0 {
        let after = complex::put_field(fields, key, value);
        assert(!(fields[0].0 is TypeKey));
        assert forall|i: int| 0 <= i < after.len() implies !((#[trigger] after[i]).0 is TypeKey) by {
            if i > 0 {
                assert(after[i] == fields[i]);
            }
        }
    }
}

proof fn lemma_overlaid_plain(left: Seq<(KeyTy, Ty)>, right: Seq<(KeyTy, Ty)>)
    requires
        forall|i: int| 0 <= i < left.len() ==> !((#[trigger] left[i]).0 is TypeKey),
        forall|i: int| 0 <= i < right.len() ==> !((#[trigger] right[i]).0 is TypeKey),
    ensures
        forall|i: int|
            0 <= i < special::overlaid(left, right).len() ==> !((#[trigger] special::overlaid(left, right)[i]).0 is TypeKey),
    decreases right.len(),
{
    if right.len() > 0 {
        let front = right.drop_last();
        assert forall|i: int| 0 <= i < front.len() implies !((#[trigger] front[i]).0 is TypeKey) by {
            assert(front[i] == right[i]);
        }
        assert(!(right[right.len() - 1].0 is TypeKey));
        lemma_overlaid_plain(left, front);
        lemma_put_plain(special::overlaid(left, front), right.last().0, right.last().1);
    }
}

proof fn lemma_entries_of_object(db: DbTy, o: ObjectTy)
    requires
        o.index_access.len() == 0,
        equivalence::has_plain_keys(o.fields),
    ensures
        special::opt_entries(db, collect::possible_members(db, Ty::Object(Box::new(o)))) == o.fields,
        collect::possible_members(db, Ty::Object(Box::new(o))) is Some,
{
    let entries = special::opt_entries(db, collect::possible_members(db, Ty::Object(Box::new(o))));
    if o.fields.len() > 0 {
        members::object_has_its_fields(db, o, 0);
    } else {
        reveal_with_fuel(collect::field_members, 2);
    }
    assert forall|i: int| 0 <= i < o.fields.len() implies #[trigger] entries[i] == o.fields[i] by {
        members::object_has_its_fields(db, o, i);
    }
    assert(entries =~= o.fields);
}

/// Merging two objects gives an object in which the second one decides, and the first one where the
/// second has nothing to say.
pub proof fn second_object_is_merged_over_the_first(
    db: DbTy,
    a: ObjectTy,
    b: ObjectTy,
    key: KeyTy,
)
    requires
        a.index_access.len() == 0,
        b.index_access.len() == 0,
        equivalence::has_plain_keys(a.fields),
        equivalence::has_plain_keys(b.fields),
        !(key is TypeKey),
    ensures
        special::merged_object(db, seq![Ty::Object(Box::new(a)), Ty::Object(Box::new(b))]) matches Ty::Object(
            o,
        ) && {
            &&& o.index_access.len() == 0
            &&& forall|i: int|
                0 <= i < b.fields.len() && (#[trigger] b.fields[i]).0 == key ==> complex::first_field(
                    o.fields,
                    key,
                ) == Some(b.fields[i].1)
            &&& (forall|i: int| 0 <= i < b.fields.len() ==> (#[trigger] b.fields[i]).0 != key)
                ==> complex::first_field(o.fields, key) == complex::first_field(a.fields, key)
        },
{
    lemma_entries_of_object(db, a);
    lemma_entries_of_object(db, b);
    assert forall|i: int| 0 <= i < a.fields.len() implies !((#[trigger] a.fields[i]).0 is TypeKey) by {}
    assert forall|i: int| 0 <= i < b.fields.len() implies !((#[trigger] b.fields[i]).0 is TypeKey) by {}
    let members = special::overlaid(a.fields, b.fields);
    lemma_overlaid(a.fields, b.fields, key);
    lemma_overlaid_plain(a.fields, b.fields);
    lemma_named_fields(members);
    assert forall|i: int| 0 <= i < b.fields.len() && (#[trigger] b.fields[i]).0 == key implies complex::first_field(
        members,
        key,
    ) == Some(b.fields[i].1) by {
        assert forall|j: int| i < j < b.fields.len() implies (#[trigger] b.fields[j]).0 != key by {
            assert(b.fields[i].0 != b.fields[j].0);
        }
    }
}

/// The operators for indexing and for raw reads read the member under a literal key.
pub proof fn operators_read_under_a_literal(
    x: TablesTy,
    room: nat,
    owner: Ty,
    s: Seq<char>,
    m: Seq<(GenericTplId, Ty)>,
)
    requires
        conditions::is_leaf(owner),
    ensures
        ({
            let db = substitutor::index_at(x, room);
            let call = |kind: LuaAliasCallKind| special::call_type(
                db,
                CallTy { call_kind: kind, operand: seq![owner, Ty::DocStringConst(s)] },
                m,
            );
            let found = raw::raw_type(db, owner, KeyTy::Name(s));
            &&& found is Ok ==> call(LuaAliasCallKind::Index) == found->Ok_0
            &&& found is Ok ==> call(LuaAliasCallKind::RawGet) == found->Ok_0
            &&& found is Err ==> call(LuaAliasCallKind::Index) == Ty::Never
            &&& found is Err ==> call(LuaAliasCallKind::RawGet) == Ty::Unknown
        }),
{
    let db = substitutor::index_at(x, room);
    let key = Ty::DocStringConst(s);
    conditions::lemma_leaf(x, owner, m, room);
    conditions::lemma_leaf(x, key, m, room);
    let operands = db::evaluated_all(db, seq![owner, key], m);
    assert(operands =~= seq![owner, key]);
    assert(operands[0] == owner && operands[1] == key);
    assert(!special::any_open(operands)) by {
        assert forall|i: int| 0 <= i < operands.len() implies !traverse::holds_tpl(
            traverse::preorder(#[trigger] operands[i]),
        ) by {
            assert(i == 0 || i == 1);
        }
    }
    index_operator_reads_the_member(db, owner, s, 0);
}

} // verus!
