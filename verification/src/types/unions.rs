//! What holds of the unions that lists of types make.

use vstd::prelude::*;

use crate::types::{BasicTypeKind, Ty, UnionTy, basic, complex, equality, equivalence, predicates};

verus! {

/// No type of a list is a union itself.
pub open spec fn none_is_union(types: Seq<Ty>) -> bool {
    forall|i: int| 0 <= i < types.len() ==> !((#[trigger] types[i]) is Union)
}

proof fn lemma_append_new_none_is_union(done: Seq<Ty>, more: Seq<Ty>)
    requires
        none_is_union(done),
        none_is_union(more),
    ensures
        none_is_union(predicates::append_new(done, more)),
    decreases more.len(),
{
    if more.len() > 0 {
        assert(none_is_union(more.drop_last())) by {
            assert forall|i: int| 0 <= i < more.len() - 1 implies !((
            #[trigger] more.drop_last()[i]) is Union) by {
                assert(more.drop_last()[i] == more[i]);
            }
        }
        lemma_append_new_none_is_union(done, more.drop_last());
        let front = predicates::append_new(done, more.drop_last());
        let all = predicates::append_new(done, more);
        assert forall|i: int| 0 <= i < all.len() implies !((#[trigger] all[i]) is Union) by {
            if i < front.len() {
                assert(all[i] == front[i]);
            } else {
                assert(all[i] == more[more.len() - 1]);
            }
        }
    }
}

/// A union of several types lists no type twice, and no union among its members. The unions of the
/// list may not hold unions themselves.
pub proof fn union_of_list_has_no_repetition(types: Seq<Ty>)
    requires
        types.len() >= 2,
        none_is_union(predicates::flat_members(types)),
    ensures
        predicates::without_repetition(predicates::ty_from_list(types)),
        predicates::ty_from_list(types) matches Ty::Union(u) ==> none_is_union(complex::union_tys(*u)),
{
    let members = predicates::append_new(Seq::empty(), predicates::flat_members(types));
    predicates::lemma_append_new_distinct(Seq::empty(), predicates::flat_members(types));
    lemma_append_new_none_is_union(Seq::empty(), predicates::flat_members(types));
    if members.len() == 1 {
        assert(!(members[0] is Union));
    }
}

proof fn lemma_flat(types: Seq<Ty>)
    requires
        none_is_union(types),
    ensures
        predicates::flat_members(types) == types,
    decreases types.len(),
{
    if types.len() > 0 {
        assert(none_is_union(types.drop_last())) by {
            assert forall|i: int| 0 <= i < types.len() - 1 implies !((
            #[trigger] types.drop_last()[i]) is Union) by {
                assert(types.drop_last()[i] == types[i]);
            }
        }
        lemma_flat(types.drop_last());
        assert(!(types[types.len() - 1] is Union));
        assert(types.drop_last() + seq![types.last()] =~= types);
    } else {
        assert(predicates::flat_members(types) =~= types);
    }
}

proof fn lemma_ascending_is_unique(x: Seq<BasicTypeKind>, y: Seq<BasicTypeKind>)
    requires
        basic::kinds_ascending(x),
        basic::kinds_ascending(y),
        forall|k: BasicTypeKind| x.contains(k) == y.contains(k),
    ensures
        x == y,
    decreases x.len(),
{
    if x.len() == 0 {
        if y.len() > 0 {
            assert(y.contains(y[0]));
        }
        assert(x =~= y);
    } else if y.len() == 0 {
        assert(x.contains(x[0]));
    } else {
        let xs = x.drop_last();
        let ys = y.drop_last();
        assert(x.contains(x[x.len() - 1]) && y.contains(y[y.len() - 1]));
        let i = choose|i: int| 0 <= i < y.len() && y[i] == x.last();
        let j = choose|j: int| 0 <= j < x.len() && x[j] == y.last();
        assert(basic::kind_rank(y[i]) <= basic::kind_rank(y.last()));
        assert(basic::kind_rank(x[j]) <= basic::kind_rank(x.last()));
        assert(x.last() == y.last());
        assert forall|k: BasicTypeKind| xs.contains(k) == ys.contains(k) by {
            if xs.contains(k) {
                let n = choose|n: int| 0 <= n < xs.len() && xs[n] == k;
                assert(x[n] == k);
                assert(x.contains(k));
                let o = choose|o: int| 0 <= o < y.len() && y[o] == k;
                assert(basic::kind_rank(x[n]) < basic::kind_rank(x.last()));
                assert(o < y.len() - 1);
                assert(ys[o] == k);
            }
            if ys.contains(k) {
                let n = choose|n: int| 0 <= n < ys.len() && ys[n] == k;
                assert(y[n] == k);
                assert(y.contains(k));
                let o = choose|o: int| 0 <= o < x.len() && x[o] == k;
                assert(basic::kind_rank(y[n]) < basic::kind_rank(y.last()));
                assert(o < x.len() - 1);
                assert(xs[o] == k);
            }
        }
        lemma_ascending_is_unique(xs, ys);
        assert(x =~= xs.push(x.last()));
        assert(y =~= ys.push(y.last()));
    }
}

/// Two types are equal. The definition is looked into only where that is asked for.
#[verifier::opaque]
spec fn eqv(a: Ty, b: Ty) -> bool {
    equality::ty_eq(a, b)
}

proof fn lemma_basic_eq(kinds: Seq<BasicTypeKind>)
    ensures
        eqv(Ty::Union(Box::new(UnionTy::Basic(kinds))), Ty::Union(Box::new(UnionTy::Basic(kinds)))),
{
    reveal(eqv);
}

proof fn lemma_nullable_eq(s: Ty, t: Ty)
    requires
        eqv(s, t),
    ensures
        eqv(Ty::Union(Box::new(UnionTy::Nullable(s))), Ty::Union(Box::new(UnionTy::Nullable(t)))),
{
    reveal(eqv);
}

proof fn lemma_eqv_reflexive(a: Ty)
    requires
        equivalence::is_sound(a),
    ensures
        eqv(a, a),
{
    reveal(eqv);
    equivalence::equality_is_reflexive(a);
}

proof fn lemma_eqv_symmetric(a: Ty, b: Ty)
    requires
        equivalence::is_sound(a),
        equivalence::is_sound(b),
    ensures
        eqv(a, b) == eqv(b, a),
{
    reveal(eqv);
    equivalence::equality_is_symmetric(a, b);
}

proof fn lemma_eqv_transitive(a: Ty, b: Ty, c: Ty)
    requires
        equivalence::is_sound(a),
        equivalence::is_sound(b),
        equivalence::is_sound(c),
        eqv(a, b),
        eqv(b, c),
    ensures
        eqv(a, c),
{
    reveal(eqv);
    equivalence::equality_is_transitive(a, b, c);
}

/// Equal types are of the same kind.
proof fn lemma_eqv_kind(a: Ty, b: Ty)
    requires
        eqv(a, b),
    ensures
        complex::ty_kind(a) == complex::ty_kind(b),
        a is Nil == b is Nil,
{
    reveal(eqv);
}

// ----------------------------------------------------------------------------
// Lists with the same types.

/// Every type of the first list equals one of the second list.
#[verifier::opaque]
spec fn covered(x: Seq<Ty>, y: Seq<Ty>) -> bool {
    forall|i: int| 0 <= i < x.len() ==> covered_at(#[trigger] x[i], y)
}

#[verifier::opaque]
spec fn covered_at(t: Ty, y: Seq<Ty>) -> bool {
    exists|j: int| 0 <= j < y.len() && eqv(t, #[trigger] y[j])
}

/// No two types of the list are equal.
#[verifier::opaque]
spec fn differ(x: Seq<Ty>) -> bool {
    forall|i: int, j: int| 0 <= i < j < x.len() ==> !eqv(#[trigger] x[i], #[trigger] x[j])
}

proof fn lemma_cover(x: Seq<Ty>, y: Seq<Ty>, i: int) -> (j: int)
    requires
        covered(x, y),
        0 <= i < x.len(),
    ensures
        0 <= j < y.len(),
        eqv(x[i], y[j]),
{
    reveal(covered);
    reveal(covered_at);
    assert(covered_at(x[i], y));
    choose|j: int| 0 <= j < y.len() && eqv(x[i], #[trigger] y[j])
}

proof fn lemma_covered_at(t: Ty, y: Seq<Ty>, j: int)
    requires
        0 <= j < y.len(),
        eqv(t, y[j]),
    ensures
        covered_at(t, y),
{
    reveal(covered_at);
}

proof fn lemma_covered_by_contained(x: Seq<Ty>, y: Seq<Ty>)
    requires
        equivalence::all_sound(x),
        forall|i: int| 0 <= i < x.len() ==> y.contains(#[trigger] x[i]),
    ensures
        covered(x, y),
{
    assert forall|i: int| 0 <= i < x.len() implies covered_at(#[trigger] x[i], y) by {
        let j = choose|j: int| 0 <= j < y.len() && y[j] == x[i];
        lemma_eqv_reflexive(x[i]);
        lemma_covered_at(x[i], y, j);
    }
    reveal(covered);
}

proof fn lemma_covered_transitive(x: Seq<Ty>, y: Seq<Ty>, z: Seq<Ty>)
    requires
        equivalence::all_sound(x),
        equivalence::all_sound(y),
        equivalence::all_sound(z),
        covered(x, y),
        covered(y, z),
    ensures
        covered(x, z),
{
    assert forall|i: int| 0 <= i < x.len() implies covered_at(#[trigger] x[i], z) by {
        let j = lemma_cover(x, y, i);
        let k = lemma_cover(y, z, j);
        lemma_eqv_transitive(x[i], y[j], z[k]);
        lemma_covered_at(x[i], z, k);
    }
    reveal(covered);
}

/// A list without repetition is no longer than a list that covers it.
proof fn lemma_covered_is_no_longer(x: Seq<Ty>, y: Seq<Ty>)
    requires
        equivalence::all_sound(x),
        equivalence::all_sound(y),
        differ(x),
        covered(x, y),
    ensures
        x.len() <= y.len(),
{
    let place = |i: int| choose|j: int| 0 <= j < y.len() && eqv(x[i], #[trigger] y[j]);
    let places = Seq::new(x.len(), place);
    assert forall|i: int| 0 <= i < x.len() implies 0 <= #[trigger] places[i] < y.len() && eqv(
        x[i],
        y[places[i]],
    ) by {
        let j = lemma_cover(x, y, i);
    }
    assert(places.no_duplicates()) by {
        assert forall|i: int, k: int| 0 <= i < k < places.len() implies places[i] != places[k] by {
            if places[i] == places[k] {
                let t = y[places[i]];
                assert(equivalence::is_sound(t) && equivalence::is_sound(x[i]) && equivalence::is_sound(x[k]));
                lemma_eqv_symmetric(x[k], t);
                lemma_eqv_transitive(x[i], t, x[k]);
                reveal(differ);
            }
        }
    }
    places.unique_seq_to_set();
    vstd::set_lib::lemma_int_range(0, y.len() as int);
    let range = vstd::set_lib::set_int_range(0, y.len() as int);
    assert(places.to_set().subset_of(range)) by {
        assert forall|j: int| places.to_set().contains(j) implies range.contains(j) by {
            let i = choose|i: int| 0 <= i < places.len() && places[i] == j;
            assert(0 <= places[i] < y.len());
        }
    }
    vstd::set_lib::lemma_len_subset(places.to_set(), range);
}

// ----------------------------------------------------------------------------
// What is left of a list once repetitions are dropped.

spec fn dedup(types: Seq<Ty>) -> Seq<Ty> {
    predicates::append_new(Seq::empty(), types)
}

proof fn lemma_dedup_contained(types: Seq<Ty>)
    ensures
        forall|i: int| 0 <= i < dedup(types).len() ==> types.contains(#[trigger] dedup(types)[i]),
    decreases types.len(),
{
    if types.len() > 0 {
        let shorter = types.drop_last();
        lemma_dedup_contained(shorter);
        let front = dedup(shorter);
        let all = dedup(types);
        assert forall|i: int| 0 <= i < all.len() implies types.contains(#[trigger] all[i]) by {
            if i < front.len() {
                assert(all[i] == front[i]);
                assert(shorter.contains(front[i]));
                let k = choose|k: int| 0 <= k < shorter.len() && shorter[k] == front[i];
                assert(types[k] == front[i]);
            } else {
                assert(all[i] == types[types.len() - 1]);
            }
        }
    }
}

proof fn lemma_dedup_differs(types: Seq<Ty>)
    ensures
        differ(dedup(types)),
{
    predicates::lemma_append_new_distinct(Seq::empty(), types);
    reveal(differ);
    reveal(eqv);
}

proof fn lemma_dedup_is_sound(types: Seq<Ty>)
    requires
        equivalence::all_sound(types),
    ensures
        equivalence::all_sound(dedup(types)),
{
    lemma_dedup_contained(types);
    assert forall|i: int| 0 <= i < dedup(types).len() implies equivalence::is_sound(#[trigger] dedup(types)[i]) by {
        let k = choose|k: int| 0 <= k < types.len() && types[k] == dedup(types)[i];
        assert(equivalence::is_sound(types[k]));
    }
}

/// What is dropped equals something that is left.
proof fn lemma_dedup_step(front: Seq<Ty>, t: Ty)
    requires
        equivalence::all_sound(front),
        equivalence::is_sound(t),
    ensures
        covered_at(
            t,
            if equality::holds_ty(front, t) {
                front
            } else {
                front.push(t)
            },
        ),
{
    if equality::holds_ty(front, t) {
        let j = choose|j: int| 0 <= j < front.len() && equality::ty_eq(#[trigger] front[j], t);
        assert(eqv(front[j], t)) by {
            reveal(eqv);
        }
        lemma_eqv_symmetric(front[j], t);
        lemma_covered_at(t, front, j);
    } else {
        lemma_eqv_reflexive(t);
        lemma_covered_at(t, front.push(t), front.len() as int);
    }
}

proof fn lemma_covered_at_longer(t: Ty, y: Seq<Ty>, more: Ty)
    requires
        covered_at(t, y),
    ensures
        covered_at(t, y.push(more)),
{
    reveal(covered_at);
    let j = choose|j: int| 0 <= j < y.len() && eqv(t, #[trigger] y[j]);
    assert(y.push(more)[j] == y[j]);
}

proof fn lemma_dedup_covers(types: Seq<Ty>)
    requires
        equivalence::all_sound(types),
    ensures
        covered(types, dedup(types)),
    decreases types.len(),
{
    if types.len() > 0 {
        let shorter = types.drop_last();
        assert(equivalence::all_sound(shorter)) by {
            assert forall|i: int| 0 <= i < shorter.len() implies equivalence::is_sound(#[trigger] shorter[i]) by {
                assert(shorter[i] == types[i]);
            }
        }
        lemma_dedup_covers(shorter);
        lemma_dedup_is_sound(shorter);
        let front = dedup(shorter);
        let last = types[types.len() - 1];
        assert(equivalence::is_sound(last));
        lemma_dedup_step(front, last);
        assert forall|i: int| 0 <= i < types.len() implies covered_at(
            #[trigger] types[i],
            dedup(types),
        ) by {
            if i < shorter.len() {
                assert(shorter[i] == types[i]);
                assert(covered_at(shorter[i], front)) by {
                    reveal(covered);
                }
                if !equality::holds_ty(front, last) {
                    lemma_covered_at_longer(types[i], front, last);
                }
            }
        }
    }
    reveal(covered);
}

// ----------------------------------------------------------------------------
// Unions of lists with the same types.

spec fn single_or_union(members: Seq<Ty>) -> Ty {
    if members.len() == 1 {
        members[0]
    } else {
        Ty::Union(Box::new(complex::union_of(members)))
    }
}

proof fn lemma_kinds_of(types: Seq<Ty>)
    requires
        complex::all_basic(types),
    ensures
        basic::kinds_ascending(complex::kinds_of(types)),
        forall|k: BasicTypeKind| #[trigger]
            complex::kinds_of(types).contains(k) <==> exists|i: int|
                0 <= i < types.len() && complex::ty_kind(#[trigger] types[i]) == Some(k),
    decreases types.len(),
{
    if types.len() > 0 {
        let shorter = types.drop_last();
        let last = types[types.len() - 1];
        assert(complex::all_basic(shorter)) by {
            assert forall|i: int| 0 <= i < shorter.len() implies complex::ty_kind(#[trigger] shorter[i]) is Some by {
                assert(shorter[i] == types[i]);
            }
        }
        assert(complex::ty_kind(last) is Some);
        lemma_kinds_of(shorter);
        basic::lemma_with_kind(complex::kinds_of(shorter), complex::ty_kind(last).unwrap());
        assert forall|k: BasicTypeKind| #[trigger]
            complex::kinds_of(types).contains(k) <==> exists|i: int|
                0 <= i < types.len() && complex::ty_kind(#[trigger] types[i]) == Some(k) by {
            if complex::kinds_of(shorter).contains(k) {
                let i = choose|i: int|
                    0 <= i < shorter.len() && complex::ty_kind(#[trigger] shorter[i]) == Some(k);
                assert(types[i] == shorter[i]);
            }
            if k == complex::ty_kind(last).unwrap() {
                assert(complex::ty_kind(types[types.len() - 1]) == Some(k));
            }
            if exists|i: int| 0 <= i < types.len() && complex::ty_kind(#[trigger] types[i]) == Some(k) {
                let i = choose|i: int|
                    0 <= i < types.len() && complex::ty_kind(#[trigger] types[i]) == Some(k);
                if i < shorter.len() {
                    assert(shorter[i] == types[i]);
                }
            }
        }
    }
}

proof fn lemma_all_basic_covered(x: Seq<Ty>, y: Seq<Ty>)
    requires
        covered(x, y),
        complex::all_basic(y),
    ensures
        complex::all_basic(x),
{
    assert forall|i: int| 0 <= i < x.len() implies complex::ty_kind(#[trigger] x[i]) is Some by {
        let j = lemma_cover(x, y, i);
        lemma_eqv_kind(x[i], y[j]);
        assert(complex::ty_kind(y[j]) is Some);
    }
}

proof fn lemma_kinds_covered(x: Seq<Ty>, y: Seq<Ty>, k: BasicTypeKind)
    requires
        complex::all_basic(x),
        complex::all_basic(y),
        covered(x, y),
        complex::kinds_of(x).contains(k),
    ensures
        complex::kinds_of(y).contains(k),
{
    lemma_kinds_of(x);
    lemma_kinds_of(y);
    let i = choose|i: int| 0 <= i < x.len() && complex::ty_kind(#[trigger] x[i]) == Some(k);
    let j = lemma_cover(x, y, i);
    lemma_eqv_kind(x[i], y[j]);
    assert(complex::ty_kind(y[j]) == Some(k));
}

proof fn lemma_basic_unions(x: Seq<Ty>, y: Seq<Ty>)
    requires
        complex::all_basic(x),
        complex::all_basic(y),
        covered(x, y),
        covered(y, x),
    ensures
        complex::kinds_of(x) == complex::kinds_of(y),
{
    lemma_kinds_of(x);
    lemma_kinds_of(y);
    assert forall|k: BasicTypeKind| complex::kinds_of(x).contains(k) == complex::kinds_of(y).contains(k) by {
        if complex::kinds_of(x).contains(k) {
            lemma_kinds_covered(x, y, k);
        }
        if complex::kinds_of(y).contains(k) {
            lemma_kinds_covered(y, x, k);
        }
    }
    lemma_ascending_is_unique(complex::kinds_of(x), complex::kinds_of(y));
}

proof fn lemma_multi_unions(x: Seq<Ty>, y: Seq<Ty>)
    requires
        equivalence::all_sound(x),
        equivalence::all_sound(y),
        x.len() == y.len(),
        differ(x),
        covered(x, y),
        covered(y, x),
    ensures
        eqv(Ty::Union(Box::new(UnionTy::Multi(x))), Ty::Union(Box::new(UnionTy::Multi(y)))),
{
    assert forall|j: int| 0 <= j < y.len() implies equality::holds_ty(x, #[trigger] y[j]) by {
        let i = lemma_cover(y, x, j);
        lemma_eqv_symmetric(x[i], y[j]);
        assert(equality::ty_eq(x[i], y[j])) by {
            reveal(eqv);
        }
    }
    assert forall|i: int| 0 <= i < x.len() implies equality::among_tys(#[trigger] x[i], y) by {
        let j = lemma_cover(x, y, i);
        assert(equality::ty_eq(x[i], y[j])) by {
            reveal(eqv);
        }
    }
    lemma_made_of_same(x, y);
}

proof fn lemma_made_of_same(x: Seq<Ty>, y: Seq<Ty>)
    requires
        x.len() == y.len(),
        differ(x),
        forall|j: int| 0 <= j < y.len() ==> equality::holds_ty(x, #[trigger] y[j]),
        forall|i: int| 0 <= i < x.len() ==> equality::among_tys(#[trigger] x[i], y),
    ensures
        eqv(Ty::Union(Box::new(UnionTy::Multi(x))), Ty::Union(Box::new(UnionTy::Multi(y)))),
{
    assert(equality::members_eq(x, y)) by {
        reveal(differ);
        reveal(eqv);
    }
    reveal(eqv);
}

/// Where nil stands in a list of two, and the type beside it.
proof fn lemma_nullable_unions(x: Seq<Ty>, y: Seq<Ty>, n: int)
    requires
        equivalence::all_sound(x),
        equivalence::all_sound(y),
        x.len() == 2,
        y.len() == 2,
        differ(x),
        differ(y),
        covered(x, y),
        !complex::all_basic(x),
        !complex::all_basic(y),
        0 <= n < 2,
        x[n] is Nil,
    ensures
        eqv(Ty::Union(Box::new(complex::union_of(x))), Ty::Union(Box::new(complex::union_of(y)))),
{
    let j = lemma_cover(x, y, n);
    let k = lemma_cover(x, y, 1 - n);
    lemma_eqv_kind(x[n], y[j]);
    assert(y[j] is Nil);
    assert(j != k) by {
        if j == k {
            assert(equivalence::is_sound(x[n]) && equivalence::is_sound(x[1 - n]) && equivalence::is_sound(y[j]));
            lemma_eqv_symmetric(x[1 - n], y[j]);
            lemma_eqv_transitive(x[n], y[j], x[1 - n]);
            lemma_eqv_symmetric(x[n], x[1 - n]);
            reveal(differ);
        }
    }
    assert(!(x[1 - n] is Nil)) by {
        if x[1 - n] is Nil {
            lemma_eqv_reflexive(x[n]);
            reveal(differ);
            assert(x[0] == x[1]);
        }
    }
    lemma_eqv_kind(x[1 - n], y[k]);
    assert(complex::union_of(x) == UnionTy::Nullable(x[1 - n]));
    assert(complex::union_of(y) == UnionTy::Nullable(y[k]));
    lemma_nullable_eq(x[1 - n], y[k]);
}

proof fn lemma_no_nil_covered(x: Seq<Ty>, y: Seq<Ty>)
    requires
        covered(y, x),
        forall|i: int| 0 <= i < x.len() ==> !((#[trigger] x[i]) is Nil),
    ensures
        forall|j: int| 0 <= j < y.len() ==> !((#[trigger] y[j]) is Nil),
{
    assert forall|j: int| 0 <= j < y.len() implies !((#[trigger] y[j]) is Nil) by {
        let i = lemma_cover(y, x, j);
        lemma_eqv_kind(y[j], x[i]);
    }
}

proof fn lemma_same_unions(x: Seq<Ty>, y: Seq<Ty>)
    requires
        x.len() > 0,
        equivalence::all_sound(x),
        equivalence::all_sound(y),
        differ(x),
        differ(y),
        covered(x, y),
        covered(y, x),
    ensures
        eqv(single_or_union(x), single_or_union(y)),
{
    lemma_covered_is_no_longer(x, y);
    lemma_covered_is_no_longer(y, x);
    if x.len() == 1 {
        let j = lemma_cover(x, y, 0);
    } else if complex::all_basic(x) {
        lemma_all_basic_covered(y, x);
        lemma_basic_unions(x, y);
        lemma_basic_eq(complex::kinds_of(x));
    } else {
        assert(!complex::all_basic(y)) by {
            if complex::all_basic(y) {
                lemma_all_basic_covered(x, y);
            }
        }
        if x.len() == 2 && x[0] is Nil {
            lemma_nullable_unions(x, y, 0);
        } else if x.len() == 2 && x[1] is Nil {
            lemma_nullable_unions(x, y, 1);
        } else {
            if x.len() == 2 {
                lemma_no_nil_covered(x, y);
                assert(!(y[0] is Nil) && !(y[1] is Nil));
            }
            lemma_multi_unions(x, y);
        }
    }
}

// ----------------------------------------------------------------------------
// The laws.

/// The members of a union are the types of the list that made it, in some order.
proof fn lemma_members_of_union(types: Seq<Ty>)
    requires
        none_is_union(types),
        complex::all_basic(types) || types.len() > 0,
    ensures
        forall|i: int|
            0 <= i < complex::union_tys(complex::union_of(types)).len() ==> types.contains(
                #[trigger] complex::union_tys(complex::union_of(types))[i],
            ),
        forall|i: int|
            0 <= i < types.len() ==> complex::union_tys(complex::union_of(types)).contains(#[trigger] types[i]),
{
    let members = complex::union_tys(complex::union_of(types));
    if complex::all_basic(types) {
        lemma_kinds_of(types);
        let kinds = complex::kinds_of(types);
        assert forall|i: int| 0 <= i < members.len() implies types.contains(
            #[trigger] members[i],
        ) by {
            assert(kinds.contains(kinds[i]));
            let k = choose|k: int|
                0 <= k < types.len() && complex::ty_kind(#[trigger] types[k]) == Some(kinds[i]);
            assert(members[i] == types[k]);
        }
        assert forall|i: int| 0 <= i < types.len() implies members.contains(#[trigger] types[i]) by {
            assert(complex::ty_kind(types[i]) is Some);
            let kind = complex::ty_kind(types[i]).unwrap();
            assert(kinds.contains(kind));
            let k = choose|k: int| 0 <= k < kinds.len() && kinds[k] == kind;
            assert(members[k] == types[i]);
        }
    } else if types.len() == 2 && types[0] is Nil {
        assert(members[0] == types[1] && members[1] == types[0]);
    } else if types.len() == 2 && types[1] is Nil {
        assert(members[0] == types[0] && members[1] == types[1]);
    } else {
        assert(members == types);
    }
}

proof fn lemma_from_list(types: Seq<Ty>)
    requires
        types.len() >= 2,
        predicates::flat_members(types).len() > 0,
    ensures
        predicates::ty_from_list(types) == single_or_union(dedup(predicates::flat_members(types))),
        dedup(predicates::flat_members(types)).len() > 0,
{
    lemma_dedup_not_empty(predicates::flat_members(types));
}

proof fn lemma_dedup_not_empty(types: Seq<Ty>)
    requires
        types.len() > 0,
    ensures
        dedup(types).len() > 0,
    decreases types.len(),
{
    let shorter = types.drop_last();
    if shorter.len() > 0 {
        lemma_dedup_not_empty(shorter);
    } else {
        assert(dedup(shorter) =~= Seq::<Ty>::empty());
        assert(!equality::holds_ty(dedup(shorter), types.last()));
    }
}

proof fn lemma_members_are_sound(t: Ty)
    requires
        equivalence::is_sound(t),
    ensures
        equivalence::all_sound(predicates::members_of(t)),
{
    let members = predicates::members_of(t);
    if let Ty::Union(u) = t {
        if let UnionTy::Basic(kinds) = *u {
            assert forall|i: int| 0 <= i < members.len() implies equivalence::is_sound(
                #[trigger] members[i],
            ) by {
                assert(complex::ty_kind(members[i]) == Some(kinds[i]));
            }
        }
    }
}

proof fn lemma_flat_is_sound(types: Seq<Ty>)
    requires
        equivalence::all_sound(types),
    ensures
        equivalence::all_sound(predicates::flat_members(types)),
    decreases types.len(),
{
    if types.len() > 0 {
        let shorter = types.drop_last();
        assert(equivalence::all_sound(shorter)) by {
            assert forall|i: int| 0 <= i < shorter.len() implies equivalence::is_sound(
                #[trigger] shorter[i],
            ) by {
                assert(shorter[i] == types[i]);
            }
        }
        lemma_flat_is_sound(shorter);
        assert(equivalence::is_sound(types[types.len() - 1]));
        lemma_members_are_sound(types.last());
        lemma_sound_both(predicates::flat_members(shorter), predicates::members_of(types.last()));
    }
}

proof fn lemma_flat_both(x: Seq<Ty>, y: Seq<Ty>)
    ensures
        predicates::flat_members(x + y) == predicates::flat_members(x) + predicates::flat_members(y),
    decreases y.len(),
{
    if y.len() > 0 {
        assert((x + y).drop_last() =~= x + y.drop_last());
        lemma_flat_both(x, y.drop_last());
        assert(predicates::flat_members(x + y) =~= predicates::flat_members(x)
            + predicates::flat_members(y));
    } else {
        assert(x + y =~= x);
        assert(predicates::flat_members(y) =~= Seq::<Ty>::empty());
        assert(predicates::flat_members(x) + predicates::flat_members(y)
            =~= predicates::flat_members(x));
    }
}

proof fn lemma_flat_one(t: Ty)
    ensures
        predicates::flat_members(seq![t]) == predicates::members_of(t),
{
    assert(seq![t].drop_last() =~= Seq::<Ty>::empty());
    assert(predicates::flat_members(Seq::<Ty>::empty()) =~= Seq::<Ty>::empty());
    assert(predicates::flat_members(seq![t]) =~= predicates::members_of(t));
}

/// The members of a type of a list are among the members of the list.
proof fn lemma_flat_holds(types: Seq<Ty>, i: int, t: Ty)
    requires
        0 <= i < types.len(),
        predicates::members_of(types[i]).contains(t),
    ensures
        predicates::flat_members(types).contains(t),
    decreases types.len(),
{
    let shorter = types.drop_last();
    let front = predicates::flat_members(shorter);
    let back = predicates::members_of(types.last());
    let all = predicates::flat_members(types);
    assert(all == front + back);
    if i < shorter.len() {
        assert(shorter[i] == types[i]);
        lemma_flat_holds(shorter, i, t);
        let k = choose|k: int| 0 <= k < front.len() && front[k] == t;
        assert(all[k] == t);
    } else {
        let k = choose|k: int| 0 <= k < back.len() && back[k] == t;
        assert(all[front.len() + k] == t);
    }
}

proof fn lemma_flat_from(types: Seq<Ty>, t: Ty) -> (i: int)
    requires
        predicates::flat_members(types).contains(t),
    ensures
        0 <= i < types.len(),
        predicates::members_of(types[i]).contains(t),
    decreases types.len(),
{
    let all = predicates::flat_members(types);
    let k = choose|k: int| 0 <= k < all.len() && all[k] == t;
    if types.len() == 0 {
        0
    } else {
        let shorter = types.drop_last();
        let front = predicates::flat_members(shorter);
        let back = predicates::members_of(types.last());
        assert(all == front + back);
        if k < front.len() {
            assert(front[k] == t);
            lemma_flat_from(shorter, t)
        } else {
            assert(back[k - front.len()] == t);
            types.len() - 1
        }
    }
}

proof fn lemma_flat_contained(x: Seq<Ty>, y: Seq<Ty>)
    requires
        forall|i: int| 0 <= i < x.len() ==> y.contains(#[trigger] x[i]),
    ensures
        forall|k: int|
            0 <= k < predicates::flat_members(x).len() ==> predicates::flat_members(y).contains(
                #[trigger] predicates::flat_members(x)[k],
            ),
{
    let all = predicates::flat_members(x);
    assert forall|k: int| 0 <= k < all.len() implies predicates::flat_members(y).contains(
        #[trigger] all[k],
    ) by {
        assert(all.contains(all[k]));
        let i = lemma_flat_from(x, all[k]);
        assert(y.contains(x[i]));
        let j = choose|j: int| 0 <= j < y.len() && y[j] == x[i];
        lemma_flat_holds(y, j, all[k]);
    }
}

/// The members of what a list makes are the types that are listed.
proof fn lemma_members_of_list(types: Seq<Ty>)
    requires
        types.len() > 0,
        predicates::flat_members(types).len() > 0,
        none_is_union(predicates::flat_members(types)),
        equivalence::all_sound(types),
    ensures
        equivalence::all_sound(predicates::members_of(predicates::ty_from_list(types))),
        covered(
            predicates::members_of(predicates::ty_from_list(types)),
            predicates::flat_members(types),
        ),
        covered(
            predicates::flat_members(types),
            predicates::members_of(predicates::ty_from_list(types)),
        ),
        predicates::members_of(predicates::ty_from_list(types)).len() > 0,
{
    let made = predicates::ty_from_list(types);
    let members = predicates::members_of(made);
    let flat = predicates::flat_members(types);
    lemma_flat_is_sound(types);
    if types.len() == 1 {
        assert(types =~= seq![types[0]]);
        lemma_flat_one(types[0]);
        assert(members == flat);
        assert forall|i: int| 0 <= i < flat.len() implies flat.contains(#[trigger] flat[i]) by {}
        lemma_covered_by_contained(flat, flat);
    } else {
        let kept = dedup(flat);
        lemma_from_list(types);
        lemma_dedup_contained(flat);
        lemma_dedup_is_sound(flat);
        lemma_dedup_covers(flat);
        lemma_append_new_none_is_union(Seq::empty(), flat);
        if kept.len() == 1 {
            assert(!(kept[0] is Union));
            assert(members =~= kept);
        } else {
            lemma_members_of_union(kept);
        }
        assert forall|i: int| 0 <= i < members.len() implies equivalence::is_sound(
            #[trigger] members[i],
        ) && flat.contains(members[i]) by {
            assert(kept.contains(members[i]));
            let k = choose|k: int| 0 <= k < kept.len() && kept[k] == members[i];
            assert(equivalence::is_sound(kept[k]) && flat.contains(kept[k]));
        }
        lemma_covered_by_contained(members, flat);
        assert forall|i: int| 0 <= i < kept.len() implies members.contains(#[trigger] kept[i]) by {
            if kept.len() == 1 {
                assert(members[i] == kept[i]);
            }
        }
        lemma_covered_by_contained(kept, members);
        lemma_covered_transitive(flat, kept, members);
        assert(members.contains(kept[0]));
    }
}

proof fn lemma_covered_behind(front: Seq<Ty>, x: Seq<Ty>, y: Seq<Ty>)
    requires
        equivalence::all_sound(front),
        covered(x, y),
    ensures
        covered(front + x, front + y),
{
    let p = front + x;
    let q = front + y;
    assert forall|i: int| 0 <= i < p.len() implies covered_at(#[trigger] p[i], q) by {
        if i < front.len() {
            lemma_eqv_reflexive(front[i]);
            assert(q[i] == front[i]);
            lemma_covered_at(p[i], q, i);
        } else {
            let j = lemma_cover(x, y, i - front.len());
            assert(q[front.len() + j] == y[j]);
            lemma_covered_at(p[i], q, front.len() + j);
        }
    }
    reveal(covered);
}

proof fn lemma_sound_both(x: Seq<Ty>, y: Seq<Ty>)
    requires
        equivalence::all_sound(x),
        equivalence::all_sound(y),
    ensures
        equivalence::all_sound(x + y),
{
    let both = x + y;
    assert forall|i: int| 0 <= i < both.len() implies equivalence::is_sound(#[trigger] both[i]) by {
        if i < x.len() {
            assert(equivalence::is_sound(x[i]));
        } else {
            assert(equivalence::is_sound(y[i - x.len()]));
        }
    }
}

/// Two lists with the same types make the same type.
proof fn lemma_same_lists(x: Seq<Ty>, y: Seq<Ty>)
    requires
        x.len() > 0,
        equivalence::all_sound(x),
        equivalence::all_sound(y),
        covered(x, y),
        covered(y, x),
    ensures
        eqv(single_or_union(dedup(x)), single_or_union(dedup(y))),
{
    let p = dedup(x);
    let q = dedup(y);
    lemma_dedup_not_empty(x);
    lemma_dedup_is_sound(x);
    lemma_dedup_is_sound(y);
    lemma_dedup_differs(x);
    lemma_dedup_differs(y);
    lemma_dedup_covers(x);
    lemma_dedup_covers(y);
    lemma_dedup_contained(x);
    lemma_dedup_contained(y);
    lemma_covered_by_contained(p, x);
    lemma_covered_by_contained(q, y);
    lemma_covered_transitive(p, x, y);
    lemma_covered_transitive(p, y, q);
    lemma_covered_transitive(q, y, x);
    lemma_covered_transitive(q, x, p);
    lemma_same_unions(p, q);
}

/// No type makes `nil`; one type, once or twice, makes itself.
pub proof fn union_of_few(a: Ty)
    requires
        equivalence::is_sound(a),
        !(a is Union),
    ensures
        predicates::ty_from_list(Seq::empty()) == Ty::Nil,
        predicates::ty_from_list(seq![a]) == a,
        predicates::ty_from_list(seq![a, a]) == a,
{
    let twice = seq![a, a];
    lemma_flat(twice);
    lemma_from_list(twice);
    equivalence::equality_is_reflexive(a);
    assert(twice.drop_last() =~= seq![a]);
    assert(seq![a].drop_last() =~= Seq::<Ty>::empty());
    reveal_with_fuel(predicates::append_new, 3);
    assert(!equality::holds_ty(Seq::<Ty>::empty(), a));
    assert(Seq::<Ty>::empty().push(a) =~= seq![a]);
    assert(dedup(seq![a]) =~= seq![a]);
    assert(equality::holds_ty(seq![a], a)) by {
        assert(equality::ty_eq(seq![a][0], a));
    }
}

/// A type that is built step by step is the one that is built at once, whatever types come first. Of
/// the types that the inner one is made of, no union has a union for a member.
pub proof fn union_step_by_step(front: Seq<Ty>, back: Seq<Ty>)
    requires
        front.len() > 0,
        back.len() > 0,
        equivalence::all_sound(front),
        equivalence::all_sound(back),
        predicates::flat_members(back).len() > 0,
        none_is_union(predicates::flat_members(back)),
    ensures
        equality::ty_eq(
            predicates::ty_from_list(front.push(predicates::ty_from_list(back))),
            predicates::ty_from_list(front + back),
        ),
{
    let inner = predicates::ty_from_list(back);
    let members = predicates::members_of(inner);
    let flat_front = predicates::flat_members(front);
    let flat_back = predicates::flat_members(back);
    lemma_members_of_list(back);
    lemma_flat_is_sound(front);
    lemma_flat_is_sound(back);
    assert(front.push(inner).drop_last() =~= front);
    assert(predicates::flat_members(front.push(inner)) == flat_front + members);
    lemma_flat_both(front, back);
    lemma_sound_both(flat_front, members);
    lemma_sound_both(flat_front, flat_back);
    lemma_covered_behind(flat_front, members, flat_back);
    lemma_covered_behind(flat_front, flat_back, members);
    lemma_from_list(front.push(inner));
    lemma_from_list(front + back);
    lemma_same_lists(flat_front + members, flat_front + flat_back);
    reveal(eqv);
}

/// Neither the order of the types of a list nor their number matters.
pub proof fn union_in_any_order(x: Seq<Ty>, y: Seq<Ty>)
    requires
        x.len() >= 2,
        y.len() >= 2,
        equivalence::all_sound(x),
        equivalence::all_sound(y),
        forall|i: int| 0 <= i < x.len() ==> y.contains(#[trigger] x[i]),
        forall|j: int| 0 <= j < y.len() ==> x.contains(#[trigger] y[j]),
    ensures
        equality::ty_eq(predicates::ty_from_list(x), predicates::ty_from_list(y)),
{
    let p = predicates::flat_members(x);
    let q = predicates::flat_members(y);
    lemma_flat_is_sound(x);
    lemma_flat_is_sound(y);
    lemma_flat_contained(x, y);
    lemma_flat_contained(y, x);
    if p.len() == 0 {
        assert(q.len() == 0) by {
            if q.len() > 0 {
                assert(p.contains(q[0]));
            }
        }
        assert(predicates::ty_from_list(x) is Nil && predicates::ty_from_list(y) is Nil) by {
            assert(dedup(p) =~= Seq::<Ty>::empty());
            assert(dedup(q) =~= Seq::<Ty>::empty());
        }
    } else {
        assert(q.contains(p[0]));
        lemma_from_list(x);
        lemma_from_list(y);
        lemma_covered_by_contained(p, q);
        lemma_covered_by_contained(q, p);
        lemma_same_lists(p, q);
        reveal(eqv);
    }
}

/// What is made of sound types is sound.
pub proof fn union_of_sound_types_is_sound(types: Seq<Ty>)
    requires
        equivalence::all_sound(types),
    ensures
        equivalence::is_sound(predicates::ty_from_list(types)),
{
    if types.len() == 1 {
        assert(equivalence::is_sound(types[0]));
    } else if types.len() >= 2 {
        let flat = predicates::flat_members(types);
        let kept = dedup(flat);
        lemma_flat_is_sound(types);
        lemma_dedup_is_sound(flat);
        predicates::lemma_append_new_distinct(Seq::empty(), flat);
        if kept.len() == 1 {
            assert(equivalence::is_sound(kept[0]));
        } else if kept.len() == 2 {
            assert(equivalence::is_sound(kept[0]) && equivalence::is_sound(kept[1]));
        }
    }
}

/// The type that a list makes holds each type of the list and nothing else.
pub proof fn union_of_list_holds_its_types(types: Seq<Ty>)
    requires
        types.len() > 0,
        none_is_union(types),
        equivalence::all_sound(types),
    ensures
        forall|i: int|
            0 <= i < types.len() ==> equality::holds_ty(predicates::members_of(predicates::ty_from_list(types)), #[trigger] types[i]),
        forall|i: int|
            0 <= i < predicates::members_of(predicates::ty_from_list(types)).len() ==> types.contains(
                #[trigger] predicates::members_of(predicates::ty_from_list(types))[i],
            ),
{
    let members = predicates::members_of(predicates::ty_from_list(types));
    lemma_flat(types);
    lemma_members_of_list(types);
    assert forall|i: int| 0 <= i < types.len() implies equality::holds_ty(members, #[trigger] types[i]) by {
        let j = lemma_cover(types, members, i);
        assert(equivalence::is_sound(types[i]) && equivalence::is_sound(members[j]));
        lemma_eqv_symmetric(types[i], members[j]);
        assert(equality::ty_eq(members[j], types[i])) by {
            reveal(eqv);
        }
    }
    if types.len() == 1 {
        assert(members =~= types);
        assert forall|i: int| 0 <= i < members.len() implies types.contains(#[trigger] members[i]) by {}
    } else {
        let kept = dedup(types);
        lemma_from_list(types);
        lemma_dedup_contained(types);
        lemma_append_new_none_is_union(Seq::empty(), types);
        if kept.len() == 1 {
            assert(!(kept[0] is Union));
            assert(members =~= kept);
        } else {
            lemma_members_of_union(kept);
        }
        assert forall|i: int| 0 <= i < members.len() implies types.contains(#[trigger] members[i]) by {
            assert(kept.contains(members[i]));
            let k = choose|k: int| 0 <= k < kept.len() && kept[k] == members[i];
            assert(types.contains(kept[k]));
        }
    }
}

} // verus!
