//! What unions, intersections and differences of types hold.

use vstd::prelude::*;

use crate::db;
use crate::types::{BasicTypeKind, Ty, UnionTy, complex, equality, equivalence, predicates, unions};

verus! {

/// A union of two types that are no unions holds both of them and nothing else. With `never` it is
/// the other one, with `any` it is `any`.
pub proof fn union_of_two_holds_both(a: Ty, b: Ty)
    requires
        equivalence::is_sound(a),
        equivalence::is_sound(b),
        !(a is Union),
        !(b is Union),
    ensures
        a is Any || b is Any ==> db::union_ty(a, b) is Any,
        !(a is Any) && a is Never ==> db::union_ty(a, b) == b,
        !(b is Any) && b is Never ==> db::union_ty(b, a) == if a is Any || b is Any { Ty::Any } else { a },
        !(a is Any) && !(b is Any) && !(a is Never) && !(b is Never) ==> {
            &&& equality::holds_ty(predicates::members_of(db::union_ty(a, b)), a)
            &&& equality::holds_ty(predicates::members_of(db::union_ty(a, b)), b)
            &&& forall|i: int|
                0 <= i < predicates::members_of(db::union_ty(a, b)).len() ==> #[trigger] predicates::members_of(
                    db::union_ty(a, b),
                )[i] == a || predicates::members_of(db::union_ty(a, b))[i] == b
        },
{
    if !(a is Any) && !(b is Any) && !(a is Never) && !(b is Never) {
        let types = seq![a, b];
        unions::union_of_list_holds_its_types(types);
        let found = db::union_ty(a, b);
        assert(types[0] == a && types[1] == b);
        assert(equality::holds_ty(predicates::members_of(found), types[0]));
        assert(equality::holds_ty(predicates::members_of(found), types[1]));
        assert forall|i: int| 0 <= i < predicates::members_of(found).len() implies #[trigger] predicates::members_of(
            found,
        )[i] == a || predicates::members_of(found)[i] == b by {
            assert(types.contains(predicates::members_of(found)[i]));
        }
    }
}

proof fn lemma_removed(a: Seq<Ty>, b: Seq<Ty>)
    ensures
        forall|i: int|
            0 <= i < db::removed(a, b).len() ==> a.contains(#[trigger] db::removed(a, b)[i]) && !equality::holds_ty(
                b,
                db::removed(a, b)[i],
            ),
        forall|i: int|
            0 <= i < a.len() && !equality::holds_ty(b, #[trigger] a[i]) ==> db::removed(a, b).contains(a[i]),
    decreases a.len(),
{
    if a.len() > 0 {
        let front = a.drop_last();
        let kept = db::removed(front, b);
        let all = db::removed(a, b);
        lemma_removed(front, b);
        assert forall|i: int| 0 <= i < all.len() implies a.contains(#[trigger] all[i]) && !equality::holds_ty(
            b,
            all[i],
        ) by {
            if i < kept.len() {
                assert(all[i] == kept[i]);
                let k = choose|k: int| 0 <= k < front.len() && front[k] == kept[i];
                assert(a[k] == all[i]);
            } else {
                assert(all[i] == a[a.len() - 1]);
            }
        }
        assert forall|i: int| 0 <= i < a.len() && !equality::holds_ty(b, #[trigger] a[i]) implies all.contains(
            a[i],
        ) by {
            if i < front.len() {
                assert(front[i] == a[i]);
                let k = choose|k: int| 0 <= k < kept.len() && kept[k] == front[i];
                assert(all[k] == a[i]);
            } else {
                assert(all[all.len() - 1] == a[i]);
            }
        }
    }
}

/// Taking a type away from a union leaves the members that are not the same as one of it, and no
/// others; where none is left, nothing is.
pub proof fn difference_leaves_the_other_members(u: UnionTy, b: Ty)
    requires
        unions::none_is_union(complex::union_tys(u)),
        equivalence::all_sound(complex::union_tys(u)),
    ensures
        (forall|i: int| 0 <= i < complex::union_tys(u).len() ==> equality::holds_ty(predicates::members_of(b), #[trigger] complex::union_tys(u)[i]))
            ==> db::remove_ty(Ty::Union(Box::new(u)), b) is Never,
        (exists|i: int|
            0 <= i < complex::union_tys(u).len() && !equality::holds_ty(predicates::members_of(b), #[trigger] complex::union_tys(u)[i]))
            ==> {
            let left = predicates::members_of(db::remove_ty(Ty::Union(Box::new(u)), b));
            &&& forall|i: int|
                0 <= i < complex::union_tys(u).len() && !equality::holds_ty(predicates::members_of(b), #[trigger] complex::union_tys(u)[i])
                    ==> equality::holds_ty(left, complex::union_tys(u)[i])
            &&& forall|i: int|
                0 <= i < left.len() ==> complex::union_tys(u).contains(#[trigger] left[i]) && !equality::holds_ty(
                    predicates::members_of(b),
                    left[i],
                )
        },
{
    let all = complex::union_tys(u);
    let gone = predicates::members_of(b);
    let kept = db::removed(all, gone);
    lemma_removed(all, gone);
    if forall|i: int| 0 <= i < all.len() ==> equality::holds_ty(gone, #[trigger] all[i]) {
        assert(kept.len() == 0) by {
            if kept.len() > 0 {
                assert(all.contains(kept[0]) && !equality::holds_ty(gone, kept[0]));
                let k = choose|k: int| 0 <= k < all.len() && all[k] == kept[0];
                assert(equality::holds_ty(gone, all[k]));
            }
        }
    }
    if exists|i: int| 0 <= i < all.len() && !equality::holds_ty(gone, #[trigger] all[i]) {
        let k = choose|i: int| 0 <= i < all.len() && !equality::holds_ty(gone, #[trigger] all[i]);
        assert(kept.contains(all[k]));
        assert(kept.len() > 0);
        assert forall|i: int| 0 <= i < kept.len() implies !((#[trigger] kept[i]) is Union) && equivalence::is_sound(
            kept[i],
        ) by {
            assert(all.contains(kept[i]));
            let j = choose|j: int| 0 <= j < all.len() && all[j] == kept[i];
            assert(!(all[j] is Union) && equivalence::is_sound(all[j]));
        }
        unions::union_of_list_holds_its_types(kept);
        let left = predicates::members_of(predicates::ty_from_list(kept));
        assert forall|i: int| 0 <= i < all.len() && !equality::holds_ty(gone, #[trigger] all[i]) implies equality::holds_ty(
            left,
            all[i],
        ) by {
            assert(kept.contains(all[i]));
            let j = choose|j: int| 0 <= j < kept.len() && kept[j] == all[i];
            assert(equality::holds_ty(left, kept[j]));
        }
        assert forall|i: int| 0 <= i < left.len() implies all.contains(#[trigger] left[i]) && !equality::holds_ty(
            gone,
            left[i],
        ) by {
            assert(kept.contains(left[i]));
            let j = choose|j: int| 0 <= j < kept.len() && kept[j] == left[i];
            assert(all.contains(kept[j]));
        }
    }
}

/// A type that is no union is taken away whole or not at all.
pub proof fn single_type_is_taken_away_whole(a: Ty, b: Ty)
    requires
        !(a is Union),
    ensures
        equality::holds_ty(predicates::members_of(b), a) ==> db::remove_ty(a, b) is Never,
        !equality::holds_ty(predicates::members_of(b), a) ==> db::remove_ty(a, b) == a,
{
}

/// What two types have in common: of equal types either, of an open type the other one, of `never`
/// nothing, of different plain values nothing, of a union the members that the other one has too.
pub proof fn intersection_is_what_both_have(a: Ty, b: Ty, c: Ty, s: Seq<char>)
    requires
        equivalence::is_sound(a),
        equivalence::is_sound(b),
        !equality::ty_eq(a, b),
        !(a is Union) && !(a is Any) && !(a is Unknown) && !(a is Never),
        !(b is Union) && !(b is Any) && !(b is Unknown) && !(b is Never),
    ensures
        db::intersect_ty(a, a) == a,
        db::intersect_ty(Ty::Any, a) == a,
        db::intersect_ty(a, Ty::Any) == a,
        db::intersect_ty(a, Ty::Unknown) == a,
        db::intersect_ty(a, Ty::Never) is Never,
        db::intersect_ty(Ty::Never, a) is Never,
        db::intersect_ty(Ty::String, Ty::Number) is Never,
        db::intersect_ty(Ty::Ref(s), Ty::Table) == Ty::Intersection(seq![Ty::Ref(s), Ty::Table]),
        db::intersect_ty(Ty::Union(Box::new(UnionTy::Multi(seq![a, b]))), b) == b,
        db::intersect_ty(a, Ty::Union(Box::new(UnionTy::Multi(seq![a, b])))) == a,
{
    equivalence::equality_is_reflexive(a);
    equivalence::equality_is_reflexive(b);
    equivalence::equality_is_symmetric(a, b);
    let both = seq![a, b];
    reveal_with_fuel(db::intersect_members, 3);
    assert(both.drop_last() =~= seq![a]);
    assert(seq![a].drop_last() =~= Seq::<Ty>::empty());
    assert(equality::holds_ty(seq![b], b)) by {
        assert(equality::ty_eq(seq![b][0], b));
    }
    assert(!equality::holds_ty(seq![b], a));
    assert(equality::holds_ty(both, a)) by {
        assert(equality::ty_eq(both[0], a));
    }
    assert(predicates::members_of(b) =~= seq![b]);
}

/// The union of a list that holds a type holds it.
pub proof fn union_of_all_types(a: Ty, b: Ty)
    ensures
        db::union_all_ty(Seq::empty()) is Never,
        db::union_all_ty(seq![a]) == db::union_ty(Ty::Never, a),
        db::union_all_ty(seq![a, b]) == db::union_ty(db::union_ty(Ty::Never, a), b),
        !(a is Any) ==> db::union_ty(Ty::Never, a) == a,
{
    reveal_with_fuel(db::union_all_ty, 3);
    assert(seq![a].drop_last() =~= Seq::<Ty>::empty());
    assert(seq![a, b].drop_last() =~= seq![a]);
}

// ----------------------------------------------------------------------------
// Questions about types.

/// A type that neither is nil nor false nor open.
pub open spec fn is_there(t: Ty) -> bool {
    match t {
        Ty::String | Ty::Integer | Ty::Number | Ty::Table | Ty::Function | Ty::Thread => true,
        Ty::Userdata | Ty::Io | Ty::StringConst(_) | Ty::IntegerConst(_) => true,
        Ty::DocStringConst(_) | Ty::DocIntegerConst(_) | Ty::BooleanConst(true) => true,
        Ty::DocBooleanConst(true) | Ty::Ref(_) | Ty::Def(_) | Ty::Array(_) | Ty::Tuple(_) => true,
        Ty::DocFunction(_) | Ty::Object(_) | Ty::TableConst(_) | Ty::TableGeneric(_) => true,
        _ => false,
    }
}

/// What is there is neither nil nor false; nil and false are not there; of a truth value both is
/// possible.
pub proof fn truth_of_single_types(t: Ty)
    requires
        is_there(t),
    ensures
        predicates::ty_is_always_truthy(t) && !predicates::ty_is_always_falsy(t) && !predicates::ty_is_nullable(t) && !predicates::ty_is_optional(t),
        !predicates::ty_is_always_truthy(Ty::Nil) && predicates::ty_is_always_falsy(Ty::Nil) && predicates::ty_is_nullable(Ty::Nil)
            && predicates::ty_is_optional(Ty::Nil),
        !predicates::ty_is_always_truthy(Ty::BooleanConst(false)) && predicates::ty_is_always_falsy(Ty::BooleanConst(false)),
        !predicates::ty_is_always_truthy(Ty::DocBooleanConst(false)) && predicates::ty_is_always_falsy(
            Ty::DocBooleanConst(false),
        ),
        !predicates::ty_is_always_truthy(Ty::Boolean) && !predicates::ty_is_always_falsy(Ty::Boolean) && !predicates::ty_is_nullable(
            Ty::Boolean,
        ) && !predicates::ty_is_optional(Ty::Boolean),
        !predicates::ty_is_always_truthy(Ty::Any) && !predicates::ty_is_always_falsy(Ty::Any) && predicates::ty_is_optional(Ty::Any),
        !predicates::ty_is_always_truthy(Ty::Unknown) && !predicates::ty_is_always_falsy(Ty::Unknown) && predicates::ty_is_optional(
            Ty::Unknown,
        ),
{
}

/// A union is there if all of its members are, and is not if none of them is; it may be nil if one of
/// them may.
pub proof fn truth_of_unions(u: UnionTy)
    ensures
        predicates::ty_is_always_truthy(Ty::Union(Box::new(u))) == forall|i: int|
            0 <= i < complex::union_tys(u).len() ==> predicates::ty_is_always_truthy(#[trigger] complex::union_tys(u)[i]),
        predicates::ty_is_always_falsy(Ty::Union(Box::new(u))) == forall|i: int|
            0 <= i < complex::union_tys(u).len() ==> predicates::ty_is_always_falsy(#[trigger] complex::union_tys(u)[i]),
        predicates::ty_is_nullable(Ty::Union(Box::new(u))) == exists|i: int|
            0 <= i < complex::union_tys(u).len() && predicates::ty_is_nullable(#[trigger] complex::union_tys(u)[i]),
{
    let t = Ty::Union(Box::new(u));
    let members = complex::union_tys(u);
    match u {
        UnionTy::Basic(kinds) => {
            assert forall|i: int| 0 <= i < kinds.len() implies (predicates::kind_is_truthy(#[trigger] kinds[i])
                == predicates::ty_is_always_truthy(members[i])) && (kinds[i] is Nil == predicates::ty_is_always_falsy(
                members[i],
            )) && (kinds[i] is Nil == predicates::ty_is_nullable(members[i])) by {}
            if predicates::ty_is_always_truthy(t) {
                assert forall|i: int| 0 <= i < members.len() implies predicates::ty_is_always_truthy(
                    #[trigger] members[i],
                ) by {
                    assert(predicates::kind_is_truthy(kinds[i]));
                }
            }
            if forall|i: int| 0 <= i < members.len() ==> predicates::ty_is_always_truthy(#[trigger] members[i]) {
                assert forall|i: int| 0 <= i < kinds.len() implies predicates::kind_is_truthy(
                    #[trigger] kinds[i],
                ) by {
                    assert(predicates::ty_is_always_truthy(members[i]));
                }
            }
            if predicates::ty_is_always_falsy(t) {
                assert forall|i: int| 0 <= i < members.len() implies predicates::ty_is_always_falsy(
                    #[trigger] members[i],
                ) by {
                    assert(kinds[i] is Nil);
                }
            }
            if forall|i: int| 0 <= i < members.len() ==> predicates::ty_is_always_falsy(#[trigger] members[i]) {
                assert forall|i: int| 0 <= i < kinds.len() implies (#[trigger] kinds[i]) is Nil by {
                    assert(predicates::ty_is_always_falsy(members[i]));
                }
            }
            if predicates::ty_is_nullable(t) {
                let i = choose|i: int| 0 <= i < kinds.len() && kinds[i] == BasicTypeKind::Nil;
                assert(predicates::ty_is_nullable(members[i]));
            }
            if exists|i: int| 0 <= i < members.len() && predicates::ty_is_nullable(#[trigger] members[i]) {
                let i = choose|i: int| 0 <= i < members.len() && predicates::ty_is_nullable(#[trigger] members[i]);
                assert(kinds[i] == BasicTypeKind::Nil);
            }
        },
        UnionTy::Nullable(x) => {
            assert(members[0] == x && members[1] == Ty::Nil);
            assert(!predicates::ty_is_always_truthy(members[1]) && predicates::ty_is_nullable(members[1])
                && predicates::ty_is_always_falsy(members[1]));
        },
        UnionTy::Multi(types) => {
            assert(predicates::ty_is_always_truthy(t) == predicates::all_always_truthy(types));
            assert(predicates::ty_is_always_falsy(t) == predicates::all_always_falsy(types));
            assert(predicates::ty_is_nullable(t) == predicates::any_nullable(types));
        },
    }
}

} // verus!
