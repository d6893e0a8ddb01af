//! When two types are the same.

use vstd::prelude::*;

use crate::laws::conditions;
use crate::types::{
    ArrayTy, FunctionTy, GenericTy, KeyTy, ObjectTy, TupleTy, Ty, UnionTy, equality, equivalence,
};

verus! {

/// Types without parts are the same only if they are one.
pub proof fn leaves_are_equal_only_to_themselves(a: Ty, b: Ty)
    requires
        conditions::is_leaf(a),
    ensures
        equality::ty_eq(a, b) == (a == b),
{
}

/// Types with parts are the same if their parts are, and what else they hold.
pub proof fn types_are_equal_by_their_parts(
    x: ArrayTy,
    y: ArrayTy,
    p: TupleTy,
    q: TupleTy,
    g: GenericTy,
    h: GenericTy,
    i: int,
)
    requires
        0 <= i < p.types.len(),
        i < g.params.len(),
    ensures
        equality::ty_eq(Ty::Array(Box::new(x)), Ty::Array(Box::new(y))) == (equality::ty_eq(x.base, y.base) && x.len
            == y.len),
        equality::ty_eq(Ty::Tuple(Box::new(p)), Ty::Tuple(Box::new(q))) ==> p.types.len() == q.types.len()
            && equality::ty_eq(p.types[i], q.types[i]) && p.status == q.status,
        equality::ty_eq(Ty::Generic(Box::new(g)), Ty::Generic(Box::new(h))) ==> g.base == h.base
            && g.params.len() == h.params.len() && equality::ty_eq(g.params[i], h.params[i]),
        !equality::ty_eq(Ty::Array(Box::new(x)), Ty::Tuple(Box::new(p))),
        !equality::ty_eq(Ty::Generic(Box::new(g)), Ty::Array(Box::new(x))),
{
    if equality::ty_eq(Ty::Tuple(Box::new(p)), Ty::Tuple(Box::new(q))) {
        assert(equality::tys_eq(p.types, q.types));
    }
    if equality::ty_eq(Ty::Generic(Box::new(g)), Ty::Generic(Box::new(h))) {
        assert(equality::tys_eq(g.params, h.params));
    }
}

/// Functions are the same if they take and give the same, under the same names.
pub proof fn functions_are_equal_by_what_they_take_and_give(f: FunctionTy, g: FunctionTy, i: int)
    requires
        0 <= i < f.params.len(),
        equality::ty_eq(Ty::DocFunction(Box::new(f)), Ty::DocFunction(Box::new(g))),
    ensures
        f.params.len() == g.params.len(),
        f.params[i].0 == g.params[i].0,
        f.params[i].1 is Some == g.params[i].1 is Some,
        f.params[i].1 is Some ==> equality::ty_eq(f.params[i].1.unwrap(), g.params[i].1.unwrap()),
        equality::ty_eq(f.ret, g.ret),
        f.is_colon_define == g.is_colon_define,
        f.is_variadic == g.is_variadic,
        f.async_state == g.async_state,
{
    assert(equality::named_eq(f.params, g.params));
    assert(equality::opt_eq(f.params[i].1, g.params[i].1));
}

/// Objects are the same if they have the same fields, in any order.
pub proof fn objects_are_equal_by_their_fields(a: ObjectTy, b: ObjectTy, i: int)
    requires
        0 <= i < a.fields.len(),
        !(a.fields[i].0 is TypeKey),
        equality::ty_eq(Ty::Object(Box::new(a)), Ty::Object(Box::new(b))),
    ensures
        a.fields.len() == b.fields.len(),
        exists|j: int|
            0 <= j < b.fields.len() && (#[trigger] b.fields[j]).0 == a.fields[i].0 && equality::ty_eq(
                a.fields[i].1,
                b.fields[j].1,
            ),
        a.index_access.len() == b.index_access.len(),
{
    assert(equality::fields_eq(a.fields, b.fields));
    assert(equality::pairs_eq(a.index_access, b.index_access));
    assert(equality::among_fields(a.fields[i], b.fields));
    let j = choose|j: int|
        0 <= j < b.fields.len() && equality::key_eq(a.fields[i].0, (#[trigger] b.fields[j]).0) && equality::ty_eq(
            a.fields[i].1,
            b.fields[j].1,
        );
    assert(b.fields[j].0 == a.fields[i].0);
}

/// The order of two fields does not matter.
pub proof fn order_of_fields_does_not_matter(k: KeyTy, l: KeyTy, a: Ty, b: Ty)
    requires
        equivalence::is_sound(a),
        equivalence::is_sound(b),
        !(k is TypeKey),
        !(l is TypeKey),
    ensures
        equality::ty_eq(
            Ty::Object(
                Box::new(ObjectTy { fields: seq![(k, a), (l, b)], index_access: Seq::empty() }),
            ),
            Ty::Object(
                Box::new(ObjectTy { fields: seq![(l, b), (k, a)], index_access: Seq::empty() }),
            ),
        ),
{
    equivalence::equality_is_reflexive(a);
    equivalence::equality_is_reflexive(b);
    let x = seq![(k, a), (l, b)];
    let y = seq![(l, b), (k, a)];
    lemma_among(x[0], y, 1);
    lemma_among(x[1], y, 0);
    lemma_two_among(x, y);
    let none = Seq::<(Ty, Ty)>::empty();
    assert(equality::pairs_eq(none, none));
}

proof fn lemma_among(f: (KeyTy, Ty), y: Seq<(KeyTy, Ty)>, j: int)
    requires
        0 <= j < y.len(),
        f == y[j],
        !(f.0 is TypeKey),
        equality::ty_eq(f.1, f.1),
    ensures
        equality::among_fields(f, y),
{
    assert(equality::key_eq(f.0, y[j].0));
    assert(equality::ty_eq(f.1, y[j].1));
}

proof fn lemma_two_among(x: Seq<(KeyTy, Ty)>, y: Seq<(KeyTy, Ty)>)
    requires
        x.len() == 2,
        y.len() == 2,
        equality::among_fields(x[0], y),
        equality::among_fields(x[1], y),
    ensures
        equality::fields_eq(x, y),
{
    assert forall|i: int| 0 <= i < x.len() implies equality::among_fields(#[trigger] x[i], y) by {
        assert(i == 0 || i == 1);
    }
}

/// Unions with different members are not the same.
pub proof fn unions_are_equal_by_their_members(p: Seq<Ty>, q: Seq<Ty>, i: int)
    requires
        0 <= i < p.len(),
        equality::ty_eq(
            Ty::Union(Box::new(UnionTy::Multi(p))),
            Ty::Union(Box::new(UnionTy::Multi(q))),
        ),
    ensures
        p.len() == q.len(),
        exists|j: int| 0 <= j < q.len() && equality::ty_eq(p[i], #[trigger] q[j]),
{
    assert(equality::members_eq(p, q));
    assert(equality::among_tys(p[i], q));
}

} // verus!
