//! Equality of types is an equivalence.

use vstd::prelude::*;

use crate::types::{
    AttributeTy, ConditionalTy, FunctionTy, KeyTy, ObjectTy, ParamTy, TplTy, Ty, UnionTy,
    VariadicTy, basic, equality,
};

verus! {

// ----------------------------------------------------------------------------
// Types as they are made.

/// No number inside a type is none, no key stands twice in an object, and no member twice in a union.
pub open spec fn is_sound(t: Ty) -> bool
    decreases t,
{
    match t {
        Ty::FloatConst(bits) => !basic::float_is_nan(bits),
        Ty::Array(x) => is_sound(x.base),
        Ty::Tuple(x) => all_sound(x.types),
        Ty::DocFunction(x) => sound_tpls(x.generic_params) && sound_named(x.params) && is_sound(
            x.ret,
        ),
        Ty::Object(x) => sound_fields(x.fields) && sound_pairs(x.index_access) && has_plain_keys(
            x.fields,
        ),
        Ty::Union(x) => match *x {
            UnionTy::Basic(_) => true,
            UnionTy::Nullable(p) => is_sound(p),
            UnionTy::Multi(p) => all_sound(p) && all_differ(p),
        },
        Ty::Intersection(x) => all_sound(x),
        Ty::Generic(x) => all_sound(x.params),
        Ty::TableGeneric(x) => all_sound(x),
        Ty::TplRef(x) => sound_param(x.param),
        Ty::StrTplRef(x) => sound_opt(x.constraint),
        Ty::Variadic(x) => match *x {
            VariadicTy::Multi(p) => all_sound(p),
            VariadicTy::Base(p) => is_sound(p),
        },
        Ty::Instance(x) => is_sound(x.base),
        Ty::Call(x) => all_sound(x.operand),
        Ty::MultiLineUnion(x) => sound_lines(x),
        Ty::TypeGuard(x) => is_sound(*x),
        Ty::Conditional(x) => is_sound(x.checked_type) && is_sound(x.extends_type) && is_sound(
            x.true_type,
        ) && is_sound(x.false_type) && sound_params(x.infer_params),
        Ty::Mapped(x) => sound_param(x.param) && is_sound(x.value),
        _ => true,
    }
}

pub open spec fn all_sound(x: Seq<Ty>) -> bool
    decreases x,
{
    forall|i: int| 0 <= i < x.len() ==> is_sound(#[trigger] x[i])
}

pub open spec fn sound_opt(x: Option<Ty>) -> bool
    decreases x,
{
    match x {
        Some(t) => is_sound(t),
        None => true,
    }
}

pub open spec fn sound_fields(x: Seq<(KeyTy, Ty)>) -> bool
    decreases x,
{
    forall|i: int| 0 <= i < x.len() ==> is_sound((#[trigger] x[i]).1)
}

pub open spec fn sound_pairs(x: Seq<(Ty, Ty)>) -> bool
    decreases x,
{
    forall|i: int| 0 <= i < x.len() ==> is_sound((#[trigger] x[i]).0) && is_sound(x[i].1)
}

pub open spec fn sound_named(x: Seq<(Seq<char>, Option<Ty>)>) -> bool
    decreases x,
{
    forall|i: int| 0 <= i < x.len() ==> sound_opt((#[trigger] x[i]).1)
}

pub open spec fn sound_lines(x: Seq<(Ty, Option<Seq<char>>)>) -> bool
    decreases x,
{
    forall|i: int| 0 <= i < x.len() ==> is_sound((#[trigger] x[i]).0)
}

pub open spec fn sound_param(x: ParamTy) -> bool
    decreases x,
{
    sound_opt(x.constraint) && sound_opt(x.default) && match x.attributes {
        Some(p) => sound_attributes(p),
        None => true,
    }
}

pub open spec fn sound_params(x: Seq<ParamTy>) -> bool
    decreases x,
{
    forall|i: int| 0 <= i < x.len() ==> sound_param(#[trigger] x[i])
}

pub open spec fn sound_attributes(x: Seq<AttributeTy>) -> bool
    decreases x,
{
    forall|i: int| 0 <= i < x.len() ==> sound_named((#[trigger] x[i]).args)
}

pub open spec fn sound_tpls(x: Seq<TplTy>) -> bool
    decreases x,
{
    forall|i: int| 0 <= i < x.len() ==> sound_param((#[trigger] x[i]).param)
}

/// The fields stand under names and numbers, each under its own.
pub open spec fn has_plain_keys(x: Seq<(KeyTy, Ty)>) -> bool {
    &&& forall|i: int| 0 <= i < x.len() ==> !((#[trigger] x[i]).0 is TypeKey)
    &&& forall|i: int, j: int|
        0 <= i < j < x.len() ==> (#[trigger] x[i]).0 != (#[trigger] x[j]).0
}

pub open spec fn all_differ(x: Seq<Ty>) -> bool {
    forall|i: int, j: int| 0 <= i < j < x.len() ==> !equality::ty_eq(#[trigger] x[i], #[trigger] x[j])
}

// ----------------------------------------------------------------------------
// Every type equals itself.

proof fn lemma_all_equal_themselves(x: Seq<Ty>)
    requires
        all_sound(x),
    ensures
        equality::tys_eq(x, x),
    decreases x,
{
    assert forall|i: int| 0 <= i < x.len() implies equality::ty_eq(#[trigger] x[i], x[i]) by {
        lemma_equals_itself(x[i]);
    }
}

proof fn lemma_opt_equals_itself(x: Option<Ty>)
    requires
        sound_opt(x),
    ensures
        equality::opt_eq(x, x),
    decreases x,
{
    if let Some(t) = x {
        lemma_equals_itself(t);
    }
}

proof fn lemma_fields_equal_themselves(x: Seq<(KeyTy, Ty)>)
    requires
        sound_fields(x),
        has_plain_keys(x),
    ensures
        equality::fields_eq(x, x),
    decreases x,
{
    assert forall|i: int| 0 <= i < x.len() implies equality::among_fields(#[trigger] x[i], x) by {
        lemma_equals_itself(x[i].1);
        assert(!(x[i].0 is TypeKey));
        assert(equality::key_eq(x[i].0, x[i].0) && equality::ty_eq(x[i].1, x[i].1));
    }
}

proof fn lemma_pairs_equal_themselves(x: Seq<(Ty, Ty)>)
    requires
        sound_pairs(x),
    ensures
        equality::pairs_eq(x, x),
    decreases x,
{
    assert forall|i: int| 0 <= i < x.len() implies equality::ty_eq((#[trigger] x[i]).0, x[i].0) && equality::ty_eq(
        x[i].1,
        x[i].1,
    ) by {
        lemma_equals_itself(x[i].0);
        lemma_equals_itself(x[i].1);
    }
}

proof fn lemma_named_equal_themselves(x: Seq<(Seq<char>, Option<Ty>)>)
    requires
        sound_named(x),
    ensures
        equality::named_eq(x, x),
    decreases x,
{
    assert forall|i: int| 0 <= i < x.len() implies (#[trigger] x[i]).0 == x[i].0 && equality::opt_eq(
        x[i].1,
        x[i].1,
    ) by {
        lemma_opt_equals_itself(x[i].1);
    }
}

proof fn lemma_lines_equal_themselves(x: Seq<(Ty, Option<Seq<char>>)>)
    requires
        sound_lines(x),
    ensures
        equality::lines_eq(x, x),
    decreases x,
{
    assert forall|i: int| 0 <= i < x.len() implies equality::ty_eq((#[trigger] x[i]).0, x[i].0) by {
        lemma_equals_itself(x[i].0);
    }
}

proof fn lemma_attributes_equal_themselves(x: Seq<AttributeTy>)
    requires
        sound_attributes(x),
    ensures
        equality::attributes_eq(x, x),
    decreases x,
{
    assert forall|i: int| 0 <= i < x.len() implies (#[trigger] x[i]).id == x[i].id && equality::named_eq(
        x[i].args,
        x[i].args,
    ) by {
        lemma_named_equal_themselves(x[i].args);
    }
}

proof fn lemma_param_equals_itself(x: ParamTy)
    requires
        sound_param(x),
    ensures
        equality::param_eq(x, x),
    decreases x,
{
    lemma_opt_equals_itself(x.constraint);
    lemma_opt_equals_itself(x.default);
    if let Some(p) = x.attributes {
        lemma_attributes_equal_themselves(p);
    }
}

proof fn lemma_params_equal_themselves(x: Seq<ParamTy>)
    requires
        sound_params(x),
    ensures
        equality::params_eq(x, x),
    decreases x,
{
    assert forall|i: int| 0 <= i < x.len() implies equality::param_eq(#[trigger] x[i], x[i]) by {
        lemma_param_equals_itself(x[i]);
    }
}

proof fn lemma_tpls_equal_themselves(x: Seq<TplTy>)
    requires
        sound_tpls(x),
    ensures
        equality::tpls_eq(x, x),
    decreases x,
{
    assert forall|i: int| 0 <= i < x.len() implies (#[trigger] x[i]).tpl_id == x[i].tpl_id
        && equality::param_eq(x[i].param, x[i].param) by {
        lemma_param_equals_itself(x[i].param);
    }
}

proof fn lemma_members_equal_themselves(x: Seq<Ty>)
    requires
        all_sound(x),
        all_differ(x),
    ensures
        equality::members_eq(x, x),
    decreases x,
{
    assert forall|i: int| 0 <= i < x.len() implies equality::holds_ty(x, #[trigger] x[i]) && equality::among_tys(
        x[i],
        x,
    ) by {
        lemma_equals_itself(x[i]);
        assert(equality::ty_eq(x[i], x[i]));
    }
}

proof fn lemma_equals_itself(t: Ty)
    requires
        is_sound(t),
    ensures
        equality::ty_eq(t, t),
    decreases t,
{
    match t {
        Ty::Array(x) => lemma_equals_itself(x.base),
        Ty::Tuple(x) => lemma_all_equal_themselves(x.types),
        Ty::DocFunction(x) => {
            lemma_tpls_equal_themselves(x.generic_params);
            lemma_named_equal_themselves(x.params);
            lemma_equals_itself(x.ret);
        },
        Ty::Object(x) => {
            lemma_fields_equal_themselves(x.fields);
            lemma_pairs_equal_themselves(x.index_access);
        },
        Ty::Union(x) => match *x {
            UnionTy::Basic(_) => {},
            UnionTy::Nullable(p) => lemma_equals_itself(p),
            UnionTy::Multi(p) => lemma_members_equal_themselves(p),
        },
        Ty::Intersection(x) => lemma_all_equal_themselves(x),
        Ty::Generic(x) => lemma_all_equal_themselves(x.params),
        Ty::TableGeneric(x) => lemma_all_equal_themselves(x),
        Ty::TplRef(x) => lemma_param_equals_itself(x.param),
        Ty::StrTplRef(x) => lemma_opt_equals_itself(x.constraint),
        Ty::Variadic(x) => match *x {
            VariadicTy::Multi(p) => lemma_all_equal_themselves(p),
            VariadicTy::Base(p) => lemma_equals_itself(p),
        },
        Ty::Instance(x) => lemma_equals_itself(x.base),
        Ty::Call(x) => lemma_all_equal_themselves(x.operand),
        Ty::MultiLineUnion(x) => lemma_lines_equal_themselves(x),
        Ty::TypeGuard(x) => lemma_equals_itself(*x),
        Ty::Conditional(x) => {
            lemma_equals_itself(x.checked_type);
            lemma_equals_itself(x.extends_type);
            lemma_equals_itself(x.true_type);
            lemma_equals_itself(x.false_type);
            lemma_params_equal_themselves(x.infer_params);
        },
        Ty::Mapped(x) => {
            lemma_param_equals_itself(x.param);
            lemma_equals_itself(x.value);
        },
        _ => {},
    }
}

// ----------------------------------------------------------------------------
// Types that equal the same type equal each other.

proof fn lemma_all_agree(x: Seq<Ty>, y: Seq<Ty>, z: Seq<Ty>)
    requires
        all_sound(x),
        all_sound(y),
        all_sound(z),
        equality::tys_eq(x, y),
        equality::tys_eq(x, z),
    ensures
        equality::tys_eq(y, z),
    decreases x,
{
    assert forall|i: int| 0 <= i < y.len() implies equality::ty_eq(#[trigger] y[i], z[i]) by {
        assert(equality::ty_eq(x[i], y[i]) && equality::ty_eq(x[i], z[i]));
        assert(is_sound(x[i]) && is_sound(z[i]));
        lemma_agree(x[i], y[i], z[i]);
    }
}

proof fn lemma_opts_agree(x: Option<Ty>, y: Option<Ty>, z: Option<Ty>)
    requires
        sound_opt(x),
        sound_opt(y),
        sound_opt(z),
        equality::opt_eq(x, y),
        equality::opt_eq(x, z),
    ensures
        equality::opt_eq(y, z),
    decreases x,
{
    if let (Some(p), Some(q), Some(r)) = (x, y, z) {
        lemma_agree(p, q, r);
    }
}

/// The field that corresponds to a field of an equal object.
proof fn lemma_field_behind(x: Seq<(KeyTy, Ty)>, y: Seq<(KeyTy, Ty)>, j: int) -> (i: int)
    requires
        has_plain_keys(x),
        has_plain_keys(y),
        equality::fields_eq(x, y),
        0 <= j < y.len(),
    ensures
        0 <= i < x.len(),
        x[i].0 == y[j].0,
        equality::ty_eq(x[i].1, y[j].1),
{
    let p = Seq::new(x.len(), |i: int| x[i].0);
    let q = Seq::new(y.len(), |i: int| y[i].0);
    assert(p.no_duplicates()) by {
        assert forall|i: int, k: int| 0 <= i < p.len() && 0 <= k < p.len() && i != k implies p[i]
            != p[k] by {
            if i < k {
                assert(x[i].0 != x[k].0);
            } else {
                assert(x[k].0 != x[i].0);
            }
        }
    }
    assert(q.no_duplicates()) by {
        assert forall|i: int, k: int| 0 <= i < q.len() && 0 <= k < q.len() && i != k implies q[i]
            != q[k] by {
            if i < k {
                assert(y[i].0 != y[k].0);
            } else {
                assert(y[k].0 != y[i].0);
            }
        }
    }
    p.unique_seq_to_set();
    q.unique_seq_to_set();
    vstd::seq_lib::seq_to_set_is_finite(p);
    vstd::seq_lib::seq_to_set_is_finite(q);
    assert(p.to_set().subset_of(q.to_set())) by {
        assert forall|k: KeyTy| p.to_set().contains(k) implies q.to_set().contains(k) by {
            let i = choose|i: int| 0 <= i < p.len() && p[i] == k;
            assert(equality::among_fields(x[i], y));
            let m = choose|m: int|
                0 <= m < y.len() && equality::key_eq(x[i].0, (#[trigger] y[m]).0) && equality::ty_eq(x[i].1, y[m].1);
            assert(!(x[i].0 is TypeKey));
            assert(q[m] == k);
        }
    }
    vstd::set_lib::lemma_subset_equality(p.to_set(), q.to_set());
    assert(q[j] == y[j].0);
    assert(q.to_set().contains(y[j].0));
    assert(p.contains(y[j].0));
    let i = choose|i: int| 0 <= i < p.len() && p[i] == y[j].0;
    assert(equality::among_fields(x[i], y));
    let m = choose|m: int|
        0 <= m < y.len() && equality::key_eq(x[i].0, (#[trigger] y[m]).0) && equality::ty_eq(x[i].1, y[m].1);
    assert(!(x[i].0 is TypeKey));
    assert(y[m].0 == y[j].0);
    if m < j {
        assert(y[m].0 != y[j].0);
    } else if j < m {
        assert(y[j].0 != y[m].0);
    }
    i
}

proof fn lemma_fields_agree(x: Seq<(KeyTy, Ty)>, y: Seq<(KeyTy, Ty)>, z: Seq<(KeyTy, Ty)>)
    requires
        sound_fields(x),
        sound_fields(y),
        sound_fields(z),
        has_plain_keys(x),
        has_plain_keys(y),
        has_plain_keys(z),
        equality::fields_eq(x, y),
        equality::fields_eq(x, z),
    ensures
        equality::fields_eq(y, z),
    decreases x,
{
    assert forall|j: int| 0 <= j < y.len() implies equality::among_fields(#[trigger] y[j], z) by {
        let i = lemma_field_behind(x, y, j);
        assert(equality::among_fields(x[i], z));
        let m = choose|m: int|
            0 <= m < z.len() && equality::key_eq(x[i].0, (#[trigger] z[m]).0) && equality::ty_eq(x[i].1, z[m].1);
        assert(!(x[i].0 is TypeKey));
        assert(is_sound(x[i].1) && is_sound(z[m].1));
        lemma_agree(x[i].1, y[j].1, z[m].1);
        assert(equality::key_eq(y[j].0, z[m].0) && equality::ty_eq(y[j].1, z[m].1));
    }
}

proof fn lemma_pairs_agree(x: Seq<(Ty, Ty)>, y: Seq<(Ty, Ty)>, z: Seq<(Ty, Ty)>)
    requires
        sound_pairs(x),
        sound_pairs(y),
        sound_pairs(z),
        equality::pairs_eq(x, y),
        equality::pairs_eq(x, z),
    ensures
        equality::pairs_eq(y, z),
    decreases x,
{
    assert forall|i: int| 0 <= i < y.len() implies equality::ty_eq((#[trigger] y[i]).0, z[i].0) && equality::ty_eq(
        y[i].1,
        z[i].1,
    ) by {
        let (p, q, r) = (x[i], y[i], z[i]);
        lemma_agree(x[i].0, y[i].0, z[i].0);
        lemma_agree(x[i].1, y[i].1, z[i].1);
    }
}

proof fn lemma_named_agree(
    x: Seq<(Seq<char>, Option<Ty>)>,
    y: Seq<(Seq<char>, Option<Ty>)>,
    z: Seq<(Seq<char>, Option<Ty>)>,
)
    requires
        sound_named(x),
        sound_named(y),
        sound_named(z),
        equality::named_eq(x, y),
        equality::named_eq(x, z),
    ensures
        equality::named_eq(y, z),
    decreases x,
{
    assert forall|i: int| 0 <= i < y.len() implies (#[trigger] y[i]).0 == z[i].0 && equality::opt_eq(
        y[i].1,
        z[i].1,
    ) by {
        let (p, q, r) = (x[i], y[i], z[i]);
        lemma_opts_agree(x[i].1, y[i].1, z[i].1);
    }
}

proof fn lemma_lines_agree(
    x: Seq<(Ty, Option<Seq<char>>)>,
    y: Seq<(Ty, Option<Seq<char>>)>,
    z: Seq<(Ty, Option<Seq<char>>)>,
)
    requires
        sound_lines(x),
        sound_lines(y),
        sound_lines(z),
        equality::lines_eq(x, y),
        equality::lines_eq(x, z),
    ensures
        equality::lines_eq(y, z),
    decreases x,
{
    assert forall|i: int| 0 <= i < y.len() implies equality::ty_eq((#[trigger] y[i]).0, z[i].0) by {
        let (p, q, r) = (x[i], y[i], z[i]);
        lemma_agree(x[i].0, y[i].0, z[i].0);
    }
}

proof fn lemma_attributes_agree(x: Seq<AttributeTy>, y: Seq<AttributeTy>, z: Seq<AttributeTy>)
    requires
        sound_attributes(x),
        sound_attributes(y),
        sound_attributes(z),
        equality::attributes_eq(x, y),
        equality::attributes_eq(x, z),
    ensures
        equality::attributes_eq(y, z),
    decreases x,
{
    assert forall|i: int| 0 <= i < y.len() implies (#[trigger] y[i]).id == z[i].id && equality::named_eq(
        y[i].args,
        z[i].args,
    ) by {
        let (p, q, r) = (x[i], y[i], z[i]);
        lemma_named_agree(x[i].args, y[i].args, z[i].args);
    }
}

proof fn lemma_param_agrees(x: ParamTy, y: ParamTy, z: ParamTy)
    requires
        sound_param(x),
        sound_param(y),
        sound_param(z),
        equality::param_eq(x, y),
        equality::param_eq(x, z),
    ensures
        equality::param_eq(y, z),
    decreases x,
{
    lemma_opts_agree(x.constraint, y.constraint, z.constraint);
    lemma_opts_agree(x.default, y.default, z.default);
    if let (Some(p), Some(q), Some(r)) = (x.attributes, y.attributes, z.attributes) {
        lemma_attributes_agree(p, q, r);
    }
}

proof fn lemma_params_agree(x: Seq<ParamTy>, y: Seq<ParamTy>, z: Seq<ParamTy>)
    requires
        sound_params(x),
        sound_params(y),
        sound_params(z),
        equality::params_eq(x, y),
        equality::params_eq(x, z),
    ensures
        equality::params_eq(y, z),
    decreases x,
{
    assert forall|i: int| 0 <= i < y.len() implies equality::param_eq(#[trigger] y[i], z[i]) by {
        let (p, q, r) = (x[i], y[i], z[i]);
        lemma_param_agrees(x[i], y[i], z[i]);
    }
}

proof fn lemma_tpls_agree(x: Seq<TplTy>, y: Seq<TplTy>, z: Seq<TplTy>)
    requires
        sound_tpls(x),
        sound_tpls(y),
        sound_tpls(z),
        equality::tpls_eq(x, y),
        equality::tpls_eq(x, z),
    ensures
        equality::tpls_eq(y, z),
    decreases x,
{
    assert forall|i: int| 0 <= i < y.len() implies (#[trigger] y[i]).tpl_id == z[i].tpl_id
        && equality::param_eq(y[i].param, z[i].param) by {
        let (p, q, r) = (x[i], y[i], z[i]);
        lemma_param_agrees(x[i].param, y[i].param, z[i].param);
    }
}

/// Each type of a list is the same as some type of another list.
#[verifier::opaque]
spec fn all_among(x: Seq<Ty>, y: Seq<Ty>) -> bool {
    forall|i: int| 0 <= i < x.len() ==> equality::among_tys(#[trigger] x[i], y)
}

#[verifier::spinoff_prover]
proof fn lemma_held_by_equal(x: Seq<Ty>, y: Seq<Ty>, t: Ty)
    requires
        all_sound(x),
        all_sound(y),
        is_sound(t),
        all_among(x, y),
        equality::holds_ty(x, t),
    ensures
        equality::holds_ty(y, t),
    decreases x, 0nat,
{
    let i = choose|i: int| 0 <= i < x.len() && equality::ty_eq(#[trigger] x[i], t);
    assert(equality::among_tys(x[i], y)) by {
        reveal(all_among);
    }
    let k = choose|k: int| 0 <= k < y.len() && equality::ty_eq(x[i], #[trigger] y[k]);
    lemma_agree(x[i], y[k], t);
    assert(equality::ty_eq(y[k], t));
}

#[verifier::spinoff_prover]
proof fn lemma_among_equal(x: Seq<Ty>, t: Ty, z: Seq<Ty>)
    requires
        all_sound(x),
        all_sound(z),
        is_sound(t),
        all_among(x, z),
        equality::holds_ty(x, t),
    ensures
        equality::among_tys(t, z),
    decreases x, 0nat,
{
    let i = choose|i: int| 0 <= i < x.len() && equality::ty_eq(#[trigger] x[i], t);
    assert(equality::among_tys(x[i], z)) by {
        reveal(all_among);
    }
    let j = choose|j: int| 0 <= j < z.len() && equality::ty_eq(x[i], #[trigger] z[j]);
    lemma_agree(x[i], t, z[j]);
    assert(equality::ty_eq(t, z[j]));
}

#[verifier::opaque]
spec fn all_held(x: Seq<Ty>, y: Seq<Ty>) -> bool {
    forall|j: int| 0 <= j < y.len() ==> equality::holds_ty(x, #[trigger] y[j])
}

proof fn lemma_members_parts(x: Seq<Ty>, y: Seq<Ty>)
    ensures
        equality::members_eq(x, y) == (x.len() == y.len() && all_differ(x) && all_held(x, y)
            && all_among(x, y)),
{
    reveal(all_among);
    reveal(all_held);
}

proof fn lemma_held_at(x: Seq<Ty>, y: Seq<Ty>, j: int)
    requires
        all_held(x, y),
        0 <= j < y.len(),
    ensures
        equality::holds_ty(x, y[j]),
{
    reveal(all_held);
}

proof fn lemma_all_held(x: Seq<Ty>, y: Seq<Ty>, z: Seq<Ty>)
    requires
        all_sound(x),
        all_sound(y),
        all_sound(z),
        all_held(x, z),
        all_among(x, y),
    ensures
        all_held(y, z),
    decreases x, 1nat,
{
    assert forall|j: int| 0 <= j < z.len() implies equality::holds_ty(y, #[trigger] z[j]) by {
        lemma_held_at(x, z, j);
        lemma_held_by_equal(x, y, z[j]);
    }
    reveal(all_held);
}

proof fn lemma_all_among(x: Seq<Ty>, y: Seq<Ty>, z: Seq<Ty>)
    requires
        all_sound(x),
        all_sound(y),
        all_sound(z),
        all_held(x, y),
        all_among(x, z),
    ensures
        all_among(y, z),
    decreases x, 1nat,
{
    assert forall|k: int| 0 <= k < y.len() implies equality::among_tys(#[trigger] y[k], z) by {
        lemma_held_at(x, y, k);
        lemma_among_equal(x, y[k], z);
    }
    reveal(all_among);
}

proof fn lemma_members_agree(x: Seq<Ty>, y: Seq<Ty>, z: Seq<Ty>)
    requires
        all_sound(x),
        all_sound(y),
        all_sound(z),
        all_differ(y),
        equality::members_eq(x, y),
        equality::members_eq(x, z),
    ensures
        equality::members_eq(y, z),
    decreases x, 2nat,
{
    lemma_members_parts(x, y);
    lemma_members_parts(x, z);
    lemma_members_parts(y, z);
    lemma_all_held(x, y, z);
    lemma_all_among(x, y, z);
}

proof fn lemma_functions_agree(x: FunctionTy, y: FunctionTy, z: FunctionTy)
    requires
        is_sound(Ty::DocFunction(Box::new(x))),
        is_sound(Ty::DocFunction(Box::new(y))),
        is_sound(Ty::DocFunction(Box::new(z))),
        equality::ty_eq(Ty::DocFunction(Box::new(x)), Ty::DocFunction(Box::new(y))),
        equality::ty_eq(Ty::DocFunction(Box::new(x)), Ty::DocFunction(Box::new(z))),
    ensures
        equality::ty_eq(Ty::DocFunction(Box::new(y)), Ty::DocFunction(Box::new(z))),
    decreases x,
{
    lemma_tpls_agree(x.generic_params, y.generic_params, z.generic_params);
    lemma_named_agree(x.params, y.params, z.params);
    lemma_agree(x.ret, y.ret, z.ret);
}

proof fn lemma_objects_agree(x: ObjectTy, y: ObjectTy, z: ObjectTy)
    requires
        is_sound(Ty::Object(Box::new(x))),
        is_sound(Ty::Object(Box::new(y))),
        is_sound(Ty::Object(Box::new(z))),
        equality::ty_eq(Ty::Object(Box::new(x)), Ty::Object(Box::new(y))),
        equality::ty_eq(Ty::Object(Box::new(x)), Ty::Object(Box::new(z))),
    ensures
        equality::ty_eq(Ty::Object(Box::new(y)), Ty::Object(Box::new(z))),
    decreases x,
{
    lemma_fields_agree(x.fields, y.fields, z.fields);
    lemma_pairs_agree(x.index_access, y.index_access, z.index_access);
}

proof fn lemma_unions_agree(x: UnionTy, y: UnionTy, z: UnionTy)
    requires
        is_sound(Ty::Union(Box::new(x))),
        is_sound(Ty::Union(Box::new(y))),
        is_sound(Ty::Union(Box::new(z))),
        equality::ty_eq(Ty::Union(Box::new(x)), Ty::Union(Box::new(y))),
        equality::ty_eq(Ty::Union(Box::new(x)), Ty::Union(Box::new(z))),
    ensures
        equality::ty_eq(Ty::Union(Box::new(y)), Ty::Union(Box::new(z))),
    decreases x,
{
    match (x, y, z) {
        (UnionTy::Nullable(p), UnionTy::Nullable(q), UnionTy::Nullable(r)) => lemma_agree(p, q, r),
        (UnionTy::Multi(p), UnionTy::Multi(q), UnionTy::Multi(r)) => lemma_members_agree(p, q, r),
        _ => {},
    }
}

proof fn lemma_conditionals_agree(x: ConditionalTy, y: ConditionalTy, z: ConditionalTy)
    requires
        is_sound(Ty::Conditional(Box::new(x))),
        is_sound(Ty::Conditional(Box::new(y))),
        is_sound(Ty::Conditional(Box::new(z))),
        equality::ty_eq(Ty::Conditional(Box::new(x)), Ty::Conditional(Box::new(y))),
        equality::ty_eq(Ty::Conditional(Box::new(x)), Ty::Conditional(Box::new(z))),
    ensures
        equality::ty_eq(Ty::Conditional(Box::new(y)), Ty::Conditional(Box::new(z))),
    decreases x,
{
    lemma_agree(x.checked_type, y.checked_type, z.checked_type);
    lemma_agree(x.extends_type, y.extends_type, z.extends_type);
    lemma_agree(x.true_type, y.true_type, z.true_type);
    lemma_agree(x.false_type, y.false_type, z.false_type);
    lemma_params_agree(x.infer_params, y.infer_params, z.infer_params);
}

#[verifier::spinoff_prover]
#[verifier::rlimit(60)]
proof fn lemma_agree(a: Ty, b: Ty, c: Ty)
    requires
        is_sound(a),
        is_sound(b),
        is_sound(c),
        equality::ty_eq(a, b),
        equality::ty_eq(a, c),
    ensures
        equality::ty_eq(b, c),
    decreases a,
{
    match (a, b, c) {
        (Ty::Array(x), Ty::Array(y), Ty::Array(z)) => lemma_agree(x.base, y.base, z.base),
        (Ty::Tuple(x), Ty::Tuple(y), Ty::Tuple(z)) => lemma_all_agree(x.types, y.types, z.types),
        (Ty::DocFunction(x), Ty::DocFunction(y), Ty::DocFunction(z)) => lemma_functions_agree(
            *x,
            *y,
            *z,
        ),
        (Ty::Object(x), Ty::Object(y), Ty::Object(z)) => lemma_objects_agree(*x, *y, *z),
        (Ty::Union(x), Ty::Union(y), Ty::Union(z)) => lemma_unions_agree(*x, *y, *z),
        (Ty::Intersection(x), Ty::Intersection(y), Ty::Intersection(z)) => lemma_all_agree(x, y, z),
        (Ty::Generic(x), Ty::Generic(y), Ty::Generic(z)) => lemma_all_agree(
            x.params,
            y.params,
            z.params,
        ),
        (Ty::TableGeneric(x), Ty::TableGeneric(y), Ty::TableGeneric(z)) => lemma_all_agree(x, y, z),
        (Ty::TplRef(x), Ty::TplRef(y), Ty::TplRef(z)) => lemma_param_agrees(
            x.param,
            y.param,
            z.param,
        ),
        (Ty::StrTplRef(x), Ty::StrTplRef(y), Ty::StrTplRef(z)) => lemma_opts_agree(
            x.constraint,
            y.constraint,
            z.constraint,
        ),
        (Ty::Variadic(x), Ty::Variadic(y), Ty::Variadic(z)) => match (*x, *y, *z) {
            (VariadicTy::Multi(p), VariadicTy::Multi(q), VariadicTy::Multi(r)) => lemma_all_agree(
                p,
                q,
                r,
            ),
            (VariadicTy::Base(p), VariadicTy::Base(q), VariadicTy::Base(r)) => lemma_agree(p, q, r),
            _ => {},
        },
        (Ty::Instance(x), Ty::Instance(y), Ty::Instance(z)) => lemma_agree(x.base, y.base, z.base),
        (Ty::Call(x), Ty::Call(y), Ty::Call(z)) => lemma_all_agree(x.operand, y.operand, z.operand),
        (Ty::MultiLineUnion(x), Ty::MultiLineUnion(y), Ty::MultiLineUnion(z)) => lemma_lines_agree(
            x,
            y,
            z,
        ),
        (Ty::TypeGuard(x), Ty::TypeGuard(y), Ty::TypeGuard(z)) => lemma_agree(*x, *y, *z),
        (Ty::Conditional(x), Ty::Conditional(y), Ty::Conditional(z)) => lemma_conditionals_agree(
            *x,
            *y,
            *z,
        ),
        (Ty::Mapped(x), Ty::Mapped(y), Ty::Mapped(z)) => {
            lemma_param_agrees(x.param, y.param, z.param);
            lemma_agree(x.value, y.value, z.value);
        },
        _ => {},
    }
}

// ----------------------------------------------------------------------------
// The laws.

/// Every type equals itself.
pub proof fn equality_is_reflexive(t: Ty)
    requires
        is_sound(t),
    ensures
        equality::ty_eq(t, t),
{
    lemma_equals_itself(t);
}

/// If a type equals another one, the other one equals it.
pub proof fn equality_is_symmetric(a: Ty, b: Ty)
    requires
        is_sound(a),
        is_sound(b),
    ensures
        equality::ty_eq(a, b) == equality::ty_eq(b, a),
{
    lemma_equals_itself(a);
    lemma_equals_itself(b);
    if equality::ty_eq(a, b) {
        lemma_agree(a, b, a);
    }
    if equality::ty_eq(b, a) {
        lemma_agree(b, a, b);
    }
}

/// Types that equal the same type equal each other.
pub proof fn equality_is_transitive(a: Ty, b: Ty, c: Ty)
    requires
        is_sound(a),
        is_sound(b),
        is_sound(c),
        equality::ty_eq(a, b),
        equality::ty_eq(b, c),
    ensures
        equality::ty_eq(a, c),
{
    equality_is_symmetric(a, b);
    lemma_agree(b, a, c);
}

} // verus!
