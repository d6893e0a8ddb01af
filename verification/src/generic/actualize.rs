//! Templates for which no type is known.

use std::sync::Arc;
use vstd::prelude::*;

use crate::types;
use crate::generic::substitutor::clone_params;
use crate::types::{
    ArrayTy, ConditionalTy, FunctionTy, GenericParam, GenericTpl, GenericTy, KeyTy, LuaArrayType,
    LuaConditionalType, LuaFunctionType, LuaGenericType, LuaIntersectionType, LuaMemberKey,
    LuaMultiLineUnion, LuaObjectType, LuaTupleType, LuaType, LuaUnionType, ObjectTy, ParamTy, TplTy,
    TupleTy, Ty, UnionTy, VariadicTy, VariadicType, complex, predicates,
};
use crate::types::complex::clone_attributes;

verus! {

/// The type with `unknown` in the place of its templates, but for those that a pattern binds.
pub open spec fn actual(t: Ty) -> Ty
    decreases t,
{
    match t {
        Ty::TplRef(tpl) => if tpl.tpl_id is ConditionalInfer {
            t
        } else {
            Ty::Unknown
        },
        Ty::StrTplRef(_) => Ty::Unknown,
        Ty::Array(a) => Ty::Array(Box::new(ArrayTy { base: actual(a.base), len: a.len })),
        Ty::Tuple(x) => Ty::Tuple(
            Box::new(TupleTy { types: actual_all(x.types), status: x.status }),
        ),
        Ty::DocFunction(f) => Ty::DocFunction(
            Box::new(
                FunctionTy {
                    params: actual_named(f.params),
                    ret: actual(f.ret),
                    async_state: f.async_state,
                    is_colon_define: f.is_colon_define,
                    is_variadic: f.is_variadic,
                    generic_params: actual_tpls(f.generic_params),
                },
            ),
        ),
        Ty::Object(o) => Ty::Object(
            Box::new(
                ObjectTy {
                    fields: actual_fields(o.fields),
                    index_access: actual_pairs(o.index_access),
                },
            ),
        ),
        Ty::Union(u) => match *u {
            UnionTy::Basic(_) => predicates::ty_from_list(complex::union_tys(*u)),
            UnionTy::Nullable(x) => predicates::ty_from_list(seq![actual(x), Ty::Nil]),
            UnionTy::Multi(types) => predicates::ty_from_list(actual_all(types)),
        },
        Ty::Intersection(types) => Ty::Intersection(actual_all(types)),
        Ty::Generic(g) => Ty::Generic(
            Box::new(GenericTy { base: g.base, params: actual_all(g.params) }),
        ),
        Ty::TableGeneric(params) => Ty::TableGeneric(actual_all(params)),
        Ty::Variadic(v) => match *v {
            VariadicTy::Multi(types) => Ty::Variadic(
                Box::new(VariadicTy::Multi(actual_all(types))),
            ),
            VariadicTy::Base(x) => Ty::Variadic(Box::new(VariadicTy::Base(actual(x)))),
        },
        Ty::MultiLineUnion(lines) => predicates::ty_from_list(actual_lines(lines)),
        Ty::TypeGuard(x) => Ty::TypeGuard(Box::new(actual(*x))),
        Ty::Conditional(c) => Ty::Conditional(
            Box::new(
                ConditionalTy {
                    checked_type: actual(c.checked_type),
                    extends_type: actual(c.extends_type),
                    true_type: actual(c.true_type),
                    false_type: actual(c.false_type),
                    infer_params: c.infer_params,
                    has_new: c.has_new,
                },
            ),
        ),
        _ => t,
    }
}

pub open spec fn actual_all(types: Seq<Ty>) -> Seq<Ty>
    decreases types,
{
    Seq::new(
        types.len(),
        |i: int|
            if 0 <= i < types.len() {
                actual(types[i])
            } else {
                Ty::Unknown
            },
    )
}

pub open spec fn actual_opt(t: Option<Ty>) -> Option<Ty>
    decreases t,
{
    match t {
        Some(t) => Some(actual(t)),
        None => None,
    }
}

pub open spec fn actual_named(
    params: Seq<(Seq<char>, Option<Ty>)>,
) -> Seq<(Seq<char>, Option<Ty>)>
    decreases params,
{
    Seq::new(
        params.len(),
        |i: int|
            if 0 <= i < params.len() {
                (params[i].0, actual_opt(params[i].1))
            } else {
                arbitrary()
            },
    )
}

pub open spec fn actual_fields(
    fields: Seq<(KeyTy, Ty)>,
) -> Seq<(KeyTy, Ty)>
    decreases fields,
{
    Seq::new(
        fields.len(),
        |i: int|
            if 0 <= i < fields.len() {
                (fields[i].0, actual(fields[i].1))
            } else {
                arbitrary()
            },
    )
}

pub open spec fn actual_pairs(pairs: Seq<(Ty, Ty)>) -> Seq<(Ty, Ty)>
    decreases pairs,
{
    Seq::new(
        pairs.len(),
        |i: int|
            if 0 <= i < pairs.len() {
                (actual(pairs[i].0), actual(pairs[i].1))
            } else {
                arbitrary()
            },
    )
}

pub open spec fn actual_lines(lines: Seq<(Ty, Option<Seq<char>>)>) -> Seq<Ty>
    decreases lines,
{
    Seq::new(
        lines.len(),
        |i: int|
            if 0 <= i < lines.len() {
                actual(lines[i].0)
            } else {
                Ty::Unknown
            },
    )
}

pub open spec fn actual_param(p: ParamTy) -> ParamTy
    decreases p,
{
    ParamTy {
        name: p.name,
        constraint: actual_opt(p.constraint),
        default: actual_opt(p.default),
        is_const: p.is_const,
        attributes: p.attributes,
    }
}

pub open spec fn actual_tpls(tpls: Seq<TplTy>) -> Seq<TplTy>
    decreases tpls,
{
    Seq::new(
        tpls.len(),
        |i: int|
            if 0 <= i < tpls.len() {
                TplTy { tpl_id: tpls[i].tpl_id, param: actual_param(tpls[i].param) }
            } else {
                arbitrary()
            },
    )
}

/// Puts `unknown` in the place of the templates of a type, but for those that a pattern binds.
pub fn actualize_unresolved_templates(t: &LuaType) -> (r: LuaType)
    ensures
        r@ == actual(t@),
    decreases t,
{
    match t {
        LuaType::TplRef(tpl) => if tpl.get_tpl_id().is_conditional_infer() {
            t.clone()
        } else {
            LuaType::Unknown
        },
        LuaType::StrTplRef(_) => LuaType::Unknown,
        LuaType::Array(a) => actualize_array(a),
        LuaType::Tuple(x) => actualize_tuple(x),
        LuaType::DocFunction(f) => LuaType::DocFunction(Arc::new(actualize_function(f))),
        LuaType::Object(o) => actualize_object(o),
        LuaType::Union(u) => actualize_union(u),
        LuaType::Intersection(x) => actualize_intersection(x),
        LuaType::Generic(g) => actualize_generic(g),
        LuaType::TableGeneric(params) => LuaType::TableGeneric(
            Arc::new(actualize_types(params)),
        ),
        LuaType::Variadic(v) => actualize_variadic(v),
        LuaType::MultiLineUnion(u) => actualize_multi_line_union(u),
        LuaType::TypeGuard(x) => LuaType::TypeGuard(Arc::new(actualize_unresolved_templates(x))),
        LuaType::Conditional(c) => actualize_conditional(c),
        _ => t.clone(),
    }
}

fn actualize_array(a: &LuaArrayType) -> (r: LuaType)
    ensures
        r@ == actual(Ty::Array(Box::new(a@))),
    decreases a,
{
    let base = actualize_unresolved_templates(&a.base);
    LuaType::Array(Arc::new(LuaArrayType::new(base, a.len)))
}

fn actualize_tuple(x: &LuaTupleType) -> (r: LuaType)
    ensures
        r@ == actual(Ty::Tuple(Box::new(x@))),
    decreases x,
{
    let types = actualize_types(&x.types);
    LuaType::Tuple(Arc::new(LuaTupleType::new(types, x.status)))
}

fn actualize_object(o: &LuaObjectType) -> (r: LuaType)
    ensures
        r@ == actual(Ty::Object(Box::new(o@))),
    decreases o,
{
    let fields = actualize_fields(&o.fields);
    let index_access = actualize_pairs(&o.index_access);
    LuaType::Object(Arc::new(LuaObjectType::new_with_fields(fields, index_access)))
}

fn actualize_union(u: &Arc<LuaUnionType>) -> (r: LuaType)
    ensures
        r@ == actual(Ty::Union(Box::new(u@))),
    decreases u,
{
    match &**u {
    LuaUnionType::Basic(kinds) => {
        assert(u@ == UnionTy::Basic(kinds@));
        LuaType::from_vec(u.into_vec())
    },
    LuaUnionType::Nullable(x) => {
        let mut types: Vec<LuaType> = Vec::new();
        types.push(actualize_unresolved_templates(x));
        types.push(LuaType::Nil);
        assert(types::tys(types@) =~= seq![actual(x@), Ty::Nil]);
        LuaType::from_vec(types)
    },
    LuaUnionType::Multi(members) => LuaType::from_vec(
        actualize_types(&members.types),
    ),
}
}

fn actualize_intersection(x: &LuaIntersectionType) -> (r: LuaType)
    ensures
        r@ == actual(Ty::Intersection(x@)),
    decreases x,
{
    let types = actualize_types(&x.types);
    LuaType::Intersection(Arc::new(LuaIntersectionType::new(types)))
}

fn actualize_generic(g: &LuaGenericType) -> (r: LuaType)
    ensures
        r@ == actual(Ty::Generic(Box::new(g@))),
    decreases g,
{
    let params = actualize_types(&g.params);
    LuaType::Generic(Arc::new(LuaGenericType::new(g.base.clone(), params)))
}

fn actualize_variadic(v: &VariadicType) -> (r: LuaType)
    ensures
        r@ == actual(Ty::Variadic(Box::new(v@))),
    decreases v,
{
    match v {
        VariadicType::Multi(types) => {
            let multi = VariadicType::Multi(actualize_types(types));
            assert(multi@ == VariadicTy::Multi(actual_all(types::tys(types@))));
            LuaType::Variadic(Arc::new(multi))
        },
        VariadicType::Base(x) => {
            let base = actualize_unresolved_templates(x);
            assert(v@ == VariadicTy::Base(x@));
            let run = VariadicType::Base(base);
            assert(run@ == VariadicTy::Base(base@));
            LuaType::Variadic(Arc::new(run))
        },
    }
}

fn actualize_multi_line_union(u: &LuaMultiLineUnion) -> (r: LuaType)
    ensures
        r@ == actual(Ty::MultiLineUnion(u@)),
    decreases u,
{
    assert(u@ == types::line_tys(u.unions@));
    LuaType::from_vec(actualize_lines(&u.unions))
}

fn actualize_conditional(c: &LuaConditionalType) -> (r: LuaType)
    ensures
        r@ == actual(Ty::Conditional(Box::new(c@))),
    decreases c,
{
    let checked_type = actualize_unresolved_templates(&c.checked_type);
    let extends_type = actualize_unresolved_templates(&c.extends_type);
    let true_type = actualize_unresolved_templates(&c.true_type);
    let false_type = actualize_unresolved_templates(&c.false_type);
    LuaType::Conditional(
        Arc::new(
            LuaConditionalType::new(
                checked_type,
                extends_type,
                true_type,
                false_type,
                clone_params(&c.infer_params),
                c.has_new,
            ),
        ),
    )
}

pub open spec fn actual_function(f: FunctionTy) -> FunctionTy {
    FunctionTy {
        params: actual_named(f.params),
        ret: actual(f.ret),
        generic_params: actual_tpls(f.generic_params),
        ..f
    }
}

pub fn actualize_function(f: &LuaFunctionType) -> (r: LuaFunctionType)
    ensures
        r@ == actual_function(f@),
    decreases f,
{
    let params = actualize_named(&f.params);
    let ret = actualize_unresolved_templates(&f.ret);
    LuaFunctionType::new(
        f.async_state,
        f.is_colon_define,
        f.is_variadic,
        params,
        ret,
        Some(actualize_function_generic_params(&f.generic_params)),
    )
}

pub fn actualize_types(types: &Vec<LuaType>) -> (r: Vec<LuaType>)
    ensures
        types::tys(r@) == actual_all(types::tys(types@)),
    decreases types,
{
    let ghost all = types::tys(types@);
    let mut r: Vec<LuaType> = Vec::new();
    let mut i: usize = 0;
    while i < types.len()
        invariant
            i <= types@.len(),
            all == types::tys(types@),
            r@.len() == i,
            forall|j: int| 0 <= j < i ==> (#[trigger] r@[j])@ == actual(all[j]),
        decreases types@.len() - i,
    {
        r.push(actualize_unresolved_templates(&types[i]));
        i += 1;
    }
    assert(types::tys(r@) =~= actual_all(all));
    r
}

fn actualize_opt(t: &Option<LuaType>) -> (r: Option<LuaType>)
    ensures
        types::opt_ty(r) == actual_opt(types::opt_ty(*t)),
    decreases t,
{
    match t {
        Some(t) => Some(actualize_unresolved_templates(t)),
        None => None,
    }
}

fn actualize_named(params: &Vec<(String, Option<LuaType>)>) -> (r: Vec<
    (String, Option<LuaType>),
>)
    ensures
        types::named_tys(r@) == actual_named(types::named_tys(params@)),
    decreases params,
{
    let ghost all = types::named_tys(params@);
    let mut r: Vec<(String, Option<LuaType>)> = Vec::new();
    let mut i: usize = 0;
    while i < params.len()
        invariant
            i <= params@.len(),
            all == types::named_tys(params@),
            r@.len() == i,
            forall|j: int|
                0 <= j < i ==> (#[trigger] r@[j]).0@ == all[j].0 && types::opt_ty(r@[j].1) == actual_opt(
                    all[j].1,
                ),
        decreases params@.len() - i,
    {
        r.push((params[i].0.clone(), actualize_opt(&params[i].1)));
        i += 1;
    }
    assert(types::named_tys(r@) =~= actual_named(all));
    r
}

fn actualize_fields(fields: &Vec<(LuaMemberKey, LuaType)>) -> (r: Vec<
    (LuaMemberKey, LuaType),
>)
    ensures
        types::field_tys(r@) == actual_fields(types::field_tys(fields@)),
    decreases fields,
{
    let ghost all = types::field_tys(fields@);
    let mut r: Vec<(LuaMemberKey, LuaType)> = Vec::new();
    let mut i: usize = 0;
    while i < fields.len()
        invariant
            i <= fields@.len(),
            all == types::field_tys(fields@),
            r@.len() == i,
            forall|j: int|
                0 <= j < i ==> (#[trigger] r@[j]).0@ == all[j].0 && r@[j].1@ == actual(all[j].1),
        decreases fields@.len() - i,
    {
        r.push((fields[i].0.clone(), actualize_unresolved_templates(&fields[i].1)));
        i += 1;
    }
    assert(types::field_tys(r@) =~= actual_fields(all));
    r
}

fn actualize_pairs(pairs: &Vec<(LuaType, LuaType)>) -> (r: Vec<
    (LuaType, LuaType),
>)
    ensures
        types::pair_tys(r@) == actual_pairs(types::pair_tys(pairs@)),
    decreases pairs,
{
    let ghost all = types::pair_tys(pairs@);
    let mut r: Vec<(LuaType, LuaType)> = Vec::new();
    let mut i: usize = 0;
    while i < pairs.len()
        invariant
            i <= pairs@.len(),
            all == types::pair_tys(pairs@),
            r@.len() == i,
            forall|j: int|
                0 <= j < i ==> (#[trigger] r@[j]).0@ == actual(all[j].0) && r@[j].1@ == actual(
                    all[j].1,
                ),
        decreases pairs@.len() - i,
    {
        r.push(
            (actualize_unresolved_templates(&pairs[i].0), actualize_unresolved_templates(&pairs[i].1)),
        );
        i += 1;
    }
    assert(types::pair_tys(r@) =~= actual_pairs(all));
    r
}

fn actualize_lines(lines: &Vec<(LuaType, Option<String>)>) -> (r: Vec<LuaType>)
    ensures
        types::tys(r@) == actual_lines(types::line_tys(lines@)),
    decreases lines,
{
    let ghost all = types::line_tys(lines@);
    let mut r: Vec<LuaType> = Vec::new();
    let mut i: usize = 0;
    while i < lines.len()
        invariant
            i <= lines@.len(),
            all == types::line_tys(lines@),
            r@.len() == i,
            forall|j: int| 0 <= j < i ==> (#[trigger] r@[j])@ == actual(all[j].0),
        decreases lines@.len() - i,
    {
        r.push(actualize_unresolved_templates(&lines[i].0));
        i += 1;
    }
    assert(types::tys(r@) =~= actual_lines(all));
    r
}

fn actualize_param(p: &GenericParam) -> (r: GenericParam)
    ensures
        r@ == actual_param(p@),
    decreases p,
{
    let attributes = match &p.attributes {
        Some(attributes) => Some(clone_attributes(attributes)),
        None => None,
    };
    let r = GenericParam {
        name: p.name.clone(),
        constraint: actualize_opt(&p.constraint),
        default: actualize_opt(&p.default),
        is_const: p.is_const,
        attributes,
    };
    assert(p@.constraint == types::opt_ty(p.constraint) && p@.default == types::opt_ty(p.default));
    assert(r@.constraint == types::opt_ty(r.constraint) && r@.default == types::opt_ty(r.default));
    r
}

fn actualize_function_generic_params(tpls: &Vec<GenericTpl>) -> (r: Vec<GenericTpl>)
    ensures
        types::tpl_tys(r@) == actual_tpls(types::tpl_tys(tpls@)),
    decreases tpls,
{
    let ghost all = types::tpl_tys(tpls@);
    let mut r: Vec<GenericTpl> = Vec::new();
    let mut i: usize = 0;
    while i < tpls.len()
        invariant
            i <= tpls@.len(),
            all == types::tpl_tys(tpls@),
            r@.len() == i,
            forall|j: int|
                0 <= j < i ==> (#[trigger] r@[j])@ == (TplTy {
                    tpl_id: all[j].tpl_id,
                    param: actual_param(all[j].param),
                }),
        decreases tpls@.len() - i,
    {
        let param = actualize_param(&tpls[i].param);
        let tpl = GenericTpl { tpl_id: tpls[i].tpl_id, param };
        proof {
            assert(all[i as int] == tpls@[i as int]@);
            assert(tpls@[i as int]@.param == tpls@[i as int].param@);
            assert(tpl@ == (TplTy { tpl_id: tpl.tpl_id, param: tpl.param@ }));
        }
        r.push(tpl);
        i += 1;
    }
    assert(types::tpl_tys(r@) =~= actual_tpls(all));
    r
}

} // verus!
