//! Types that are made of other types.

use std::sync::Arc;
use vstd::prelude::*;

use crate::types;
use crate::types::{
    ArrayTy, AsyncState, BasicTypeKind, BasicTypeUnion, CallTy, ConditionalTy, FunctionTy,
    GenericParam, GenericTpl, GenericTplId, GenericTy, InFiled, InstanceTy, KeyTy, LuaAliasCallKind,
    LuaAliasCallType, LuaArrayLen, LuaArrayType, LuaAttributeUse, LuaConditionalType,
    LuaFunctionType, LuaGenericType, LuaIndexAccessKey, LuaInstanceType, LuaIntersectionType,
    LuaMappedType, LuaMemberKey, LuaMultiLineUnion, LuaObjectType, LuaStringTplType, LuaTupleStatus,
    LuaTupleType, LuaType, LuaTypeDeclId, LuaUnionMembers, LuaUnionType, ObjectTy, ParamTy,
    StrTplTy, TplTy, TupleTy, Ty, UnionTy, VariadicTy, VariadicType, basic, equality, traverse,
};
use crate::types::traverse::contain_tpl_children;

verus! {

/// Whether `s` reads `text`.
pub fn text_is(s: &String, text: &str) -> (r: bool)
    ensures
        r == (s@ == text@),
{
    *s == text.to_owned()
}

// ----------------------------------------------------------------------------
// Runs of values.

/// The type at place `idx` of a run of values.
pub open spec fn variadic_at(v: VariadicTy, idx: nat) -> Option<Ty>
    decreases v,
{
    match v {
        VariadicTy::Base(t) => Some(t),
        VariadicTy::Multi(types) => types_at(types, idx),
    }
}

/// The type at place `idx` of a list whose last entry may be a run of values.
pub open spec fn types_at(types: Seq<Ty>, idx: nat) -> Option<Ty>
    decreases types,
{
    if types.len() == 0 {
        None
    } else if idx + 1 < types.len() {
        Some(types[idx as int])
    } else {
        let offset = (idx - (types.len() - 1)) as nat;
        match types[types.len() - 1] {
            Ty::Variadic(inner) => variadic_at(*inner, offset),
            last => if offset == 0 {
                Some(last)
            } else {
                None
            },
        }
    }
}

/// The element at place `idx` of a tuple; past the end, what the run of values at the end holds
/// there.
pub open spec fn tuple_at(types: Seq<Ty>, idx: nat) -> Option<Ty> {
    if idx < types.len() {
        Some(types[idx as int])
    } else if types.len() == 0 {
        None
    } else {
        match types[types.len() - 1] {
            Ty::Variadic(inner) => variadic_at(*inner, (idx - (types.len() - 1)) as nat),
            _ => None,
        }
    }
}

/// What is left of a run of values after its first `idx` places.
pub open spec fn variadic_from(v: VariadicTy, idx: nat) -> VariadicTy
    decreases v,
{
    match v {
        VariadicTy::Base(t) => VariadicTy::Base(t),
        VariadicTy::Multi(types) => if types.len() == 0 {
            VariadicTy::Multi(Seq::empty())
        } else if idx < types.len() {
            VariadicTy::Multi(types.skip(idx as int))
        } else {
            match types[types.len() - 1] {
                Ty::Variadic(inner) => variadic_from(*inner, (idx - (types.len() - 1)) as nat),
                _ => VariadicTy::Multi(Seq::empty()),
            }
        },
    }
}

/// The number of values that a run holds at least; none where any number will do.
pub open spec fn variadic_min_len(v: VariadicTy) -> Option<nat>
    decreases v,
{
    match v {
        VariadicTy::Base(_) => None,
        VariadicTy::Multi(types) => Some(min_len_of(types)),
    }
}

pub open spec fn min_len_of(types: Seq<Ty>) -> nat
    decreases types,
{
    if types.len() == 0 {
        0
    } else {
        match types[0] {
            Ty::Variadic(inner) => match variadic_min_len(*inner) {
                Some(len) => len + min_len_of(types.skip(1)),
                None => 0,
            },
            _ => 1 + min_len_of(types.skip(1)),
        }
    }
}

/// The number of values that a run holds at most; none where there is no such number.
pub open spec fn variadic_max_len(v: VariadicTy) -> Option<nat>
    decreases v,
{
    match v {
        VariadicTy::Base(_) => None,
        VariadicTy::Multi(types) => max_len_of(types),
    }
}

pub open spec fn max_len_of(types: Seq<Ty>) -> Option<nat>
    decreases types,
{
    if types.len() == 0 {
        Some(0)
    } else {
        let first = match types[0] {
            Ty::Variadic(inner) => variadic_max_len(*inner),
            _ => Some(1),
        };
        match (first, max_len_of(types.skip(1))) {
            (Some(a), Some(b)) => Some(a + b),
            _ => None,
        }
    }
}

/// A number of values as a machine holds it: what does not fit is the greatest number that does.
pub open spec fn machine_len(len: nat) -> usize {
    if len > usize::MAX {
        usize::MAX
    } else {
        len as usize
    }
}

pub open spec fn machine_opt_len(len: Option<nat>) -> Option<usize> {
    match len {
        Some(len) => Some(machine_len(len)),
        None => None,
    }
}

/// Dropping the first places of a run shifts every place after them.
pub proof fn variadic_from_shifts_places(v: VariadicTy, skipped: nat, idx: nat)
    ensures
        variadic_at(variadic_from(v, skipped), idx) == variadic_at(v, skipped + idx),
    decreases v,
{
    match v {
        VariadicTy::Base(_) => {},
        VariadicTy::Multi(types) => {
            if types.len() == 0 {
            } else if skipped < types.len() {
                let rest = types.skip(skipped as int);
                assert(rest.len() == types.len() - skipped);
                assert(rest[rest.len() - 1] == types[types.len() - 1]);
                assert(types_at(rest, idx) == types_at(types, skipped + idx)) by {
                    if idx + 1 < rest.len() {
                        assert(rest[idx as int] == types[(skipped + idx) as int]);
                    }
                }
            } else {
                let last = types[types.len() - 1];
                if let Ty::Variadic(inner) = last {
                    let offset = (skipped - (types.len() - 1)) as nat;
                    variadic_from_shifts_places(*inner, offset, idx);
                }
            }
        },
    }
}

/// A run with a greatest number of values has no fewer of them than its least number.
pub proof fn variadic_min_is_at_most_max(v: VariadicTy)
    ensures
        variadic_max_len(v) matches Some(max) ==> variadic_min_len(v) == Some(max),
    decreases v,
{
    match v {
        VariadicTy::Base(_) => {},
        VariadicTy::Multi(types) => lemma_min_max_of(types),
    }
}

proof fn lemma_min_max_of(types: Seq<Ty>)
    ensures
        max_len_of(types) matches Some(max) ==> min_len_of(types) == max,
    decreases types,
{
    if types.len() > 0 {
        assert(decreases_to!(types => types[0]));
        assert(decreases_to!(types => types.skip(1)));
        if let Ty::Variadic(inner) = types[0] {
            variadic_min_is_at_most_max(*inner);
        }
        lemma_min_max_of(types.skip(1));
    }
}

proof fn lemma_min_len_step(types: Seq<Ty>, i: int)
    requires
        0 <= i < types.len(),
    ensures
        min_len_of(types.skip(i)) == match types[i] {
            Ty::Variadic(inner) => match variadic_min_len(*inner) {
                Some(len) => len + min_len_of(types.skip(i + 1)),
                None => 0,
            },
            _ => 1 + min_len_of(types.skip(i + 1)),
        },
        max_len_of(types.skip(i)) == match (
            match types[i] {
                Ty::Variadic(inner) => variadic_max_len(*inner),
                _ => Some(1nat),
            },
            max_len_of(types.skip(i + 1)),
        ) {
            (Some(a), Some(b)) => Some(a + b),
            _ => None,
        },
{
    assert(types.skip(i).skip(1) =~= types.skip(i + 1));
    assert(types.skip(i)[0] == types[i]);
}

impl VariadicType {
    pub fn get_type(&self, idx: usize) -> (r: Option<&LuaType>)
        ensures
            opt_ref_ty(r) == variadic_at(self@, idx as nat),
        decreases self,
    {
        match self {
            VariadicType::Base(t) => Some(t),
            VariadicType::Multi(types) => type_at(types, idx),
        }
    }

    pub fn get_new_variadic_from(&self, idx: usize) -> (r: VariadicType)
        ensures
            r@ == variadic_from(self@, idx as nat),
        decreases self,
    {
        match self {
            VariadicType::Base(t) => VariadicType::Base(t.clone()),
            VariadicType::Multi(types) => {
                let ghost all = types::tys(types@);
                if types.len() == 0 {
                    let rest: Vec<LuaType> = Vec::new();
                    assert(types::tys(rest@) =~= Seq::<Ty>::empty());
                    return VariadicType::Multi(rest);
                }
                if idx < types.len() {
                    let rest = types_from(types, idx);
                    return VariadicType::Multi(rest);
                }
                let last = types.len() - 1;
                if let LuaType::Variadic(multi) = &types[last] {
                    assert(all[last as int] == types::ty(types@[last as int]));
                    return multi.get_new_variadic_from(idx - last);
                }
                assert(all[last as int] == types::ty(types@[last as int]));
                let rest: Vec<LuaType> = Vec::new();
                assert(types::tys(rest@) =~= Seq::<Ty>::empty());
                VariadicType::Multi(rest)
            },
        }
    }

    pub fn contain_tpl(&self) -> (r: bool)
        ensures
            r == traverse::holds_tpl(traverse::nested(Ty::Variadic(Box::new(self@)))),
    {
        contain_tpl_children(self)
    }

    /// The least number of values, as a machine holds it.
    pub fn get_min_len(&self) -> (r: Option<usize>)
        ensures
            r == machine_opt_len(variadic_min_len(self@)),
        decreases self,
    {
        match self {
            VariadicType::Base(_) => None,
            VariadicType::Multi(types) => {
                let ghost all = types::tys(types@);
                let mut total_len: usize = 0;
                let ghost mut exact: nat = 0;
                let mut i: usize = 0;
                proof {
                    assert(all.skip(0) =~= all);
                }
                while i < types.len()
                    invariant
                        i <= types@.len(),
                        all == types::tys(types@),
                        total_len == machine_len(exact),
                        exact + min_len_of(all.skip(i as int)) == min_len_of(all),
                        self == VariadicType::Multi(*types),
                    decreases types@.len() - i,
                {
                    let t = &types[i];
                    proof {
                        assert(all[i as int] == types::ty(*t));
                        lemma_min_len_step(all, i as int);
                    }
                    if let LuaType::Variadic(variadic) = t {
                        match variadic.get_min_len() {
                            Some(len) => {
                                proof {
                                    exact = exact + variadic_min_len(variadic@).unwrap();
                                }
                                total_len = total_len.saturating_add(len);
                            },
                            None => {
                                return Some(total_len);
                            },
                        }
                    } else {
                        proof {
                            exact = exact + 1;
                        }
                        total_len = total_len.saturating_add(1);
                    }
                    i += 1;
                }
                assert(min_len_of(all.skip(i as int)) == 0);
                Some(total_len)
            },
        }
    }

    /// The greatest number of values, as a machine holds it.
    pub fn get_max_len(&self) -> (r: Option<usize>)
        ensures
            r == machine_opt_len(variadic_max_len(self@)),
        decreases self,
    {
        match self {
            VariadicType::Base(_) => None,
            VariadicType::Multi(types) => {
                let ghost all = types::tys(types@);
                let mut total_len: usize = 0;
                let ghost mut exact: nat = 0;
                let mut i: usize = 0;
                proof {
                    assert(all.skip(0) =~= all);
                }
                while i < types.len()
                    invariant
                        i <= types@.len(),
                        all == types::tys(types@),
                        total_len == machine_len(exact),
                        max_len_of(all) == (match max_len_of(all.skip(i as int)) {
                            Some(rest) => Some(exact + rest),
                            None => None,
                        }),
                        self == VariadicType::Multi(*types),
                    decreases types@.len() - i,
                {
                    let t = &types[i];
                    proof {
                        assert(all[i as int] == types::ty(*t));
                        lemma_min_len_step(all, i as int);
                    }
                    if let LuaType::Variadic(variadic) = t {
                        match variadic.get_max_len() {
                            Some(len) => {
                                proof {
                                    exact = exact + variadic_max_len(variadic@).unwrap();
                                }
                                total_len = total_len.saturating_add(len);
                            },
                            None => {
                                return None;
                            },
                        }
                    } else {
                        proof {
                            exact = exact + 1;
                        }
                        total_len = total_len.saturating_add(1);
                    }
                    i += 1;
                }
                assert(max_len_of(all.skip(i as int)) == Some(0nat));
                Some(total_len)
            },
        }
    }
}

/// The picture of an optional borrowed type.
pub open spec fn opt_ref_ty(t: Option<&LuaType>) -> Option<Ty> {
    match t {
        Some(t) => Some(t@),
        None => None,
    }
}

pub fn type_at(types: &Vec<LuaType>, idx: usize) -> (r: Option<&LuaType>)
    ensures
        opt_ref_ty(r) == types_at(types::tys(types@), idx as nat),
    decreases types,
{
    let types_len = types.len();
    if types_len == 0 {
        return None;
    }
    let last_idx = types_len - 1;
    if idx < last_idx {
        return Some(&types[idx]);
    }
    let last_ty = &types[last_idx];
    let offset = idx - last_idx;
    assert(types::tys(types@)[last_idx as int] == types::ty(*last_ty));
    if let LuaType::Variadic(variadic) = last_ty {
        variadic.get_type(offset)
    } else if offset == 0 {
        Some(last_ty)
    } else {
        None
    }
}

/// The types from place `idx` on.
pub fn types_from(types: &Vec<LuaType>, idx: usize) -> (r: Vec<LuaType>)
    requires
        idx <= types@.len(),
    ensures
        r@ == types@.skip(idx as int),
        types::tys(r@) == types::tys(types@).skip(idx as int),
{
    let mut rest: Vec<LuaType> = Vec::new();
    let mut i: usize = idx;
    while i < types.len()
        invariant
            idx <= i <= types@.len(),
            rest@ == types@.subrange(idx as int, i as int),
        decreases types@.len() - i,
    {
        rest.push(types[i].clone());
        i += 1;
    }
    assert(rest@ =~= types@.skip(idx as int));
    assert(types::tys(rest@) =~= types::tys(types@).skip(idx as int));
    rest
}

pub fn clone_types(types: &Vec<LuaType>) -> (r: Vec<LuaType>)
    ensures
        r@ == types@,
{
    let r = types_from(types, 0);
    assert(types@.skip(0) =~= types@);
    r
}

pub fn clone_opt_type(t: &Option<LuaType>) -> (r: Option<LuaType>)
    ensures
        r == *t,
{
    match t {
        Some(t) => Some(t.clone()),
        None => None,
    }
}

pub fn clone_named(params: &[(String, Option<LuaType>)]) -> (r: Vec<(String, Option<LuaType>)>)
    ensures
        r@ == params@,
{
    let mut r: Vec<(String, Option<LuaType>)> = Vec::new();
    let mut i: usize = 0;
    while i < params.len()
        invariant
            i <= params@.len(),
            r@ == params@.take(i as int),
        decreases params@.len() - i,
    {
        r.push((params[i].0.clone(), clone_opt_type(&params[i].1)));
        i += 1;
    }
    assert(params@.take(i as int) =~= params@);
    r
}

// ----------------------------------------------------------------------------
// Tuples.

impl LuaTupleType {
    pub fn new(types: Vec<LuaType>, status: LuaTupleStatus) -> (r: Self)
        ensures
            r@ == (TupleTy { types: types::tys(types@), status }),
    {
        LuaTupleType { types, status }
    }

    pub fn get_types(&self) -> (r: &[LuaType])
        ensures
            types::tys(r@) == self@.types,
    {
        self.types.as_slice()
    }

    /// The element at place `idx`; past the end, what the run of values at the end holds there.
    pub fn get_type(&self, idx: usize) -> (r: Option<&LuaType>)
        ensures
            opt_ref_ty(r) == tuple_at(self@.types, idx as nat),
    {
        if idx < self.types.len() {
            return Some(&self.types[idx]);
        }
        if self.types.len() == 0 {
            return None;
        }
        let last_id = self.types.len() - 1;
        assert(types::tys(self.types@)[last_id as int] == types::ty(self.types@[last_id as int]));
        if let LuaType::Variadic(variadic) = &self.types[last_id] {
            return variadic.get_type(idx - last_id);
        }
        None
    }

    pub fn len(&self) -> (r: usize)
        ensures
            r == self@.types.len(),
    {
        self.types.len()
    }

    pub fn is_empty(&self) -> (r: bool)
        ensures
            r == (self@.types.len() == 0),
    {
        self.types.len() == 0
    }

    pub fn contain_tpl(&self) -> (r: bool)
        ensures
            r == traverse::holds_tpl(traverse::nested(Ty::Tuple(Box::new(self@)))),
    {
        contain_tpl_children(self)
    }

    pub fn is_infer_resolve(&self) -> (r: bool)
        ensures
            r == (self@.status is InferResolve),
    {
        matches!(self.status, LuaTupleStatus::InferResolve)
    }
}

// ----------------------------------------------------------------------------
// Functions.

/// Whether a function takes the object that it belongs to.
pub open spec fn function_contains_self(f: FunctionTy) -> bool {
    ||| f.is_colon_define
    ||| exists|i: int|
        0 <= i < f.params.len() && ((#[trigger] f.params[i]).0 == "self"@ || f.params[i].1 == Some(
            Ty::SelfInfer,
        ))
    ||| f.ret is SelfInfer
}

/// The function that a call operator stands for: the same without the receiver parameter.
pub open spec fn call_operator_function(f: FunctionTy) -> FunctionTy {
    FunctionTy {
        is_colon_define: false,
        params: if f.params.len() > 0 && f.params[0].0 == "@call_self"@ {
            f.params.skip(1)
        } else {
            f.params
        },
        ..f
    }
}

impl LuaFunctionType {
    pub fn new(
        async_state: AsyncState,
        is_colon_define: bool,
        is_variadic: bool,
        params: Vec<(String, Option<LuaType>)>,
        ret: LuaType,
        generic_params: Option<Vec<GenericTpl>>,
    ) -> (r: Self)
        ensures
            r@ == (FunctionTy {
                async_state,
                is_colon_define,
                is_variadic,
                generic_params: match generic_params {
                    Some(params) => types::tpl_tys(params@),
                    None => Seq::empty(),
                },
                params: types::named_tys(params@),
                ret: ret@,
            }),
    {
        let generic_params = match generic_params {
            Some(params) => params,
            None => Vec::new(),
        };
        let r = LuaFunctionType {
            async_state,
            is_colon_define,
            is_variadic,
            generic_params,
            params,
            ret,
        };
        assert(types::tpl_tys(Seq::empty()) =~= Seq::<TplTy>::empty());
        r
    }

    pub fn get_async_state(&self) -> (r: AsyncState)
        ensures
            r == self@.async_state,
    {
        self.async_state
    }

    pub fn is_colon_define(&self) -> (r: bool)
        ensures
            r == self@.is_colon_define,
    {
        self.is_colon_define
    }

    pub fn get_params(&self) -> (r: &[(String, Option<LuaType>)])
        ensures
            types::named_tys(r@) == self@.params,
    {
        self.params.as_slice()
    }

    pub fn get_generic_params(&self) -> (r: &[GenericTpl])
        ensures
            types::tpl_tys(r@) == self@.generic_params,
    {
        self.generic_params.as_slice()
    }

    pub fn get_ret(&self) -> (r: &LuaType)
        ensures
            r@ == self@.ret,
    {
        &self.ret
    }

    pub fn is_variadic(&self) -> (r: bool)
        ensures
            r == self@.is_variadic,
    {
        self.is_variadic
    }

    /// The values that the function returns, as a run of values.
    pub fn get_variadic_ret(&self) -> (r: VariadicType)
        ensures
            r@ == (match self@.ret {
                Ty::Variadic(variadic) => *variadic,
                ret => VariadicTy::Base(ret),
            }),
    {
        if let LuaType::Variadic(variadic) = &self.ret {
            return variadic.duplicate();
        }
        VariadicType::Base(self.ret.clone())
    }

    pub fn contain_tpl(&self) -> (r: bool)
        ensures
            r == traverse::holds_tpl(
                traverse::nested(Ty::DocFunction(Box::new(self@))),
            ),
    {
        contain_tpl_children(self)
    }

    pub fn contain_self(&self) -> (r: bool)
        ensures
            r == function_contains_self(self@),
    {
        if self.is_colon_define {
            return true;
        }
        let ghost params = types::named_tys(self.params@);
        let mut i: usize = 0;
        while i < self.params.len()
            invariant
                i <= self.params@.len(),
                params == types::named_tys(self.params@),
                forall|j: int|
                    0 <= j < i ==> !((#[trigger] params[j]).0 == "self"@ || params[j].1 == Some(
                        Ty::SelfInfer,
                    )),
            decreases self.params@.len() - i,
        {
            let param = &self.params[i];
            assert(params[i as int] == (param.0@, types::opt_ty(param.1)));
            if text_is(&param.0, "self") {
                return true;
            }
            if let Some(LuaType::SelfInfer) = &param.1 {
                return true;
            }
            i += 1;
        }
        matches!(self.ret, LuaType::SelfInfer)
    }

    pub fn to_call_operator_func_type(&self) -> (r: Arc<LuaFunctionType>)
        ensures
            r@ == call_operator_function(self@),
    {
        let mut params = clone_named(self.params.as_slice());
        if params.len() > 0 && text_is(&params[0].0, "@call_self") {
            let ghost before = params@;
            params.remove(0);
            assert(params@ =~= before.skip(1));
            assert(types::named_tys(params@) =~= types::named_tys(before).skip(1));
        }
        let generic_params = clone_tpls(&self.generic_params);
        let f = LuaFunctionType {
            async_state: self.async_state,
            is_colon_define: false,
            is_variadic: self.is_variadic,
            generic_params,
            params,
            ret: self.ret.clone(),
        };
        Arc::new(f)
    }
}

impl VariadicType {
    /// A run of the same values.
    pub fn duplicate(&self) -> (r: VariadicType)
        ensures
            r@ == self@,
    {
        match self {
            VariadicType::Multi(types) => VariadicType::Multi(clone_types(types)),
            VariadicType::Base(t) => VariadicType::Base(t.clone()),
        }
    }
}

pub fn clone_attributes(attributes: &Vec<LuaAttributeUse>) -> (r: Vec<LuaAttributeUse>)
    ensures
        types::attribute_tys(r@) == types::attribute_tys(attributes@),
{
    let mut r: Vec<LuaAttributeUse> = Vec::new();
    let mut i: usize = 0;
    while i < attributes.len()
        invariant
            i <= attributes@.len(),
            r@.len() == i,
            forall|j: int|
                0 <= j < i ==> (#[trigger] r@[j]).id == attributes@[j].id && r@[j].args@
                    == attributes@[j].args@,
        decreases attributes@.len() - i,
    {
        let a = &attributes[i];
        r.push(LuaAttributeUse { id: a.id.clone(), args: clone_named(a.args.as_slice()) });
        i += 1;
    }
    assert(types::attribute_tys(r@) =~= types::attribute_tys(attributes@));
    r
}

impl Clone for GenericParam {
    fn clone(&self) -> (r: Self)
        ensures
            r@ == self@,
    {
        GenericParam {
            name: self.name.clone(),
            constraint: clone_opt_type(&self.constraint),
            default: clone_opt_type(&self.default),
            is_const: self.is_const,
            attributes: match &self.attributes {
                Some(attributes) => Some(clone_attributes(attributes)),
                None => None,
            },
        }
    }
}

impl Clone for GenericTpl {
    fn clone(&self) -> (r: Self)
        ensures
            r@ == self@,
    {
        GenericTpl { tpl_id: self.tpl_id, param: self.param.clone() }
    }
}

pub fn clone_tpls(tpls: &Vec<GenericTpl>) -> (r: Vec<GenericTpl>)
    ensures
        types::tpl_tys(r@) == types::tpl_tys(tpls@),
{
    let mut r: Vec<GenericTpl> = Vec::new();
    let mut i: usize = 0;
    while i < tpls.len()
        invariant
            i <= tpls@.len(),
            r@.len() == i,
            forall|j: int| 0 <= j < i ==> (#[trigger] r@[j])@ == tpls@[j]@,
        decreases tpls@.len() - i,
    {
        r.push(tpls[i].clone());
        i += 1;
    }
    assert(types::tpl_tys(r@) =~= types::tpl_tys(tpls@));
    r
}

// ----------------------------------------------------------------------------
// Objects.

/// The first entry of `fields` whose key is `key`.
pub open spec fn first_field(fields: Seq<(KeyTy, Ty)>, key: KeyTy) -> Option<Ty>
    decreases fields.len(),
{
    if fields.len() == 0 {
        None
    } else if equality::key_eq(fields[0].0, key) {
        Some(fields[0].1)
    } else {
        first_field(fields.skip(1), key)
    }
}

/// The value of the first entry of `entries` whose key is the type `key`.
pub open spec fn first_index(entries: Seq<(Ty, Ty)>, key: Ty) -> Option<Ty>
    decreases entries.len(),
{
    if entries.len() == 0 {
        None
    } else if equality::ty_eq(entries[0].0, key) {
        Some(entries[0].1)
    } else {
        first_index(entries.skip(1), key)
    }
}

/// The member of an object under a key: the field, or else the exact index entry.
pub open spec fn object_member(object: ObjectTy, key: KeyTy) -> Option<Ty> {
    match first_field(object.fields, key) {
        Some(t) => Some(t),
        None => match key {
            KeyTy::TypeKey(t) => first_index(object.index_access, *t),
            _ => None,
        },
    }
}

/// No two fields have the same key.
pub open spec fn keys_distinct(fields: Seq<(KeyTy, Ty)>) -> bool {
    forall|i: int, j: int|
        0 <= i < j < fields.len() ==> !equality::key_eq((#[trigger] fields[i]).0, (#[trigger] fields[j]).0)
}

/// `fields` with the value `value` under `key`, in place of what stood there.
pub open spec fn put_field(fields: Seq<(KeyTy, Ty)>, key: KeyTy, value: Ty) -> Seq<(KeyTy, Ty)>
    decreases fields.len(),
{
    if fields.len() == 0 {
        seq![(key, value)]
    } else if equality::key_eq(fields[0].0, key) {
        seq![(fields[0].0, value)] + fields.skip(1)
    } else {
        seq![fields[0]] + put_field(fields.skip(1), key, value)
    }
}

pub enum IndexKeyTy {
    Integer(i64),
    String(Seq<char>),
    Type(Ty),
}

pub open spec fn index_key_ty(key: LuaIndexAccessKey) -> IndexKeyTy {
    match key {
        LuaIndexAccessKey::Integer(i) => IndexKeyTy::Integer(i),
        LuaIndexAccessKey::String(s) => IndexKeyTy::String(s@),
        LuaIndexAccessKey::Type(t) => IndexKeyTy::Type(t@),
    }
}

/// The object that a list of written fields stands for: a later field replaces an earlier one of
/// the same key, and index entries stay in order.
pub open spec fn object_of(entries: Seq<(IndexKeyTy, Ty)>) -> ObjectTy
    decreases entries.len(),
{
    if entries.len() == 0 {
        ObjectTy { fields: Seq::empty(), index_access: Seq::empty() }
    } else {
        let object = object_of(entries.drop_last());
        let value = entries.last().1;
        match entries.last().0 {
            IndexKeyTy::Integer(i) => ObjectTy {
                fields: put_field(object.fields, KeyTy::Integer(i), value),
                ..object
            },
            IndexKeyTy::String(s) => ObjectTy {
                fields: put_field(object.fields, KeyTy::Name(s), value),
                ..object
            },
            IndexKeyTy::Type(t) => ObjectTy {
                index_access: object.index_access.push((t, value)),
                ..object
            },
        }
    }
}

pub open spec fn entry_tys(entries: Seq<(LuaIndexAccessKey, LuaType)>) -> Seq<(IndexKeyTy, Ty)> {
    Seq::new(entries.len(), |i: int| (index_key_ty(entries[i].0), entries[i].1@))
}

pub proof fn lemma_put_field(fields: Seq<(KeyTy, Ty)>, key: KeyTy, value: Ty, i: int)
    requires
        0 <= i <= fields.len(),
        forall|j: int| 0 <= j < i ==> !equality::key_eq((#[trigger] fields[j]).0, key),
        i < fields.len() ==> equality::key_eq(fields[i].0, key),
    ensures
        i < fields.len() ==> put_field(fields, key, value) == fields.update(
            i,
            (fields[i].0, value),
        ),
        i == fields.len() ==> put_field(fields, key, value) == fields.push((key, value)),
        first_field(fields, key) == (if i < fields.len() {
            Some(fields[i].1)
        } else {
            None
        }),
    decreases fields.len(),
{
    if fields.len() == 0 {
        assert(put_field(fields, key, value) =~= fields.push((key, value)));
    } else if equality::key_eq(fields[0].0, key) {
        assert(i == 0);
        assert(put_field(fields, key, value) =~= fields.update(0, (fields[0].0, value)));
    } else {
        let rest = fields.skip(1);
        assert forall|j: int| 0 <= j < i - 1 implies !equality::key_eq((#[trigger] rest[j]).0, key) by {
            assert(rest[j] == fields[j + 1]);
        }
        if i < fields.len() {
            assert(rest[i - 1] == fields[i]);
        }
        lemma_put_field(rest, key, value, i - 1);
        if i < fields.len() {
            assert(put_field(fields, key, value) =~= fields.update(i, (fields[i].0, value)));
        } else {
            assert(put_field(fields, key, value) =~= fields.push((key, value)));
        }
    }
}

/// Where the field with the key `key` stands, or the number of fields.
proof fn lemma_field_place(fields: Seq<(KeyTy, Ty)>, key: KeyTy) -> (i: int)
    ensures
        0 <= i <= fields.len(),
        forall|j: int| 0 <= j < i ==> !equality::key_eq((#[trigger] fields[j]).0, key),
        i < fields.len() ==> equality::key_eq(fields[i].0, key),
    decreases fields.len(),
{
    if fields.len() == 0 || equality::key_eq(fields[0].0, key) {
        0
    } else {
        let i = lemma_field_place(fields.skip(1), key);
        assert forall|j: int| 0 <= j < i + 1 implies !equality::key_eq((#[trigger] fields[j]).0, key) by {
            if j > 0 {
                assert(fields[j] == fields.skip(1)[j - 1]);
            }
        }
        if i < fields.len() - 1 {
            assert(fields[i + 1] == fields.skip(1)[i]);
        }
        i + 1
    }
}

/// No key stands twice in an object, however its fields are written.
pub proof fn object_has_no_key_twice(entries: Seq<(IndexKeyTy, Ty)>)
    ensures
        keys_distinct(object_of(entries).fields),
    decreases entries.len(),
{
    if entries.len() > 0 {
        object_has_no_key_twice(entries.drop_last());
        let fields = object_of(entries.drop_last()).fields;
        let value = entries.last().1;
        match entries.last().0 {
            IndexKeyTy::Integer(n) => {
                let i = lemma_field_place(fields, KeyTy::Integer(n));
                lemma_put_field(fields, KeyTy::Integer(n), value, i);
            },
            IndexKeyTy::String(s) => {
                let i = lemma_field_place(fields, KeyTy::Name(s));
                lemma_put_field(fields, KeyTy::Name(s), value, i);
            },
            IndexKeyTy::Type(_) => {},
        }
    }
}

/// A field that is written last is the one that is read.
pub proof fn last_written_field_is_read(entries: Seq<(IndexKeyTy, Ty)>, name: Seq<char>, value: Ty)
    ensures
        first_field(
            object_of(entries.push((IndexKeyTy::String(name), value))).fields,
            KeyTy::Name(name),
        ) == Some(value),
{
    let longer = entries.push((IndexKeyTy::String(name), value));
    assert(longer.drop_last() =~= entries);
    let fields = object_of(entries).fields;
    let key = KeyTy::Name(name);
    let i = lemma_field_place(fields, key);
    lemma_put_field(fields, key, value, i);
    let put = put_field(fields, key, value);
    assert forall|j: int| 0 <= j < i implies !equality::key_eq((#[trigger] put[j]).0, key) by {
        assert(put[j] == fields[j]);
    }
    lemma_put_field(put, key, value, i);
}

/// The place of the field with the key `key`, or the number of fields.
pub fn field_index(fields: &Vec<(LuaMemberKey, LuaType)>, key: &LuaMemberKey) -> (r: usize)
    ensures
        r <= fields@.len(),
        forall|j: int| 0 <= j < r ==> !equality::key_eq((#[trigger] types::field_tys(fields@)[j]).0, key@),
        r < fields@.len() ==> equality::key_eq(types::field_tys(fields@)[r as int].0, key@),
{
    let mut i: usize = 0;
    while i < fields.len()
        invariant
            i <= fields@.len(),
            forall|j: int| 0 <= j < i ==> !equality::key_eq((#[trigger] types::field_tys(fields@)[j]).0, key@),
        decreases fields@.len() - i,
    {
        if fields[i].0.same(key) {
            return i;
        }
        i += 1;
    }
    i
}

fn insert_field(fields: Vec<(LuaMemberKey, LuaType)>, key: LuaMemberKey, value: LuaType) -> (r: Vec<
    (LuaMemberKey, LuaType),
>)
    ensures
        types::field_tys(r@) == put_field(types::field_tys(fields@), key@, value@),
{
    let ghost before = types::field_tys(fields@);
    let ghost added = (key@, value@);
    let i = field_index(&fields, &key);
    proof {
        lemma_put_field(before, key@, value@, i as int);
    }
    let mut fields = fields;
    if i < fields.len() {
        let kept = fields[i].0.clone();
        let ghost old_fields = fields@;
        fields.set(i, (kept, value));
        assert(types::field_tys(fields@) =~= before.update(i as int, (before[i as int].0, added.1)));
    } else {
        fields.push((key, value));
        assert(types::field_tys(fields@) =~= before.push(added));
    }
    fields
}

impl LuaObjectType {
    pub fn new(object_fields: Vec<(LuaIndexAccessKey, LuaType)>) -> (r: Self)
        ensures
            r@ == object_of(entry_tys(object_fields@)),
    {
        let ghost entries = entry_tys(object_fields@);
        let mut fields: Vec<(LuaMemberKey, LuaType)> = Vec::new();
        let mut index_access: Vec<(LuaType, LuaType)> = Vec::new();
        let mut i: usize = 0;
        proof {
            assert(types::field_tys(fields@) =~= Seq::<(KeyTy, Ty)>::empty());
            assert(types::pair_tys(index_access@) =~= Seq::<(Ty, Ty)>::empty());
            assert(entries.take(0) =~= Seq::<(IndexKeyTy, Ty)>::empty());
        }
        while i < object_fields.len()
            invariant
                i <= object_fields@.len(),
                entries == entry_tys(object_fields@),
                object_of(entries.take(i as int)) == (ObjectTy {
                    fields: types::field_tys(fields@),
                    index_access: types::pair_tys(index_access@),
                }),
            decreases object_fields@.len() - i,
        {
            let entry = &object_fields[i];
            proof {
                assert(entries.take(i + 1).drop_last() =~= entries.take(i as int));
                assert(entries.take(i + 1).last() == entries[i as int]);
            }
            match &entry.0 {
                LuaIndexAccessKey::Integer(n) => {
                    fields = insert_field(fields, LuaMemberKey::Integer(*n), entry.1.clone());
                },
                LuaIndexAccessKey::String(s) => {
                    fields = insert_field(fields, LuaMemberKey::Name(s.clone()), entry.1.clone());
                },
                LuaIndexAccessKey::Type(t) => {
                    let ghost before = types::pair_tys(index_access@);
                    index_access.push((t.clone(), entry.1.clone()));
                    assert(types::pair_tys(index_access@) =~= before.push((t@, entry.1@)));
                },
            }
            i += 1;
        }
        assert(entries.take(i as int) =~= entries);
        LuaObjectType { fields, index_access }
    }

    pub fn new_with_fields(
        fields: Vec<(LuaMemberKey, LuaType)>,
        index_access: Vec<(LuaType, LuaType)>,
    ) -> (r: Self)
        ensures
            r@ == (ObjectTy {
                fields: types::field_tys(fields@),
                index_access: types::pair_tys(index_access@),
            }),
    {
        LuaObjectType { fields, index_access }
    }

    pub fn get_fields(&self) -> (r: &[(LuaMemberKey, LuaType)])
        ensures
            types::field_tys(r@) == self@.fields,
    {
        self.fields.as_slice()
    }

    pub fn get_index_access(&self) -> (r: &[(LuaType, LuaType)])
        ensures
            types::pair_tys(r@) == self@.index_access,
    {
        self.index_access.as_slice()
    }

    pub fn get_field(&self, key: &LuaMemberKey) -> (r: Option<&LuaType>)
        ensures
            opt_ref_ty(r) == first_field(self@.fields, key@),
    {
        let i = field_index(&self.fields, key);
        proof {
            lemma_put_field(types::field_tys(self.fields@), key@, Ty::Unknown, i as int);
        }
        if i < self.fields.len() {
            Some(&self.fields[i].1)
        } else {
            None
        }
    }

    pub fn get_member_type(&self, key: &LuaMemberKey) -> (r: Option<LuaType>)
        ensures
            types::opt_ty(r) == object_member(self@, key@),
    {
        if let Some(t) = self.get_field(key) {
            return Some(t.clone());
        }
        match key {
            LuaMemberKey::TypeKey(key_type) => find_index(&self.index_access, key_type),
            _ => None,
        }
    }

    pub fn contain_tpl(&self) -> (r: bool)
        ensures
            r == traverse::holds_tpl(traverse::nested(Ty::Object(Box::new(self@)))),
    {
        contain_tpl_children(self)
    }
}

fn find_index(entries: &Vec<(LuaType, LuaType)>, key: &LuaType) -> (r: Option<LuaType>)
    ensures
        types::opt_ty(r) == first_index(types::pair_tys(entries@), key@),
{
    let ghost all = types::pair_tys(entries@);
    let mut i: usize = 0;
    proof {
        assert(all.skip(0) =~= all);
    }
    while i < entries.len()
        invariant
            i <= entries@.len(),
            all == types::pair_tys(entries@),
            first_index(all, key@) == first_index(all.skip(i as int), key@),
        decreases entries@.len() - i,
    {
        proof {
            assert(all.skip(i as int)[0] == all[i as int]);
            assert(all.skip(i as int).skip(1) =~= all.skip(i + 1));
        }
        if entries[i].0.same(key) {
            return Some(entries[i].1.clone());
        }
        i += 1;
    }
    None
}

// ----------------------------------------------------------------------------
// Unions.

/// The members that a union lists.
pub open spec fn union_tys(u: UnionTy) -> Seq<Ty> {
    match u {
        UnionTy::Basic(kinds) => Seq::new(kinds.len(), |i: int| types::kind_ty(kinds[i])),
        UnionTy::Nullable(t) => seq![t, Ty::Nil],
        UnionTy::Multi(types) => types,
    }
}

/// The kind of a type without parts.
pub open spec fn ty_kind(t: Ty) -> Option<BasicTypeKind> {
    match t {
        Ty::Unknown => Some(BasicTypeKind::Unknown),
        Ty::Any => Some(BasicTypeKind::Any),
        Ty::Nil => Some(BasicTypeKind::Nil),
        Ty::Table => Some(BasicTypeKind::Table),
        Ty::Userdata => Some(BasicTypeKind::Userdata),
        Ty::Function => Some(BasicTypeKind::Function),
        Ty::Thread => Some(BasicTypeKind::Thread),
        Ty::Boolean => Some(BasicTypeKind::Boolean),
        Ty::String => Some(BasicTypeKind::String),
        Ty::Integer => Some(BasicTypeKind::Integer),
        Ty::Number => Some(BasicTypeKind::Number),
        Ty::Io => Some(BasicTypeKind::Io),
        Ty::SelfInfer => Some(BasicTypeKind::SelfInfer),
        Ty::Global => Some(BasicTypeKind::Global),
        Ty::Never => Some(BasicTypeKind::Never),
        _ => None,
    }
}

impl BasicTypeKind {
    pub fn from_type(t: &LuaType) -> (r: Option<BasicTypeKind>)
        ensures
            r == ty_kind(t@),
    {
        match t {
            LuaType::Unknown => Some(BasicTypeKind::Unknown),
            LuaType::Any => Some(BasicTypeKind::Any),
            LuaType::Nil => Some(BasicTypeKind::Nil),
            LuaType::Table => Some(BasicTypeKind::Table),
            LuaType::Userdata => Some(BasicTypeKind::Userdata),
            LuaType::Function => Some(BasicTypeKind::Function),
            LuaType::Thread => Some(BasicTypeKind::Thread),
            LuaType::Boolean => Some(BasicTypeKind::Boolean),
            LuaType::String => Some(BasicTypeKind::String),
            LuaType::Integer => Some(BasicTypeKind::Integer),
            LuaType::Number => Some(BasicTypeKind::Number),
            LuaType::Io => Some(BasicTypeKind::Io),
            LuaType::SelfInfer => Some(BasicTypeKind::SelfInfer),
            LuaType::Global => Some(BasicTypeKind::Global),
            LuaType::Never => Some(BasicTypeKind::Never),
            _ => None,
        }
    }

    /// The type without parts of this kind.
    pub fn to_type(self) -> (r: LuaType)
        ensures
            r@ == types::kind_ty(self),
    {
        match self {
            BasicTypeKind::Unknown => LuaType::Unknown,
            BasicTypeKind::Any => LuaType::Any,
            BasicTypeKind::Nil => LuaType::Nil,
            BasicTypeKind::Table => LuaType::Table,
            BasicTypeKind::Userdata => LuaType::Userdata,
            BasicTypeKind::Function => LuaType::Function,
            BasicTypeKind::Thread => LuaType::Thread,
            BasicTypeKind::Boolean => LuaType::Boolean,
            BasicTypeKind::String => LuaType::String,
            BasicTypeKind::Integer => LuaType::Integer,
            BasicTypeKind::Number => LuaType::Number,
            BasicTypeKind::Io => LuaType::Io,
            BasicTypeKind::SelfInfer => LuaType::SelfInfer,
            BasicTypeKind::Global => LuaType::Global,
            BasicTypeKind::Never => LuaType::Never,
        }
    }
}

/// The kinds of a list of types without parts, each once, by rank.
pub open spec fn kinds_of(types: Seq<Ty>) -> Seq<BasicTypeKind>
    decreases types.len(),
{
    if types.len() == 0 {
        Seq::empty()
    } else {
        basic::with_kind(kinds_of(types.drop_last()), ty_kind(types.last()).unwrap())
    }
}

/// Every type of the list is one without parts.
pub open spec fn all_basic(types: Seq<Ty>) -> bool {
    forall|i: int| 0 <= i < types.len() ==> ty_kind(#[trigger] types[i]) is Some
}

/// The union of a list of types.
pub open spec fn union_of(types: Seq<Ty>) -> UnionTy {
    if all_basic(types) {
        UnionTy::Basic(kinds_of(types))
    } else if types.len() == 2 && types[0] is Nil {
        UnionTy::Nullable(types[1])
    } else if types.len() == 2 && types[1] is Nil {
        UnionTy::Nullable(types[0])
    } else {
        UnionTy::Multi(types)
    }
}

impl LuaUnionMembers {
    pub fn new(types: Vec<LuaType>) -> (r: Self)
        ensures
            r@ == types::tys(types@),
    {
        LuaUnionMembers { types }
    }

    pub fn get_types(&self) -> (r: &[LuaType])
        ensures
            types::tys(r@) == self@,
    {
        self.types.as_slice()
    }
}

impl LuaUnionType {
    /// The union of the types of a set, which is given by its elements.
    pub fn from_set(set: Vec<LuaType>) -> (r: Self)
        ensures
            r@ == union_of(types::tys(set@)),
    {
        LuaUnionType::from_vec(set)
    }

    pub fn from_vec(types: Vec<LuaType>) -> (r: Self)
        ensures
            r@ == union_of(types::tys(types@)),
    {
        let ghost all = types::tys(types@);
        let mut basic_type = BasicTypeUnion::new();
        let mut all_kinds = true;
        let mut i: usize = 0;
        proof {
            assert(all.take(0) =~= Seq::<Ty>::empty());
        }
        while i < types.len() && all_kinds
            invariant
                i <= types@.len(),
                all == types::tys(types@),
                all_kinds ==> all_basic(all.take(i as int)) && basic_type@ == kinds_of(
                    all.take(i as int),
                ),
                !all_kinds ==> !all_basic(all),
            decreases types@.len() - i,
        {
            proof {
                assert(all.take(i + 1).drop_last() =~= all.take(i as int));
                assert(all.take(i + 1).last() == all[i as int]);
                assert(all[i as int] == types@[i as int]@);
            }
            match BasicTypeKind::from_type(&types[i]) {
                Some(kind) => {
                    basic_type = basic_type.add(kind);
                    proof {
                        assert forall|j: int| 0 <= j < i + 1 implies ty_kind(
                            #[trigger] all.take(i + 1)[j],
                        ) is Some by {
                            if j < i {
                                assert(all.take(i as int)[j] == all[j]);
                            }
                        }
                    }
                },
                None => {
                    all_kinds = false;
                    assert(ty_kind(all[i as int]) is None);
                },
            }
            i += 1;
        }
        if all_kinds {
            assert(all.take(i as int) =~= all);
            return LuaUnionType::Basic(basic_type);
        }
        if types.len() == 2 {
            proof {
                assert(all[0] == types@[0]@ && all[1] == types@[1]@);
            }
            if let LuaType::Nil = &types[0] {
                return LuaUnionType::Nullable(types[1].clone());
            }
            if let LuaType::Nil = &types[1] {
                return LuaUnionType::Nullable(types[0].clone());
            }
        }
        LuaUnionType::Multi(LuaUnionMembers { types })
    }

    /// The members in the order in which the union lists them.
    pub fn iter(&self) -> (r: Vec<LuaType>)
        ensures
            types::tys(r@) == union_tys(self@),
    {
        self.into_vec()
    }

    pub fn into_vec(&self) -> (r: Vec<LuaType>)
        ensures
            types::tys(r@) == union_tys(self@),
    {
        match self {
            LuaUnionType::Basic(basic) => {
                let kinds = basic.iter_kinds();
                let mut r: Vec<LuaType> = Vec::new();
                let mut i: usize = 0;
                while i < kinds.len()
                    invariant
                        i <= kinds@.len(),
                        r@.len() == i,
                        forall|j: int| 0 <= j < i ==> (#[trigger] r@[j])@ == types::kind_ty(kinds@[j]),
                    decreases kinds@.len() - i,
                {
                    r.push(kinds[i].to_type());
                    i += 1;
                }
                assert(types::tys(r@) =~= union_tys(self@));
                r
            },
            LuaUnionType::Nullable(t) => {
                let mut r: Vec<LuaType> = Vec::new();
                r.push(t.clone());
                r.push(LuaType::Nil);
                assert(types::tys(r@) =~= union_tys(self@));
                r
            },
            LuaUnionType::Multi(members) => clone_types(&members.types),
        }
    }

    pub fn contain_tpl(&self) -> (r: bool)
        ensures
            r == traverse::holds_tpl(traverse::nested(Ty::Union(Box::new(self@)))),
    {
        contain_tpl_children(self)
    }
}

// ----------------------------------------------------------------------------
// Intersections, operators, generic types, instances and arrays.

impl LuaIntersectionType {
    pub fn new(types: Vec<LuaType>) -> (r: Self)
        ensures
            r@ == types::tys(types@),
    {
        LuaIntersectionType { types }
    }

    pub fn get_types(&self) -> (r: &[LuaType])
        ensures
            types::tys(r@) == self@,
    {
        self.types.as_slice()
    }

    pub fn into_types(&self) -> (r: Vec<LuaType>)
        ensures
            types::tys(r@) == self@,
    {
        clone_types(&self.types)
    }

    pub fn contain_tpl(&self) -> (r: bool)
        ensures
            r == traverse::holds_tpl(traverse::nested(Ty::Intersection(self@))),
    {
        contain_tpl_children(self)
    }
}

impl LuaAliasCallType {
    pub fn new(call_kind: LuaAliasCallKind, operand: Vec<LuaType>) -> (r: Self)
        ensures
            r@ == (CallTy { call_kind, operand: types::tys(operand@) }),
    {
        LuaAliasCallType { call_kind, operand }
    }

    pub fn get_operands(&self) -> (r: &Vec<LuaType>)
        ensures
            types::tys(r@) == self@.operand,
    {
        &self.operand
    }

    pub fn get_call_kind(&self) -> (r: LuaAliasCallKind)
        ensures
            r == self@.call_kind,
    {
        self.call_kind
    }

    pub fn contain_tpl(&self) -> (r: bool)
        ensures
            r == traverse::holds_tpl(traverse::nested(Ty::Call(Box::new(self@)))),
    {
        contain_tpl_children(self)
    }
}

impl LuaGenericType {
    pub fn new(base: LuaTypeDeclId, params: Vec<LuaType>) -> (r: Self)
        ensures
            r@ == (GenericTy { base: base@, params: types::tys(params@) }),
    {
        LuaGenericType { base, params }
    }

    pub fn get_base_type(&self) -> (r: LuaType)
        ensures
            r@ == Ty::Ref(self@.base),
    {
        LuaType::Ref(self.base.clone())
    }

    pub fn get_base_type_id(&self) -> (r: LuaTypeDeclId)
        ensures
            r@ == self@.base,
    {
        self.base.clone()
    }

    pub fn get_base_type_id_ref(&self) -> (r: &LuaTypeDeclId)
        ensures
            r@ == self@.base,
    {
        &self.base
    }

    pub fn get_params(&self) -> (r: &Vec<LuaType>)
        ensures
            types::tys(r@) == self@.params,
    {
        &self.params
    }

    pub fn contain_tpl(&self) -> (r: bool)
        ensures
            r == traverse::holds_tpl(traverse::nested(Ty::Generic(Box::new(self@)))),
    {
        contain_tpl_children(self)
    }
}

impl LuaInstanceType {
    pub fn new(base: LuaType, range: InFiled) -> (r: Self)
        ensures
            r@ == (InstanceTy { base: base@, range }),
    {
        LuaInstanceType { base, range }
    }

    pub fn get_base(&self) -> (r: &LuaType)
        ensures
            r@ == self@.base,
    {
        &self.base
    }

    pub fn get_range(&self) -> (r: &InFiled)
        ensures
            *r == self@.range,
    {
        &self.range
    }
}

impl LuaArrayType {
    pub fn new(base: LuaType, len: LuaArrayLen) -> (r: Self)
        ensures
            r@ == (ArrayTy { base: base@, len }),
    {
        LuaArrayType { base, len }
    }

    pub fn from_base_type(base: LuaType) -> (r: Self)
        ensures
            r@ == (ArrayTy { base: base@, len: LuaArrayLen::Unbounded }),
    {
        LuaArrayType { base, len: LuaArrayLen::Unbounded }
    }

    pub fn get_base(&self) -> (r: &LuaType)
        ensures
            r@ == self@.base,
    {
        &self.base
    }

    pub fn get_len(&self) -> (r: &LuaArrayLen)
        ensures
            *r == self@.len,
    {
        &self.len
    }

    pub fn contain_tpl(&self) -> (r: bool)
        ensures
            r == traverse::holds_tpl(traverse::nested(Ty::Array(Box::new(self@)))),
    {
        contain_tpl_children(self)
    }
}

// ----------------------------------------------------------------------------
// Templates.

pub open spec fn tpl_index(id: GenericTplId) -> int {
    match id {
        GenericTplId::Type(idx) => idx as int,
        GenericTplId::Func(idx) => idx as int,
        GenericTplId::ConditionalInfer(idx) => idx as int,
    }
}

pub open spec fn tpl_with_index(id: GenericTplId, idx: u32) -> GenericTplId {
    match id {
        GenericTplId::Type(_) => GenericTplId::Type(idx),
        GenericTplId::Func(_) => GenericTplId::Func(idx),
        GenericTplId::ConditionalInfer(_) => GenericTplId::ConditionalInfer(idx),
    }
}

/// Changing the index of a template changes nothing else, and giving back its own changes nothing.
pub proof fn template_index_round_trip(id: GenericTplId, idx: u32)
    ensures
        tpl_index(tpl_with_index(id, idx)) == idx,
        tpl_with_index(tpl_with_index(id, idx), tpl_index(id) as u32) == id,
        (tpl_with_index(id, idx) is Func) == (id is Func),
        (tpl_with_index(id, idx) is Type) == (id is Type),
        (tpl_with_index(id, idx) is ConditionalInfer) == (id is ConditionalInfer),
{
}

impl GenericTplId {
    pub fn get_idx(&self) -> (r: usize)
        ensures
            r == tpl_index(*self),
    {
        match self {
            GenericTplId::Type(idx) => *idx as usize,
            GenericTplId::Func(idx) => *idx as usize,
            GenericTplId::ConditionalInfer(idx) => *idx as usize,
        }
    }

    pub fn is_func(&self) -> (r: bool)
        ensures
            r == (*self is Func),
    {
        matches!(self, GenericTplId::Func(_))
    }

    pub fn is_type(&self) -> (r: bool)
        ensures
            r == (*self is Type),
    {
        matches!(self, GenericTplId::Type(_))
    }

    pub fn is_conditional_infer(&self) -> (r: bool)
        ensures
            r == (*self is ConditionalInfer),
    {
        matches!(self, GenericTplId::ConditionalInfer(_))
    }

    pub fn with_idx(&self, idx: u32) -> (r: Self)
        ensures
            r == tpl_with_index(*self, idx),
    {
        match self {
            GenericTplId::Type(_) => GenericTplId::Type(idx),
            GenericTplId::Func(_) => GenericTplId::Func(idx),
            GenericTplId::ConditionalInfer(_) => GenericTplId::ConditionalInfer(idx),
        }
    }
}

impl GenericParam {
    pub fn new(
        name: String,
        constraint: Option<LuaType>,
        default: Option<LuaType>,
        is_const: bool,
        attributes: Option<Vec<LuaAttributeUse>>,
    ) -> (r: Self)
        ensures
            r == (GenericParam { name, constraint, default, is_const, attributes }),
    {
        GenericParam { name, constraint, default, is_const, attributes }
    }
}

impl GenericTpl {
    pub fn new(
        tpl_id: GenericTplId,
        name: String,
        constraint: Option<LuaType>,
        default_type: Option<LuaType>,
        is_const: bool,
        attributes: Option<Vec<LuaAttributeUse>>,
    ) -> (r: Self)
        ensures
            r@ == (TplTy {
                tpl_id,
                param: ParamTy {
                    name: name@,
                    constraint: types::opt_ty(constraint),
                    default: types::opt_ty(default_type),
                    is_const,
                    attributes: match attributes {
                        Some(attributes) => Some(types::attribute_tys(attributes@)),
                        None => None,
                    },
                },
            }),
    {
        GenericTpl {
            tpl_id,
            param: GenericParam { name, constraint, default: default_type, is_const, attributes },
        }
    }

    pub fn get_tpl_id(&self) -> (r: GenericTplId)
        ensures
            r == self@.tpl_id,
    {
        self.tpl_id
    }

    pub fn get_param(&self) -> (r: &GenericParam)
        ensures
            r@ == self@.param,
    {
        &self.param
    }

    pub fn get_name(&self) -> (r: &str)
        ensures
            r@ == self@.param.name,
    {
        self.param.name.as_str()
    }

    pub fn is_const(&self) -> (r: bool)
        ensures
            r == self@.param.is_const,
    {
        self.param.is_const
    }

    pub fn with_const(&self, is_const: bool) -> (r: Self)
        ensures
            r@ == (TplTy { param: ParamTy { is_const, ..self@.param }, ..self@ }),
    {
        let mut param = self.param.clone();
        param.is_const = is_const;
        GenericTpl { tpl_id: self.tpl_id, param }
    }

    pub fn get_constraint(&self) -> (r: Option<&LuaType>)
        ensures
            opt_ref_ty(r) == self@.param.constraint,
    {
        match &self.param.constraint {
            Some(t) => Some(t),
            None => None,
        }
    }

    pub fn get_default_type(&self) -> (r: Option<&LuaType>)
        ensures
            opt_ref_ty(r) == self@.param.default,
    {
        match &self.param.default {
            Some(t) => Some(t),
            None => None,
        }
    }
}

impl LuaStringTplType {
    pub fn new(
        prefix: &str,
        name: &str,
        tpl_id: GenericTplId,
        suffix: &str,
        constraint: Option<LuaType>,
    ) -> (r: Self)
        ensures
            r@ == (StrTplTy {
                prefix: prefix@,
                tpl_id,
                name: name@,
                suffix: suffix@,
                constraint: types::opt_ty(constraint),
            }),
    {
        LuaStringTplType {
            prefix: prefix.to_owned(),
            tpl_id,
            name: name.to_owned(),
            suffix: suffix.to_owned(),
            constraint,
        }
    }

    pub fn get_prefix(&self) -> (r: &str)
        ensures
            r@ == self@.prefix,
    {
        self.prefix.as_str()
    }

    pub fn get_tpl_id(&self) -> (r: GenericTplId)
        ensures
            r == self@.tpl_id,
    {
        self.tpl_id
    }

    pub fn get_name(&self) -> (r: &str)
        ensures
            r@ == self@.name,
    {
        self.name.as_str()
    }

    pub fn get_suffix(&self) -> (r: &str)
        ensures
            r@ == self@.suffix,
    {
        self.suffix.as_str()
    }

    pub fn get_constraint(&self) -> (r: Option<&LuaType>)
        ensures
            opt_ref_ty(r) == self@.constraint,
    {
        match &self.constraint {
            Some(t) => Some(t),
            None => None,
        }
    }
}

// ----------------------------------------------------------------------------
// Unions written over several lines.

/// The types of a union written over several lines.
pub open spec fn line_types(lines: Seq<(Ty, Option<Seq<char>>)>) -> Seq<Ty> {
    Seq::new(lines.len(), |i: int| lines[i].0)
}

/// The union that such lines stand for.
pub open spec fn lines_union(lines: Seq<(Ty, Option<Seq<char>>)>) -> Ty {
    Ty::Union(Box::new(union_of(line_types(lines))))
}

impl LuaMultiLineUnion {
    pub fn new(unions: Vec<(LuaType, Option<String>)>) -> (r: Self)
        ensures
            r@ == types::line_tys(unions@),
    {
        LuaMultiLineUnion { unions }
    }

    pub fn get_unions(&self) -> (r: &[(LuaType, Option<String>)])
        ensures
            types::line_tys(r@) == self@,
    {
        self.unions.as_slice()
    }

    /// The types in the order in which they are written.
    pub fn iter(&self) -> (r: Vec<LuaType>)
        ensures
            types::tys(r@) == line_types(self@),
    {
        let mut types: Vec<LuaType> = Vec::new();
        let mut i: usize = 0;
        while i < self.unions.len()
            invariant
                i <= self.unions@.len(),
                types@.len() == i,
                forall|j: int| 0 <= j < i ==> (#[trigger] types@[j]) == self.unions@[j].0,
            decreases self.unions@.len() - i,
        {
            types.push(self.unions[i].0.clone());
            i += 1;
        }
        assert(types::tys(types@) =~= line_types(self@));
        types
    }

    pub fn to_union(&self) -> (r: LuaType)
        ensures
            r@ == lines_union(self@),
    {
        LuaType::Union(Arc::new(LuaUnionType::from_vec(self.iter())))
    }

    pub fn contain_tpl(&self) -> (r: bool)
        ensures
            r == traverse::holds_tpl(traverse::nested(Ty::MultiLineUnion(self@))),
    {
        contain_tpl_children(self)
    }
}

// ----------------------------------------------------------------------------
// Conditional and mapped types.

impl LuaConditionalType {
    pub fn new(
        checked_type: LuaType,
        extends_type: LuaType,
        true_type: LuaType,
        false_type: LuaType,
        infer_params: Vec<GenericParam>,
        has_new: bool,
    ) -> (r: Self)
        ensures
            r@ == (ConditionalTy {
                checked_type: checked_type@,
                extends_type: extends_type@,
                true_type: true_type@,
                false_type: false_type@,
                infer_params: types::param_tys(infer_params@),
                has_new,
            }),
    {
        LuaConditionalType {
            checked_type,
            extends_type,
            true_type,
            false_type,
            infer_params,
            has_new,
        }
    }

    pub fn get_checked_type(&self) -> (r: &LuaType)
        ensures
            r@ == self@.checked_type,
    {
        &self.checked_type
    }

    pub fn get_extends_type(&self) -> (r: &LuaType)
        ensures
            r@ == self@.extends_type,
    {
        &self.extends_type
    }

    pub fn get_true_type(&self) -> (r: &LuaType)
        ensures
            r@ == self@.true_type,
    {
        &self.true_type
    }

    pub fn get_false_type(&self) -> (r: &LuaType)
        ensures
            r@ == self@.false_type,
    {
        &self.false_type
    }

    pub fn get_infer_params(&self) -> (r: &[GenericParam])
        ensures
            types::param_tys(r@) == self@.infer_params,
    {
        self.infer_params.as_slice()
    }

    pub fn contain_tpl(&self) -> (r: bool)
        ensures
            r == traverse::holds_tpl(
                traverse::nested(Ty::Conditional(Box::new(self@))),
            ),
    {
        contain_tpl_children(self)
    }
}

impl LuaMappedType {
    pub fn new(
        param: (GenericTplId, GenericParam),
        value: LuaType,
        is_readonly: bool,
        is_optional: bool,
    ) -> (r: Self)
        ensures
            r == (LuaMappedType { param, value, is_readonly, is_optional }),
    {
        LuaMappedType { param, value, is_readonly, is_optional }
    }

    /// A mapped type always depends on its own parameter.
    pub fn contain_tpl(&self) -> (r: bool)
        ensures
            r,
    {
        true
    }
}

} // verus!
