//! When two types, or two keys, are the same.

use vstd::prelude::*;

use crate::types;
use crate::types::{
    AttributeTy, GenericParam, GenericTpl, KeyTy, LuaAttributeUse, LuaFunctionType, LuaMemberKey,
    LuaObjectType, LuaType, LuaUnionType, ParamTy, TplTy, Ty, UnionTy, VariadicTy, VariadicType,
    basic,
};

verus! {

/// When two types are the same type: part by part, with the members of a union in any order and
/// without the descriptions of a union that is written over several lines.
pub open spec fn ty_eq(a: Ty, b: Ty) -> bool
    decreases a, 0nat,
{
    match a {
        Ty::FloatConst(x) => match b {
            Ty::FloatConst(y) => basic::float_eq(x, y),
            _ => false,
        },
        Ty::Array(x) => match b {
            Ty::Array(y) => ty_eq(x.base, y.base) && x.len == y.len,
            _ => false,
        },
        Ty::Tuple(x) => match b {
            Ty::Tuple(y) => tys_eq(x.types, y.types) && x.status == y.status,
            _ => false,
        },
        Ty::DocFunction(x) => match b {
            Ty::DocFunction(y) => {
            &&& x.async_state == y.async_state
            &&& x.is_colon_define == y.is_colon_define
            &&& x.is_variadic == y.is_variadic
            &&& tpls_eq(x.generic_params, y.generic_params)
            &&& named_eq(x.params, y.params)
            &&& ty_eq(x.ret, y.ret)
        },
            _ => false,
        },
        Ty::Object(x) => match b {
            Ty::Object(y) => fields_eq(x.fields, y.fields) && pairs_eq(
            x.index_access,
            y.index_access,
        ),
            _ => false,
        },
        Ty::Union(x) => match b {
            Ty::Union(y) => match (*x, *y) {
            (UnionTy::Basic(p), UnionTy::Basic(q)) => p == q,
            (UnionTy::Nullable(p), UnionTy::Nullable(q)) => ty_eq(p, q),
            (UnionTy::Multi(p), UnionTy::Multi(q)) => members_eq(p, q),
            _ => false,
        },
            _ => false,
        },
        Ty::Intersection(x) => match b {
            Ty::Intersection(y) => tys_eq(x, y),
            _ => false,
        },
        Ty::Generic(x) => match b {
            Ty::Generic(y) => x.base == y.base && tys_eq(x.params, y.params),
            _ => false,
        },
        Ty::TableGeneric(x) => match b {
            Ty::TableGeneric(y) => tys_eq(x, y),
            _ => false,
        },
        Ty::TplRef(x) => match b {
            Ty::TplRef(y) => x.tpl_id == y.tpl_id && param_eq(x.param, y.param),
            _ => false,
        },
        Ty::StrTplRef(x) => match b {
            Ty::StrTplRef(y) => {
            &&& x.prefix == y.prefix
            &&& x.tpl_id == y.tpl_id
            &&& x.name == y.name
            &&& x.suffix == y.suffix
            &&& opt_eq(x.constraint, y.constraint)
        },
            _ => false,
        },
        Ty::Variadic(x) => match b {
            Ty::Variadic(y) => match (*x, *y) {
            (VariadicTy::Multi(p), VariadicTy::Multi(q)) => tys_eq(p, q),
            (VariadicTy::Base(p), VariadicTy::Base(q)) => ty_eq(p, q),
            _ => false,
        },
            _ => false,
        },
        Ty::Instance(x) => match b {
            Ty::Instance(y) => ty_eq(x.base, y.base) && x.range == y.range,
            _ => false,
        },
        Ty::Call(x) => match b {
            Ty::Call(y) => x.call_kind == y.call_kind && tys_eq(x.operand, y.operand),
            _ => false,
        },
        Ty::MultiLineUnion(x) => match b {
            Ty::MultiLineUnion(y) => lines_eq(x, y),
            _ => false,
        },
        Ty::TypeGuard(x) => match b {
            Ty::TypeGuard(y) => ty_eq(*x, *y),
            _ => false,
        },
        Ty::Conditional(x) => match b {
            Ty::Conditional(y) => {
            &&& ty_eq(x.checked_type, y.checked_type)
            &&& ty_eq(x.extends_type, y.extends_type)
            &&& ty_eq(x.true_type, y.true_type)
            &&& ty_eq(x.false_type, y.false_type)
            &&& params_eq(x.infer_params, y.infer_params)
            &&& x.has_new == y.has_new
        },
            _ => false,
        },
        Ty::Mapped(x) => match b {
            Ty::Mapped(y) => {
            &&& x.tpl_id == y.tpl_id
            &&& param_eq(x.param, y.param)
            &&& ty_eq(x.value, y.value)
            &&& x.is_readonly == y.is_readonly
            &&& x.is_optional == y.is_optional
        },
            _ => false,
        },
        _ => a == b,
    }
}

pub open spec fn tys_eq(x: Seq<Ty>, y: Seq<Ty>) -> bool
    decreases x, 0nat,
{
    x.len() == y.len() && forall|i: int| 0 <= i < x.len() ==> ty_eq(#[trigger] x[i], y[i])
}

pub open spec fn opt_eq(x: Option<Ty>, y: Option<Ty>) -> bool
    decreases x, 0nat,
{
    match (x, y) {
        (Some(p), Some(q)) => ty_eq(p, q),
        (None, None) => true,
        _ => false,
    }
}

/// Equality of the members of two unions: no member twice, and each one in both.
pub open spec fn members_eq(x: Seq<Ty>, y: Seq<Ty>) -> bool
    decreases x, 1nat,
{
    &&& x.len() == y.len()
    &&& forall|i: int, j: int|
        0 <= i < j < x.len() ==> !ty_eq(#[trigger] x[i], #[trigger] x[j])
    &&& forall|j: int| 0 <= j < y.len() ==> holds_ty(x, #[trigger] y[j])
    &&& forall|i: int| 0 <= i < x.len() ==> among_tys(#[trigger] x[i], y)
}

/// Some type of `x` is the same as `t`.
pub open spec fn holds_ty(x: Seq<Ty>, t: Ty) -> bool
    decreases x, 0nat,
{
    exists|i: int| 0 <= i < x.len() && ty_eq(#[trigger] x[i], t)
}

/// The type `t` is the same as some type of `y`.
pub open spec fn among_tys(t: Ty, y: Seq<Ty>) -> bool
    decreases t, 1nat,
{
    exists|j: int| 0 <= j < y.len() && ty_eq(t, #[trigger] y[j])
}

pub open spec fn key_eq(a: KeyTy, b: KeyTy) -> bool
    decreases a, 0nat,
{
    match (a, b) {
        (KeyTy::TypeKey(x), KeyTy::TypeKey(y)) => ty_eq(*x, *y),
        _ => a == b,
    }
}

/// Equality of two sets of fields, in any order.
pub open spec fn fields_eq(x: Seq<(KeyTy, Ty)>, y: Seq<(KeyTy, Ty)>) -> bool
    decreases x, 0nat,
{
    &&& x.len() == y.len()
    &&& forall|i: int| 0 <= i < x.len() ==> among_fields(#[trigger] x[i], y)
}

/// Some field of `y` has the key and the type of the field `f`.
pub open spec fn among_fields(f: (KeyTy, Ty), y: Seq<(KeyTy, Ty)>) -> bool
    decreases f, 1nat,
{
    exists|j: int|
        0 <= j < y.len() && key_eq(f.0, (#[trigger] y[j]).0) && ty_eq(f.1, y[j].1)
}

pub open spec fn pairs_eq(x: Seq<(Ty, Ty)>, y: Seq<(Ty, Ty)>) -> bool
    decreases x, 0nat,
{
    x.len() == y.len() && forall|i: int|
        0 <= i < x.len() ==> ty_eq((#[trigger] x[i]).0, y[i].0) && ty_eq(x[i].1, y[i].1)
}

pub open spec fn named_eq(
    x: Seq<(Seq<char>, Option<Ty>)>,
    y: Seq<(Seq<char>, Option<Ty>)>,
) -> bool
    decreases x, 0nat,
{
    x.len() == y.len() && forall|i: int|
        0 <= i < x.len() ==> (#[trigger] x[i]).0 == y[i].0 && opt_eq(x[i].1, y[i].1)
}

pub open spec fn lines_eq(
    x: Seq<(Ty, Option<Seq<char>>)>,
    y: Seq<(Ty, Option<Seq<char>>)>,
) -> bool
    decreases x, 0nat,
{
    x.len() == y.len() && forall|i: int| 0 <= i < x.len() ==> ty_eq((#[trigger] x[i]).0, y[i].0)
}

pub open spec fn param_eq(x: ParamTy, y: ParamTy) -> bool
    decreases x, 0nat,
{
    &&& x.name == y.name
    &&& opt_eq(x.constraint, y.constraint)
    &&& opt_eq(x.default, y.default)
    &&& x.is_const == y.is_const
    &&& match (x.attributes, y.attributes) {
        (Some(p), Some(q)) => attributes_eq(p, q),
        (None, None) => true,
        _ => false,
    }
}

pub open spec fn params_eq(x: Seq<ParamTy>, y: Seq<ParamTy>) -> bool
    decreases x, 0nat,
{
    x.len() == y.len() && forall|i: int| 0 <= i < x.len() ==> param_eq(#[trigger] x[i], y[i])
}

pub open spec fn attributes_eq(x: Seq<AttributeTy>, y: Seq<AttributeTy>) -> bool
    decreases x, 0nat,
{
    x.len() == y.len() && forall|i: int|
        0 <= i < x.len() ==> (#[trigger] x[i]).id == y[i].id && named_eq(x[i].args, y[i].args)
}

pub open spec fn tpls_eq(x: Seq<TplTy>, y: Seq<TplTy>) -> bool
    decreases x, 0nat,
{
    x.len() == y.len() && forall|i: int|
        0 <= i < x.len() ==> (#[trigger] x[i]).tpl_id == y[i].tpl_id && param_eq(
            x[i].param,
            y[i].param,
        )
}

impl LuaType {
    /// Whether two types are the same type.
    pub fn same(&self, other: &LuaType) -> (r: bool)
        ensures
            r == ty_eq(self@, other@),
        decreases self, 0nat,
    {
        match self {
            LuaType::Unknown => matches!(other, LuaType::Unknown),
            LuaType::Any => matches!(other, LuaType::Any),
            LuaType::Nil => matches!(other, LuaType::Nil),
            LuaType::Table => matches!(other, LuaType::Table),
            LuaType::Userdata => matches!(other, LuaType::Userdata),
            LuaType::Function => matches!(other, LuaType::Function),
            LuaType::Thread => matches!(other, LuaType::Thread),
            LuaType::Boolean => matches!(other, LuaType::Boolean),
            LuaType::String => matches!(other, LuaType::String),
            LuaType::Integer => matches!(other, LuaType::Integer),
            LuaType::Number => matches!(other, LuaType::Number),
            LuaType::Io => matches!(other, LuaType::Io),
            LuaType::SelfInfer => matches!(other, LuaType::SelfInfer),
            LuaType::Global => matches!(other, LuaType::Global),
            LuaType::Never => matches!(other, LuaType::Never),
            LuaType::BooleanConst(x) => match other {
                LuaType::BooleanConst(y) => *x == *y,
                _ => false,
            },
            LuaType::StringConst(x) => match other {
                LuaType::StringConst(y) => *x == *y,
                _ => false,
            },
            LuaType::IntegerConst(x) => match other {
                LuaType::IntegerConst(y) => *x == *y,
                _ => false,
            },
            LuaType::FloatConst(x) => match other {
                LuaType::FloatConst(y) => x.same_number(*y),
                _ => false,
            },
            LuaType::TableConst(x) => match other {
                LuaType::TableConst(y) => *x == *y,
                _ => false,
            },
            LuaType::Ref(x) => match other {
                LuaType::Ref(y) => x.same(y),
                _ => false,
            },
            LuaType::Def(x) => match other {
                LuaType::Def(y) => x.same(y),
                _ => false,
            },
            LuaType::Array(x) => match other {
                LuaType::Array(y) => {
                proof {
                    assert(x.model().base == types::ty(x.base) && y.model().base == types::ty(y.base));
                }
                x.base.same(&y.base) && x.len == y.len
            },
                _ => false,
            },
            LuaType::Tuple(x) => match other {
                LuaType::Tuple(y) => {
                proof {
                    assert(x.model().types == types::tys(x.types@) && y.model().types == types::tys(y.types@));
                }
                same_types(&x.types, &y.types) && x.status == y.status
            },
                _ => false,
            },
            LuaType::DocFunction(x) => match other {
                LuaType::DocFunction(y) => x.same(y),
                _ => false,
            },
            LuaType::Object(x) => match other {
                LuaType::Object(y) => x.same(y),
                _ => false,
            },
            LuaType::Union(x) => match other {
                LuaType::Union(y) => x.same(y),
                _ => false,
            },
            LuaType::Intersection(x) => match other {
                LuaType::Intersection(y) => {
                proof {
                    assert(x.model() == types::tys(x.types@) && y.model() == types::tys(y.types@));
                }
                same_types(&x.types, &y.types)
            },
                _ => false,
            },
            LuaType::Generic(x) => match other {
                LuaType::Generic(y) => {
                proof {
                    assert(x.model().params == types::tys(x.params@) && y.model().params == types::tys(y.params@));
                }
                x.base.same(&y.base) && same_types(&x.params, &y.params)
            },
                _ => false,
            },
            LuaType::TableGeneric(x) => match other {
                LuaType::TableGeneric(y) => same_types(x, y),
                _ => false,
            },
            LuaType::TplRef(x) => match other {
                LuaType::TplRef(y) => {
                proof {
                    assert(x.model().param == x.param.model() && y.model().param
                        == y.param.model());
                }
                x.tpl_id == y.tpl_id && x.param.same(&y.param)
            },
                _ => false,
            },
            LuaType::StrTplRef(x) => match other {
                LuaType::StrTplRef(y) => {
                proof {
                    assert(x.model().constraint == types::opt_ty(x.constraint) && y.model().constraint
                        == types::opt_ty(y.constraint));
                }
                x.prefix == y.prefix && x.tpl_id == y.tpl_id && x.name == y.name && x.suffix
                    == y.suffix && same_opt(&x.constraint, &y.constraint)
            },
                _ => false,
            },
            LuaType::Variadic(x) => match other {
                LuaType::Variadic(y) => x.same(y),
                _ => false,
            },
            LuaType::Signature(x) => match other {
                LuaType::Signature(y) => *x == *y,
                _ => false,
            },
            LuaType::Instance(x) => match other {
                LuaType::Instance(y) => {
                proof {
                    assert(x.model().base == types::ty(x.base) && y.model().base == types::ty(y.base));
                }
                x.base.same(&y.base) && x.range == y.range
            },
                _ => false,
            },
            LuaType::DocStringConst(x) => match other {
                LuaType::DocStringConst(y) => *x == *y,
                _ => false,
            },
            LuaType::DocIntegerConst(x) => match other {
                LuaType::DocIntegerConst(y) => *x == *y,
                _ => false,
            },
            LuaType::DocBooleanConst(x) => match other {
                LuaType::DocBooleanConst(y) => *x == *y,
                _ => false,
            },
            LuaType::Namespace(x) => match other {
                LuaType::Namespace(y) => *x == *y,
                _ => false,
            },
            LuaType::Call(x) => match other {
                LuaType::Call(y) => {
                proof {
                    assert(x.model().operand == types::tys(x.operand@) && y.model().operand == types::tys(
                        y.operand@,
                    ));
                }
                x.call_kind == y.call_kind && same_types(&x.operand, &y.operand)
            },
                _ => false,
            },
            LuaType::MultiLineUnion(x) => match other {
                LuaType::MultiLineUnion(y) => {
                proof {
                    assert(x.model() == types::line_tys(x.unions@) && y.model() == types::line_tys(y.unions@));
                }
                same_lines(&x.unions, &y.unions)
            },
                _ => false,
            },
            LuaType::TypeGuard(x) => match other {
                LuaType::TypeGuard(y) => x.same(y),
                _ => false,
            },
            LuaType::Language(x) => match other {
                LuaType::Language(y) => *x == *y,
                _ => false,
            },
            LuaType::ModuleRef(x) => match other {
                LuaType::ModuleRef(y) => *x == *y,
                _ => false,
            },
            LuaType::Conditional(x) => match other {
                LuaType::Conditional(y) => {
                proof {
                    assert(x.model().infer_params == types::param_tys(x.infer_params@)
                        && y.model().infer_params == types::param_tys(y.infer_params@));
                }
                x.checked_type.same(&y.checked_type) && x.extends_type.same(&y.extends_type)
                    && x.true_type.same(&y.true_type) && x.false_type.same(&y.false_type)
                    && same_params(&x.infer_params, &y.infer_params) && x.has_new == y.has_new
            },
                _ => false,
            },
            LuaType::Mapped(x) => match other {
                LuaType::Mapped(y) => {
                proof {
                    assert(x.model().param == x.param.1.model() && y.model().param
                        == y.param.1.model());
                }
                x.param.0 == y.param.0 && x.param.1.same(&y.param.1) && x.value.same(&y.value)
                    && x.is_readonly == y.is_readonly && x.is_optional == y.is_optional
            },
                _ => false,
            },
        }
    }
}

impl LuaFunctionType {
    pub fn same(&self, other: &LuaFunctionType) -> (r: bool)
        ensures
            r == ty_eq(Ty::DocFunction(Box::new(self@)), Ty::DocFunction(Box::new(other@))),
        decreases self, 0nat,
    {
        self.async_state == other.async_state && self.is_colon_define == other.is_colon_define
            && self.is_variadic == other.is_variadic && same_tpls(
            &self.generic_params,
            &other.generic_params,
        ) && same_named(&self.params, &other.params) && self.ret.same(&other.ret)
    }
}

impl LuaObjectType {
    pub fn same(&self, other: &LuaObjectType) -> (r: bool)
        ensures
            r == ty_eq(Ty::Object(Box::new(self@)), Ty::Object(Box::new(other@))),
        decreases self, 0nat,
    {
        same_fields(&self.fields, &other.fields) && same_pairs(
            &self.index_access,
            &other.index_access,
        )
    }
}

impl LuaUnionType {
    pub fn same(&self, other: &LuaUnionType) -> (r: bool)
        ensures
            r == ty_eq(Ty::Union(Box::new(self@)), Ty::Union(Box::new(other@))),
        decreases self, 0nat,
    {
        match (self, other) {
            (LuaUnionType::Basic(x), LuaUnionType::Basic(y)) => x.same(y),
            (LuaUnionType::Nullable(x), LuaUnionType::Nullable(y)) => x.same(y),
            (LuaUnionType::Multi(x), LuaUnionType::Multi(y)) => {
                proof {
                    assert(x.model() == types::tys(x.types@) && y.model() == types::tys(y.types@));
                }
                same_members(&x.types, &y.types)
            },
            _ => false,
        }
    }
}

impl VariadicType {
    pub fn same(&self, other: &VariadicType) -> (r: bool)
        ensures
            r == ty_eq(Ty::Variadic(Box::new(self@)), Ty::Variadic(Box::new(other@))),
        decreases self, 0nat,
    {
        match (self, other) {
            (VariadicType::Multi(x), VariadicType::Multi(y)) => same_types(x, y),
            (VariadicType::Base(x), VariadicType::Base(y)) => x.same(y),
            _ => false,
        }
    }
}

impl GenericParam {
    pub fn same(&self, other: &GenericParam) -> (r: bool)
        ensures
            r == param_eq(self@, other@),
        decreases self, 0nat,
    {
        self.name == other.name && same_opt(&self.constraint, &other.constraint) && same_opt(
            &self.default,
            &other.default,
        ) && self.is_const == other.is_const && match (&self.attributes, &other.attributes) {
            (Some(x), Some(y)) => same_attributes(x, y),
            (None, None) => true,
            _ => false,
        }
    }
}

impl LuaMemberKey {
    /// Whether two keys are the same key.
    pub fn same(&self, other: &LuaMemberKey) -> (r: bool)
        ensures
            r == key_eq(self@, other@),
        decreases self, 0nat,
    {
        match (self, other) {
            (LuaMemberKey::NoKey, LuaMemberKey::NoKey) => true,
            (LuaMemberKey::Integer(x), LuaMemberKey::Integer(y)) => *x == *y,
            (LuaMemberKey::Name(x), LuaMemberKey::Name(y)) => *x == *y,
            (LuaMemberKey::TypeKey(x), LuaMemberKey::TypeKey(y)) => x.same(y),
            _ => false,
        }
    }
}

pub fn same_types(x: &Vec<LuaType>, y: &Vec<LuaType>) -> (r: bool)
    ensures
        r == tys_eq(types::tys(x@), types::tys(y@)),
    decreases x, 0nat,
{
    if x.len() != y.len() {
        return false;
    }
    let mut i: usize = 0;
    while i < x.len()
        invariant
            i <= x@.len(),
            x@.len() == y@.len(),
            forall|j: int| 0 <= j < i ==> ty_eq(#[trigger] types::tys(x@)[j], types::tys(y@)[j]),
        decreases x@.len() - i,
    {
        if !x[i].same(&y[i]) {
            assert(!ty_eq(types::tys(x@)[i as int], types::tys(y@)[i as int]));
            return false;
        }
        i += 1;
    }
    true
}

fn same_opt(x: &Option<LuaType>, y: &Option<LuaType>) -> (r: bool)
    ensures
        r == opt_eq(types::opt_ty(*x), types::opt_ty(*y)),
    decreases x, 0nat,
{
    match (x, y) {
        (Some(p), Some(q)) => p.same(q),
        (None, None) => true,
        _ => false,
    }
}

/// Whether `x` holds a type that is the same as `t`.
pub fn holds_same(x: &Vec<LuaType>, t: &LuaType) -> (r: bool)
    ensures
        r == holds_ty(types::tys(x@), t@),
    decreases x, 0nat,
{
    let mut i: usize = 0;
    while i < x.len()
        invariant
            i <= x@.len(),
            forall|j: int| 0 <= j < i ==> !ty_eq(#[trigger] types::tys(x@)[j], t@),
        decreases x@.len() - i,
    {
        if x[i].same(t) {
            assert(ty_eq(types::tys(x@)[i as int], t@));
            return true;
        }
        i += 1;
    }
    false
}

fn same_members(x: &Vec<LuaType>, y: &Vec<LuaType>) -> (r: bool)
    ensures
        r == members_eq(types::tys(x@), types::tys(y@)),
    decreases x, 1nat,
{
    let ghost p = types::tys(x@);
    let ghost q = types::tys(y@);
    if x.len() != y.len() {
        return false;
    }
    let mut i: usize = 0;
    while i < x.len()
        invariant
            i <= x@.len(),
            x@.len() == y@.len(),
            p == types::tys(x@),
            q == types::tys(y@),
            forall|a: int, b: int|
                0 <= a < i && a < b < x@.len() ==> !ty_eq(#[trigger] p[a], #[trigger] p[b]),
            forall|a: int| 0 <= a < i ==> among_tys(#[trigger] p[a], q),
        decreases x@.len() - i,
    {
        let mut j: usize = i + 1;
        while j < x.len()
            invariant
                i < j <= x@.len(),
                i < x@.len(),
                p == types::tys(x@),
                q == types::tys(y@),
                forall|b: int| i < b < j ==> !ty_eq(p[i as int], #[trigger] p[b]),
            decreases x@.len() - j,
        {
            if x[i].same(&x[j]) {
                assert(ty_eq(p[i as int], p[j as int]));
                return false;
            }
            j += 1;
        }
        let mut found = false;
        let mut k: usize = 0;
        while k < y.len()
            invariant
                k <= y@.len(),
                i < x@.len(),
                p == types::tys(x@),
                q == types::tys(y@),
                found == exists|b: int| 0 <= b < k && ty_eq(p[i as int], #[trigger] q[b]),
            decreases y@.len() - k,
        {
            if x[i].same(&y[k]) {
                assert(ty_eq(p[i as int], q[k as int]));
                found = true;
            }
            k += 1;
        }
        if !found {
            assert(!among_tys(p[i as int], q));
            return false;
        }
        i += 1;
    }
    let mut j: usize = 0;
    while j < y.len()
        invariant
            j <= y@.len(),
            x@.len() == y@.len(),
            p == types::tys(x@),
            q == types::tys(y@),
            forall|b: int| 0 <= b < j ==> holds_ty(p, #[trigger] q[b]),
        decreases y@.len() - j,
    {
        if !holds_same(x, &y[j]) {
            assert(!holds_ty(p, q[j as int]));
            return false;
        }
        j += 1;
    }
    true
}

fn same_fields(
    x: &Vec<(LuaMemberKey, LuaType)>,
    y: &Vec<(LuaMemberKey, LuaType)>,
) -> (r: bool)
    ensures
        r == fields_eq(types::field_tys(x@), types::field_tys(y@)),
    decreases x, 0nat,
{
    let ghost p = types::field_tys(x@);
    let ghost q = types::field_tys(y@);
    if x.len() != y.len() {
        return false;
    }
    let mut i: usize = 0;
    while i < x.len()
        invariant
            i <= x@.len(),
            x@.len() == y@.len(),
            p == types::field_tys(x@),
            q == types::field_tys(y@),
            forall|a: int| 0 <= a < i ==> among_fields(#[trigger] p[a], q),
        decreases x@.len() - i,
    {
        let mut found = false;
        let mut k: usize = 0;
        while k < y.len()
            invariant
                k <= y@.len(),
                i < x@.len(),
                p == types::field_tys(x@),
                q == types::field_tys(y@),
                found == exists|b: int|
                    0 <= b < k && key_eq(p[i as int].0, (#[trigger] q[b]).0) && ty_eq(
                        p[i as int].1,
                        q[b].1,
                    ),
            decreases y@.len() - k,
        {
            if x[i].0.same(&y[k].0) && x[i].1.same(&y[k].1) {
                assert(key_eq(p[i as int].0, q[k as int].0) && ty_eq(p[i as int].1, q[k as int].1));
                found = true;
            }
            k += 1;
        }
        if !found {
            assert(!among_fields(p[i as int], q));
            return false;
        }
        i += 1;
    }
    true
}

fn same_pairs(x: &Vec<(LuaType, LuaType)>, y: &Vec<(LuaType, LuaType)>) -> (r: bool)
    ensures
        r == pairs_eq(types::pair_tys(x@), types::pair_tys(y@)),
    decreases x, 0nat,
{
    if x.len() != y.len() {
        return false;
    }
    let ghost p = types::pair_tys(x@);
    let ghost q = types::pair_tys(y@);
    let mut i: usize = 0;
    while i < x.len()
        invariant
            i <= x@.len(),
            x@.len() == y@.len(),
            p == types::pair_tys(x@),
            q == types::pair_tys(y@),
            forall|j: int|
                0 <= j < i ==> ty_eq((#[trigger] p[j]).0, q[j].0) && ty_eq(p[j].1, q[j].1),
        decreases x@.len() - i,
    {
        if !x[i].0.same(&y[i].0) || !x[i].1.same(&y[i].1) {
            assert(!(ty_eq(p[i as int].0, q[i as int].0) && ty_eq(p[i as int].1, q[i as int].1)));
            return false;
        }
        i += 1;
    }
    true
}

fn same_named(x: &Vec<(String, Option<LuaType>)>, y: &Vec<(String, Option<LuaType>)>) -> (r: bool)
    ensures
        r == named_eq(types::named_tys(x@), types::named_tys(y@)),
    decreases x, 0nat,
{
    if x.len() != y.len() {
        return false;
    }
    let ghost p = types::named_tys(x@);
    let ghost q = types::named_tys(y@);
    let mut i: usize = 0;
    while i < x.len()
        invariant
            i <= x@.len(),
            x@.len() == y@.len(),
            p == types::named_tys(x@),
            q == types::named_tys(y@),
            forall|j: int| 0 <= j < i ==> (#[trigger] p[j]).0 == q[j].0 && opt_eq(p[j].1, q[j].1),
        decreases x@.len() - i,
    {
        if x[i].0 != y[i].0 || !same_opt(&x[i].1, &y[i].1) {
            assert(!(p[i as int].0 == q[i as int].0 && opt_eq(p[i as int].1, q[i as int].1)));
            return false;
        }
        i += 1;
    }
    true
}

fn same_lines(x: &Vec<(LuaType, Option<String>)>, y: &Vec<(LuaType, Option<String>)>) -> (r: bool)
    ensures
        r == lines_eq(types::line_tys(x@), types::line_tys(y@)),
    decreases x, 0nat,
{
    if x.len() != y.len() {
        return false;
    }
    let ghost p = types::line_tys(x@);
    let ghost q = types::line_tys(y@);
    let mut i: usize = 0;
    while i < x.len()
        invariant
            i <= x@.len(),
            x@.len() == y@.len(),
            p == types::line_tys(x@),
            q == types::line_tys(y@),
            forall|j: int| 0 <= j < i ==> ty_eq((#[trigger] p[j]).0, q[j].0),
        decreases x@.len() - i,
    {
        if !x[i].0.same(&y[i].0) {
            assert(!ty_eq(p[i as int].0, q[i as int].0));
            return false;
        }
        i += 1;
    }
    true
}

fn same_attributes(x: &Vec<LuaAttributeUse>, y: &Vec<LuaAttributeUse>) -> (r: bool)
    ensures
        r == attributes_eq(types::attribute_tys(x@), types::attribute_tys(y@)),
    decreases x, 0nat,
{
    if x.len() != y.len() {
        return false;
    }
    let ghost p = types::attribute_tys(x@);
    let ghost q = types::attribute_tys(y@);
    let mut i: usize = 0;
    while i < x.len()
        invariant
            i <= x@.len(),
            x@.len() == y@.len(),
            p == types::attribute_tys(x@),
            q == types::attribute_tys(y@),
            forall|j: int|
                0 <= j < i ==> (#[trigger] p[j]).id == q[j].id && named_eq(p[j].args, q[j].args),
        decreases x@.len() - i,
    {
        if !x[i].id.same(&y[i].id) || !same_named(&x[i].args, &y[i].args) {
            assert(!(p[i as int].id == q[i as int].id && named_eq(
                p[i as int].args,
                q[i as int].args,
            )));
            return false;
        }
        i += 1;
    }
    true
}

fn same_params(x: &Vec<GenericParam>, y: &Vec<GenericParam>) -> (r: bool)
    ensures
        r == params_eq(types::param_tys(x@), types::param_tys(y@)),
    decreases x, 0nat,
{
    if x.len() != y.len() {
        return false;
    }
    let ghost p = types::param_tys(x@);
    let ghost q = types::param_tys(y@);
    let mut i: usize = 0;
    while i < x.len()
        invariant
            i <= x@.len(),
            x@.len() == y@.len(),
            p == types::param_tys(x@),
            q == types::param_tys(y@),
            forall|j: int| 0 <= j < i ==> param_eq(#[trigger] p[j], q[j]),
        decreases x@.len() - i,
    {
        if !x[i].same(&y[i]) {
            assert(!param_eq(p[i as int], q[i as int]));
            return false;
        }
        i += 1;
    }
    true
}

fn same_tpls(x: &Vec<GenericTpl>, y: &Vec<GenericTpl>) -> (r: bool)
    ensures
        r == tpls_eq(types::tpl_tys(x@), types::tpl_tys(y@)),
    decreases x, 0nat,
{
    if x.len() != y.len() {
        return false;
    }
    let ghost p = types::tpl_tys(x@);
    let ghost q = types::tpl_tys(y@);
    let mut i: usize = 0;
    while i < x.len()
        invariant
            i <= x@.len(),
            x@.len() == y@.len(),
            p == types::tpl_tys(x@),
            q == types::tpl_tys(y@),
            forall|j: int|
                0 <= j < i ==> (#[trigger] p[j]).tpl_id == q[j].tpl_id && param_eq(
                    p[j].param,
                    q[j].param,
                ),
        decreases x@.len() - i,
    {
        proof {
            assert(p[i as int] == x@[i as int].model() && q[i as int] == y@[i as int].model());
            assert(x@[i as int].model().param == x@[i as int].param.model());
            assert(y@[i as int].model().param == y@[i as int].param.model());
        }
        if x[i].tpl_id != y[i].tpl_id || !x[i].param.same(&y[i].param) {
            assert(!(p[i as int].tpl_id == q[i as int].tpl_id && param_eq(
                p[i as int].param,
                q[i as int].param,
            )));
            return false;
        }
        i += 1;
    }
    true
}

impl PartialEq for LuaType {
    fn eq(&self, other: &LuaType) -> (r: bool) {
        self.same(other)
    }
}

impl vstd::std_specs::cmp::PartialEqSpecImpl for LuaType {
    open spec fn obeys_eq_spec() -> bool {
        true
    }

    open spec fn eq_spec(&self, other: &LuaType) -> bool {
        ty_eq(self@, other@)
    }
}

impl PartialEq for LuaMemberKey {
    fn eq(&self, other: &LuaMemberKey) -> (r: bool) {
        self.same(other)
    }
}

impl vstd::std_specs::cmp::PartialEqSpecImpl for LuaMemberKey {
    open spec fn obeys_eq_spec() -> bool {
        true
    }

    open spec fn eq_spec(&self, other: &LuaMemberKey) -> bool {
        key_eq(self@, other@)
    }
}

} // verus!
