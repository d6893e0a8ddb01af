//! Questions about one type, and unions of lists of types.

use std::sync::Arc;
use vstd::prelude::*;

use crate::types;
use crate::types::{
    BasicTypeKind, LuaMultiLineUnion, LuaType, LuaUnionType, Ty, UnionTy, VariadicTy, VariadicType,
    complex, equality,
};

verus! {

/// A type with a single value that is known, or a table literal.
pub open spec fn ty_is_const(t: Ty) -> bool {
    ||| t is BooleanConst
    ||| t is StringConst
    ||| t is IntegerConst
    ||| t is FloatConst
    ||| t is TableConst
    ||| t is DocStringConst
    ||| t is DocIntegerConst
}

/// The type names `nil` as one of its alternatives.
pub open spec fn ty_is_nullable(t: Ty) -> bool
    decreases t,
{
    match t {
        Ty::Nil => true,
        Ty::Union(u) => match *u {
            UnionTy::Basic(kinds) => kinds.contains(BasicTypeKind::Nil),
            UnionTy::Nullable(_) => true,
            UnionTy::Multi(types) => any_nullable(types),
        },
        Ty::MultiLineUnion(lines) => any_nullable_line(lines),
        _ => false,
    }
}

pub open spec fn any_nullable(types: Seq<Ty>) -> bool
    decreases types,
{
    exists|i: int| 0 <= i < types.len() && ty_is_nullable(#[trigger] types[i])
}

pub open spec fn any_nullable_line(lines: Seq<(Ty, Option<Seq<char>>)>) -> bool
    decreases lines,
{
    exists|i: int| 0 <= i < lines.len() && ty_is_nullable((#[trigger] lines[i]).0)
}

/// A value of the type may be left out.
pub open spec fn ty_is_optional(t: Ty) -> bool
    decreases t,
{
    match t {
        Ty::Nil | Ty::Any | Ty::Unknown => true,
        Ty::Union(u) => match *u {
            UnionTy::Basic(kinds) => kinds.contains(BasicTypeKind::Nil),
            UnionTy::Nullable(_) => true,
            UnionTy::Multi(types) => any_optional(types),
        },
        Ty::MultiLineUnion(lines) => any_optional_line(lines),
        Ty::Variadic(_) => true,
        _ => false,
    }
}

pub open spec fn any_optional(types: Seq<Ty>) -> bool
    decreases types,
{
    exists|i: int| 0 <= i < types.len() && ty_is_optional(#[trigger] types[i])
}

pub open spec fn any_optional_line(lines: Seq<(Ty, Option<Seq<char>>)>) -> bool
    decreases lines,
{
    exists|i: int| 0 <= i < lines.len() && ty_is_optional((#[trigger] lines[i]).0)
}

/// No value of the type is `nil` or `false`.
pub open spec fn ty_is_always_truthy(t: Ty) -> bool
    decreases t,
{
    match t {
        Ty::Nil | Ty::Boolean | Ty::Any | Ty::Unknown => false,
        Ty::BooleanConst(b) => b,
        Ty::DocBooleanConst(b) => b,
        Ty::Union(u) => match *u {
            UnionTy::Basic(kinds) => all_kinds_truthy(kinds),
            UnionTy::Nullable(_) => false,
            UnionTy::Multi(types) => all_always_truthy(types),
        },
        Ty::MultiLineUnion(lines) => all_always_truthy_lines(lines),
        Ty::TypeGuard(_) => false,
        _ => true,
    }
}

pub open spec fn all_always_truthy(types: Seq<Ty>) -> bool
    decreases types,
{
    forall|i: int| 0 <= i < types.len() ==> ty_is_always_truthy(#[trigger] types[i])
}

pub open spec fn all_always_truthy_lines(lines: Seq<(Ty, Option<Seq<char>>)>) -> bool
    decreases lines,
{
    forall|i: int| 0 <= i < lines.len() ==> ty_is_always_truthy((#[trigger] lines[i]).0)
}

pub open spec fn all_kinds_truthy(kinds: Seq<BasicTypeKind>) -> bool {
    forall|i: int| 0 <= i < kinds.len() ==> kind_is_truthy(#[trigger] kinds[i])
}

pub open spec fn all_kinds_nil(kinds: Seq<BasicTypeKind>) -> bool {
    forall|i: int| 0 <= i < kinds.len() ==> (#[trigger] kinds[i]) is Nil
}

pub open spec fn kind_is_truthy(kind: BasicTypeKind) -> bool {
    !(kind is Nil || kind is Boolean || kind is Any || kind is Unknown)
}

/// Every value of the type is `nil` or `false`.
pub open spec fn ty_is_always_falsy(t: Ty) -> bool
    decreases t,
{
    match t {
        Ty::Nil => true,
        Ty::BooleanConst(b) => !b,
        Ty::DocBooleanConst(b) => !b,
        Ty::Union(u) => match *u {
            UnionTy::Basic(kinds) => all_kinds_nil(kinds),
            UnionTy::Nullable(x) => ty_is_always_falsy(x),
            UnionTy::Multi(types) => all_always_falsy(types),
        },
        Ty::MultiLineUnion(lines) => all_always_falsy_lines(lines),
        _ => false,
    }
}

pub open spec fn all_always_falsy(types: Seq<Ty>) -> bool
    decreases types,
{
    forall|i: int| 0 <= i < types.len() ==> ty_is_always_falsy(#[trigger] types[i])
}

pub open spec fn all_always_falsy_lines(lines: Seq<(Ty, Option<Seq<char>>)>) -> bool
    decreases lines,
{
    forall|i: int| 0 <= i < lines.len() ==> ty_is_always_falsy((#[trigger] lines[i]).0)
}

/// The type is a run of values, or a union with one among its members.
pub open spec fn ty_contains_multi_return(t: Ty) -> bool
    decreases t,
{
    match t {
        Ty::Variadic(_) => true,
        Ty::Union(u) => match *u {
            UnionTy::Basic(_) => false,
            UnionTy::Nullable(x) => ty_contains_multi_return(x),
            UnionTy::Multi(types) => any_multi_return(types),
        },
        _ => false,
    }
}

pub open spec fn any_multi_return(types: Seq<Ty>) -> bool
    decreases types,
{
    exists|i: int| 0 <= i < types.len() && ty_contains_multi_return(#[trigger] types[i])
}

/// The list `done` with the types of `more` that it does not hold yet, in order.
pub open spec fn append_new(done: Seq<Ty>, more: Seq<Ty>) -> Seq<Ty>
    decreases more.len(),
{
    if more.len() == 0 {
        done
    } else {
        let front = append_new(done, more.drop_last());
        if equality::holds_ty(front, more.last()) {
            front
        } else {
            front.push(more.last())
        }
    }
}

/// The types of a list with the members of its unions in their place.
pub open spec fn flat_members(types: Seq<Ty>) -> Seq<Ty>
    decreases types.len(),
{
    if types.len() == 0 {
        Seq::empty()
    } else {
        flat_members(types.drop_last()) + members_of(types.last())
    }
}

/// The members of a union; any other type is its own single member.
pub open spec fn members_of(t: Ty) -> Seq<Ty> {
    match t {
        Ty::Union(u) => complex::union_tys(*u),
        _ => seq![t],
    }
}

/// The type of a value that is of one of the types of a list.
pub open spec fn ty_from_list(types: Seq<Ty>) -> Ty {
    if types.len() == 0 {
        Ty::Nil
    } else if types.len() == 1 {
        types[0]
    } else {
        let members = append_new(Seq::empty(), flat_members(types));
        if members.len() == 0 {
            Ty::Nil
        } else if members.len() == 1 {
            members[0]
        } else {
            Ty::Union(Box::new(complex::union_of(members)))
        }
    }
}

/// The type of the value at place `idx` of what an expression of the type `t` yields.
pub open spec fn result_slot(t: Ty, idx: nat) -> Option<Ty>
    decreases t,
{
    match t {
        Ty::Variadic(v) => match *v {
            VariadicTy::Base(base) => Some(base),
            VariadicTy::Multi(types) => if types.len() == 0 {
                None
            } else if idx < types.len() - 1 {
                result_slot(types[idx as int], 0)
            } else {
                result_slot(types[types.len() - 1], (idx - (types.len() - 1)) as nat)
            },
        },
        Ty::Union(u) => if idx == 0 && !ty_contains_multi_return(t) {
            Some(t)
        } else {
            match *u {
                UnionTy::Basic(kinds) => union_slot(
                    Seq::new(
                        kinds.len(),
                        |i: int|
                            if idx == 0 {
                                Some(types::kind_ty(kinds[i]))
                            } else {
                                None
                            },
                    ),
                ),
                UnionTy::Nullable(x) => union_slot(
                    seq![
                        result_slot(x, idx),
                        if idx == 0 {
                            Some(Ty::Nil)
                        } else {
                            None
                        },
                    ],
                ),
                UnionTy::Multi(types) => union_slot(result_slots(types, idx)),
            }
        },
        _ => if idx == 0 {
            Some(t)
        } else {
            None
        },
    }
}

pub open spec fn result_slots(types: Seq<Ty>, idx: nat) -> Seq<Option<Ty>>
    decreases types,
{
    Seq::new(
        types.len(),
        |i: int|
            if 0 <= i < types.len() {
                result_slot(types[i], idx)
            } else {
                None
            },
    )
}

/// What the members of a union yield at one place: nothing where none of them yields anything
/// there, and `nil` for each one that does not.
pub open spec fn union_slot(slots: Seq<Option<Ty>>) -> Option<Ty> {
    if exists|i: int| 0 <= i < slots.len() && (#[trigger] slots[i]) is Some {
        Some(ty_from_list(slots_or_nil(slots)))
    } else {
        None
    }
}

pub open spec fn slots_or_nil(slots: Seq<Option<Ty>>) -> Seq<Ty> {
    Seq::new(
        slots.len(),
        |i: int|
            match slots[i] {
                Some(t) => t,
                None => Ty::Nil,
            },
    )
}

/// What may be `nil` may be left out.
pub proof fn nullable_is_optional(t: Ty)
    requires
        ty_is_nullable(t),
    ensures
        ty_is_optional(t),
    decreases t,
{
    match t {
        Ty::Union(u) => match *u {
            UnionTy::Multi(types) => {
                let i = choose|i: int| 0 <= i < types.len() && ty_is_nullable(#[trigger] types[i]);
                nullable_is_optional(types[i]);
            },
            _ => {},
        },
        Ty::MultiLineUnion(lines) => {
            let i = choose|i: int| 0 <= i < lines.len() && ty_is_nullable((#[trigger] lines[i]).0);
            nullable_is_optional(lines[i].0);
        },
        _ => {},
    }
}

/// The type has an alternative at all, and so has each union that it is made of.
pub open spec fn is_inhabited_union(t: Ty) -> bool
    decreases t,
{
    match t {
        Ty::Union(u) => match *u {
            UnionTy::Basic(kinds) => kinds.len() > 0,
            UnionTy::Nullable(_) => true,
            UnionTy::Multi(types) => types.len() > 0 && all_inhabited_union(types),
        },
        Ty::MultiLineUnion(lines) => lines.len() > 0 && all_inhabited_union_lines(lines),
        _ => true,
    }
}

pub open spec fn all_inhabited_union(types: Seq<Ty>) -> bool
    decreases types,
{
    forall|i: int| 0 <= i < types.len() ==> is_inhabited_union(#[trigger] types[i])
}

pub open spec fn all_inhabited_union_lines(lines: Seq<(Ty, Option<Seq<char>>)>) -> bool
    decreases lines,
{
    forall|i: int| 0 <= i < lines.len() ==> is_inhabited_union((#[trigger] lines[i]).0)
}

/// No type with an alternative is both always truthy and always falsy.
pub proof fn truthy_excludes_falsy(t: Ty)
    requires
        is_inhabited_union(t),
        ty_is_always_truthy(t),
    ensures
        !ty_is_always_falsy(t),
    decreases t,
{
    reveal_with_fuel(ty_is_always_falsy, 3);
    match t {
        Ty::Union(u) => match *u {
            UnionTy::Basic(kinds) => {
                assert(kind_is_truthy(kinds[0]));
            },
            UnionTy::Nullable(_) => {},
            UnionTy::Multi(types) => {
                assert(is_inhabited_union(types[0]) && ty_is_always_truthy(types[0]));
                truthy_excludes_falsy(types[0]);
            },
        },
        Ty::MultiLineUnion(lines) => {
            assert(is_inhabited_union(lines[0].0) && ty_is_always_truthy(lines[0].0));
            truthy_excludes_falsy(lines[0].0);
        },
        _ => {},
    }
}

/// Appending keeps a list without repetition so.
pub proof fn lemma_append_new_distinct(done: Seq<Ty>, more: Seq<Ty>)
    requires
        forall|i: int, j: int|
            0 <= i < j < done.len() ==> !equality::ty_eq(#[trigger] done[i], #[trigger] done[j]),
    ensures
        forall|i: int, j: int|
            0 <= i < j < append_new(done, more).len() ==> !equality::ty_eq(
                #[trigger] append_new(done, more)[i],
                #[trigger] append_new(done, more)[j],
            ),
    decreases more.len(),
{
    if more.len() > 0 {
        lemma_append_new_distinct(done, more.drop_last());
        let front = append_new(done, more.drop_last());
        let all = append_new(done, more);
        if !equality::holds_ty(front, more.last()) {
            assert forall|i: int, j: int| 0 <= i < j < all.len() implies !equality::ty_eq(
                #[trigger] all[i],
                #[trigger] all[j],
            ) by {
                assert(all[i] == front[i]);
                if j < front.len() {
                    assert(all[j] == front[j]);
                }
            }
        }
    }
}

/// The members of a union list no type twice.
pub open spec fn without_repetition(t: Ty) -> bool {
    match t {
        Ty::Union(u) => match *u {
            UnionTy::Multi(members) => forall|i: int, j: int|
                0 <= i < j < members.len() ==> !equality::ty_eq(#[trigger] members[i], #[trigger] members[j]),
            _ => true,
        },
        _ => true,
    }
}

impl LuaType {
    pub fn is_unknown(&self) -> (r: bool)
        ensures
            r == (self@ is Unknown),
    {
        matches!(self, LuaType::Unknown)
    }

    pub fn is_nil(&self) -> (r: bool)
        ensures
            r == (self@ is Nil),
    {
        matches!(self, LuaType::Nil)
    }

    pub fn is_never(&self) -> (r: bool)
        ensures
            r == (self@ is Never),
    {
        matches!(self, LuaType::Never)
    }

    pub fn is_table(&self) -> (r: bool)
        ensures
            r == (self@ is Table || self@ is TableGeneric || self@ is TableConst
                || self@ is Global || self@ is Tuple || self@ is Array),
    {
        matches!(
            self,
            LuaType::Table
            | LuaType::TableGeneric(_)
            | LuaType::TableConst(_)
            | LuaType::Global
            | LuaType::Tuple(_)
            | LuaType::Array(_)
        )
    }

    pub fn is_userdata(&self) -> (r: bool)
        ensures
            r == (self@ is Userdata),
    {
        matches!(self, LuaType::Userdata)
    }

    pub fn is_thread(&self) -> (r: bool)
        ensures
            r == (self@ is Thread),
    {
        matches!(self, LuaType::Thread)
    }

    pub fn is_boolean(&self) -> (r: bool)
        ensures
            r == (self@ is BooleanConst || self@ is Boolean || self@ is DocBooleanConst),
    {
        matches!(self, LuaType::BooleanConst(_) | LuaType::Boolean | LuaType::DocBooleanConst(_))
    }

    pub fn is_string(&self) -> (r: bool)
        ensures
            r == (self@ is StringConst || self@ is String || self@ is DocStringConst || self@ is Language),
    {
        matches!(
            self,
            LuaType::StringConst(_)
            | LuaType::String
            | LuaType::DocStringConst(_)
            | LuaType::Language(_)
        )
    }

    pub fn is_integer(&self) -> (r: bool)
        ensures
            r == (self@ is IntegerConst || self@ is Integer || self@ is DocIntegerConst),
    {
        matches!(self, LuaType::IntegerConst(_) | LuaType::Integer | LuaType::DocIntegerConst(_))
    }

    pub fn is_number(&self) -> (r: bool)
        ensures
            r == (self@ is Number || self@ is Integer || self@ is IntegerConst
                || self@ is DocIntegerConst || self@ is FloatConst),
    {
        matches!(
            self,
            LuaType::Number
            | LuaType::Integer
            | LuaType::IntegerConst(_)
            | LuaType::DocIntegerConst(_)
            | LuaType::FloatConst(_)
        )
    }

    pub fn is_io(&self) -> (r: bool)
        ensures
            r == (self@ is Io),
    {
        matches!(self, LuaType::Io)
    }

    pub fn is_ref(&self) -> (r: bool)
        ensures
            r == (self@ is Ref),
    {
        matches!(self, LuaType::Ref(_))
    }

    pub fn is_def(&self) -> (r: bool)
        ensures
            r == (self@ is Def),
    {
        matches!(self, LuaType::Def(_))
    }

    pub fn is_custom_type(&self) -> (r: bool)
        ensures
            r == (self@ is Ref || self@ is Def),
    {
        matches!(self, LuaType::Ref(_) | LuaType::Def(_))
    }

    pub fn is_array(&self) -> (r: bool)
        ensures
            r == (self@ is Array),
    {
        matches!(self, LuaType::Array(_))
    }

    pub fn is_tuple(&self) -> (r: bool)
        ensures
            r == (self@ is Tuple),
    {
        matches!(self, LuaType::Tuple(_))
    }

    pub fn is_function(&self) -> (r: bool)
        ensures
            r == (self@ is DocFunction || self@ is Function || self@ is Signature),
    {
        matches!(self, LuaType::DocFunction(_) | LuaType::Function | LuaType::Signature(_))
    }

    pub fn is_signature(&self) -> (r: bool)
        ensures
            r == (self@ is Signature),
    {
        matches!(self, LuaType::Signature(_))
    }

    pub fn is_object(&self) -> (r: bool)
        ensures
            r == (self@ is Object),
    {
        matches!(self, LuaType::Object(_))
    }

    pub fn is_union(&self) -> (r: bool)
        ensures
            r == (self@ is Union),
    {
        matches!(self, LuaType::Union(_))
    }

    pub fn is_intersection(&self) -> (r: bool)
        ensures
            r == (self@ is Intersection),
    {
        matches!(self, LuaType::Intersection(_))
    }

    pub fn is_call(&self) -> (r: bool)
        ensures
            r == (self@ is Call),
    {
        matches!(self, LuaType::Call(_))
    }

    pub fn is_generic(&self) -> (r: bool)
        ensures
            r == (self@ is Generic || self@ is TableGeneric),
    {
        matches!(self, LuaType::Generic(_) | LuaType::TableGeneric(_))
    }

    pub fn is_table_generic(&self) -> (r: bool)
        ensures
            r == (self@ is TableGeneric),
    {
        matches!(self, LuaType::TableGeneric(_))
    }

    pub fn is_class_tpl(&self) -> (r: bool)
        ensures
            r == (self@ is TplRef),
    {
        matches!(self, LuaType::TplRef(_))
    }

    pub fn is_str_tpl_ref(&self) -> (r: bool)
        ensures
            r == (self@ is StrTplRef),
    {
        matches!(self, LuaType::StrTplRef(_))
    }

    pub fn is_tpl(&self) -> (r: bool)
        ensures
            r == (self@ is TplRef || self@ is StrTplRef),
    {
        matches!(self, LuaType::TplRef(_) | LuaType::StrTplRef(_))
    }

    pub fn is_self_infer(&self) -> (r: bool)
        ensures
            r == (self@ is SelfInfer),
    {
        matches!(self, LuaType::SelfInfer)
    }

    pub fn is_any(&self) -> (r: bool)
        ensures
            r == (self@ is Any),
    {
        matches!(self, LuaType::Any)
    }

    pub fn is_const(&self) -> (r: bool)
        ensures
            r == (ty_is_const(self@)),
    {
        matches!(
            self,
            LuaType::BooleanConst(_)
            | LuaType::StringConst(_)
            | LuaType::IntegerConst(_)
            | LuaType::FloatConst(_)
            | LuaType::TableConst(_)
            | LuaType::DocStringConst(_)
            | LuaType::DocIntegerConst(_)
        )
    }

    pub fn is_multi_return(&self) -> (r: bool)
        ensures
            r == (self@ is Variadic),
    {
        matches!(self, LuaType::Variadic(_))
    }

    pub fn is_global(&self) -> (r: bool)
        ensures
            r == (self@ is Global),
    {
        matches!(self, LuaType::Global)
    }

    pub fn is_namespace(&self) -> (r: bool)
        ensures
            r == (self@ is Namespace),
    {
        matches!(self, LuaType::Namespace(_))
    }

    pub fn is_variadic(&self) -> (r: bool)
        ensures
            r == (self@ is Variadic),
    {
        matches!(self, LuaType::Variadic(_))
    }

    pub fn is_member_owner(&self) -> (r: bool)
        ensures
            r == (self@ is Ref || self@ is TableConst),
    {
        matches!(self, LuaType::Ref(_) | LuaType::TableConst(_))
    }

    pub fn is_type_guard(&self) -> (r: bool)
        ensures
            r == (self@ is TypeGuard),
    {
        matches!(self, LuaType::TypeGuard(_))
    }

    pub fn is_multi_line_union(&self) -> (r: bool)
        ensures
            r == (self@ is MultiLineUnion),
    {
        matches!(self, LuaType::MultiLineUnion(_))
    }

    pub fn is_module_ref(&self) -> (r: bool)
        ensures
            r == (self@ is ModuleRef),
    {
        matches!(self, LuaType::ModuleRef(_))
    }

    #[verifier::loop_isolation(false)]
    pub fn is_nullable(&self) -> (r: bool)
        ensures
            r == ty_is_nullable(self@),
        decreases self,
    {
        match self {
            LuaType::Nil => true,
            LuaType::Union(u) => u.is_nullable(),
            LuaType::MultiLineUnion(u) => u.is_nullable(),
            _ => false,
        }
    }

    #[verifier::loop_isolation(false)]
    pub fn is_optional(&self) -> (r: bool)
        ensures
            r == ty_is_optional(self@),
        decreases self,
    {
        match self {
            LuaType::Nil | LuaType::Any | LuaType::Unknown => true,
            LuaType::Union(u) => u.is_optional(),
            LuaType::MultiLineUnion(u) => u.is_optional(),
            LuaType::Variadic(_) => true,
            _ => false,
        }
    }

    #[verifier::loop_isolation(false)]
    pub fn is_always_truthy(&self) -> (r: bool)
        ensures
            r == ty_is_always_truthy(self@),
        decreases self,
    {
        match self {
            LuaType::Nil | LuaType::Boolean | LuaType::Any | LuaType::Unknown => false,
            LuaType::BooleanConst(boolean) => *boolean,
            LuaType::DocBooleanConst(boolean) => *boolean,
            LuaType::Union(u) => u.is_always_truthy(),
            LuaType::MultiLineUnion(u) => u.is_always_truthy(),
            LuaType::TypeGuard(_) => false,
            _ => true,
        }
    }

    #[verifier::loop_isolation(false)]
    pub fn is_always_falsy(&self) -> (r: bool)
        ensures
            r == ty_is_always_falsy(self@),
        decreases self,
    {
        proof {
            reveal_with_fuel(ty_is_always_falsy, 3);
        }
        match self {
            LuaType::Nil => true,
            LuaType::BooleanConst(boolean) => !*boolean,
            LuaType::DocBooleanConst(boolean) => !*boolean,
            LuaType::Union(u) => u.is_always_falsy(),
            LuaType::MultiLineUnion(u) => u.is_always_falsy(),
            _ => false,
        }
    }

    pub fn contain_multi_return(&self) -> (r: bool)
        ensures
            r == ty_contains_multi_return(self@),
        decreases self,
    {
        match self {
            LuaType::Variadic(_) => true,
            LuaType::Union(union) => union_contains_multi_return(union),
            _ => false,
        }
    }

    /// The type of the value at place `idx` of what an expression of this type yields.
    #[verifier::loop_isolation(false)]
    pub fn get_result_slot_type(&self, idx: usize) -> (r: Option<LuaType>)
        ensures
            types::opt_ty(r) == result_slot(self@, idx as nat),
        decreases self,
    {
        match self {
            LuaType::Variadic(variadic) => match &**variadic {
                VariadicType::Base(base) => Some(base.clone()),
                VariadicType::Multi(types) => {
                    if types.len() == 0 {
                        return None;
                    }
                    let last_idx = types.len() - 1;
                    assert(variadic@ == VariadicTy::Multi(types::tys(types@)));
                    if idx < last_idx {
                        assert(types::tys(types@)[idx as int] == types@[idx as int]@);
                        return types[idx].get_result_slot_type(0);
                    }
                    assert(types::tys(types@)[last_idx as int] == types@[last_idx as int]@);
                    types[last_idx].get_result_slot_type(idx - last_idx)
                },
            },
            LuaType::Union(union) => {
                if idx == 0 && !union_contains_multi_return(union) {
                    return Some(self.clone());
                }
                match &**union {
                    LuaUnionType::Basic(_) => {
                        // A union of types without parts yields something at the first place only.
                        if idx > 0 {
                            return None;
                        }
                        assert(!ty_contains_multi_return(self@));
                        None
                    },
                    LuaUnionType::Nullable(t) => {
                        let slot = t.get_result_slot_type(idx);
                        let mut slots: Vec<Option<LuaType>> = Vec::new();
                        slots.push(slot);
                        if idx == 0 {
                            slots.push(Some(LuaType::Nil));
                        } else {
                            slots.push(None);
                        }
                        assert(opt_tys(slots@) =~= seq![
                            result_slot(t@, idx as nat),
                            if idx == 0 {
                                Some(Ty::Nil)
                            } else {
                                None
                            },
                        ]);
                        join_slots(slots)
                    },
                    LuaUnionType::Multi(members) => {
                        let types = &members.types;
                        let ghost all = types::tys(types@);
                        assert(union@ == UnionTy::Multi(all));
                        let mut slots: Vec<Option<LuaType>> = Vec::new();
                        let mut i: usize = 0;
                        while i < types.len()
                            invariant
                                i <= types@.len(),
                                all == types::tys(types@),
                                self@ == Ty::Union(Box::new(UnionTy::Multi(all))),
                                slots@.len() == i,
                                forall|j: int|
                                    0 <= j < i ==> types::opt_ty(#[trigger] slots@[j]) == result_slot(
                                        all[j],
                                        idx as nat,
                                    ),
                            decreases types@.len() - i,
                        {
                            assert(all[i as int] == types@[i as int]@);
                            slots.push(types[i].get_result_slot_type(idx));
                            i += 1;
                        }
                        assert(opt_tys(slots@) =~= result_slots(all, idx as nat));
                        join_slots(slots)
                    },
                }
            },
            _ => if idx == 0 {
                Some(self.clone())
            } else {
                None
            },
        }
    }

    /// The type of a value that is of one of the given types.
    pub fn from_vec(types: Vec<LuaType>) -> (r: Self)
        ensures
            r@ == ty_from_list(types::tys(types@)),
    {
        let ghost all = types::tys(types@);
        if types.len() == 0 {
            return LuaType::Nil;
        }
        if types.len() == 1 {
            assert(all[0] == types@[0]@);
            return types[0].clone();
        }
        let mut result_types: Vec<LuaType> = Vec::new();
        let mut i: usize = 0;
        proof {
            assert(all.take(0) =~= Seq::<Ty>::empty());
            assert(types::tys(result_types@) =~= Seq::<Ty>::empty());
        }
        while i < types.len()
            invariant
                i <= types@.len(),
                all == types::tys(types@),
                types::tys(result_types@) == append_new(Seq::empty(), flat_members(all.take(i as int))),
            decreases types@.len() - i,
        {
            proof {
                assert(all.take(i + 1).drop_last() =~= all.take(i as int));
                assert(all.take(i + 1).last() == all[i as int]);
                assert(all[i as int] == types@[i as int]@);
                lemma_append_new_concat(
                    Seq::empty(),
                    flat_members(all.take(i as int)),
                    members_of(all[i as int]),
                );
            }
            match &types[i] {
                LuaType::Union(u) => {
                    let members = u.into_vec();
                    result_types = push_new_types(result_types, &members);
                },
                t => {
                    let mut members: Vec<LuaType> = Vec::new();
                    members.push(t.clone());
                    assert(types::tys(members@) =~= seq![t@]);
                    result_types = push_new_types(result_types, &members);
                },
            }
            i += 1;
        }
        proof {
            assert(all.take(i as int) =~= all);
        }
        if result_types.len() == 0 {
            return LuaType::Nil;
        }
        if result_types.len() == 1 {
            assert(types::tys(result_types@)[0] == result_types@[0]@);
            return result_types[0].clone();
        }
        LuaType::Union(Arc::new(LuaUnionType::from_vec(result_types)))
    }
}

/// Appending two lists one after the other is appending both at once.
pub proof fn lemma_append_new_concat(done: Seq<Ty>, a: Seq<Ty>, b: Seq<Ty>)
    ensures
        append_new(done, a + b) == append_new(append_new(done, a), b),
    decreases b.len(),
{
    if b.len() == 0 {
        assert(a + b =~= a);
    } else {
        assert((a + b).drop_last() =~= a + b.drop_last());
        assert((a + b).last() == b.last());
        lemma_append_new_concat(done, a, b.drop_last());
    }
}

/// Appends the types of `more` that the list does not hold yet.
pub fn push_new_types(types: Vec<LuaType>, more: &Vec<LuaType>) -> (r: Vec<LuaType>)
    ensures
        types::tys(r@) == append_new(types::tys(types@), types::tys(more@)),
{
    let ghost start = types::tys(types@);
    let ghost all = types::tys(more@);
    let mut types = types;
    let mut i: usize = 0;
    assert(all.take(0) =~= Seq::<Ty>::empty());
    while i < more.len()
        invariant
            i <= more@.len(),
            all == types::tys(more@),
            types::tys(types@) == append_new(start, all.take(i as int)),
        decreases more@.len() - i,
    {
        proof {
            assert(all.take(i + 1).drop_last() =~= all.take(i as int));
            assert(all.take(i + 1).last() == all[i as int]);
            assert(all[i as int] == more@[i as int]@);
        }
        if !super::equality::holds_same(&types, &more[i]) {
            let ghost before = types::tys(types@);
            types.push(more[i].clone());
            assert(types::tys(types@) =~= before.push(all[i as int]));
        }
        i += 1;
    }
    assert(all.take(i as int) =~= all);
    types
}

pub open spec fn opt_tys(s: Seq<Option<LuaType>>) -> Seq<Option<Ty>> {
    Seq::new(s.len(), |i: int| types::opt_ty(s[i]))
}

fn join_slots(slots: Vec<Option<LuaType>>) -> (r: Option<LuaType>)
    ensures
        types::opt_ty(r) == union_slot(opt_tys(slots@)),
{
    let ghost all = opt_tys(slots@);
    let mut found = false;
    let mut types: Vec<LuaType> = Vec::new();
    let mut i: usize = 0;
    while i < slots.len()
        invariant
            i <= slots@.len(),
            all == opt_tys(slots@),
            found == exists|j: int| 0 <= j < i && (#[trigger] all[j]) is Some,
            types@.len() == i,
            forall|j: int| 0 <= j < i ==> (#[trigger] types@[j])@ == slots_or_nil(all)[j],
        decreases slots@.len() - i,
    {
        assert(all[i as int] == types::opt_ty(slots@[i as int]));
        match &slots[i] {
            Some(t) => {
                found = true;
                types.push(t.clone());
            },
            None => {
                types.push(LuaType::Nil);
            },
        }
        i += 1;
    }
    if !found {
        return None;
    }
    assert(types::tys(types@) =~= slots_or_nil(all));
    Some(LuaType::from_vec(types))
}

/// Whether some member of a union is a run of values.
#[verifier::loop_isolation(false)]
pub fn union_contains_multi_return(union: &LuaUnionType) -> (r: bool)
    ensures
        r == ty_contains_multi_return(Ty::Union(Box::new(union@))),
    decreases union,
{
    proof {
        reveal_with_fuel(ty_contains_multi_return, 3);
    }
    match union {
        LuaUnionType::Basic(_) => false,
        LuaUnionType::Nullable(t) => t.contain_multi_return(),
        LuaUnionType::Multi(members) => {
            let types = &members.types;
            let ghost all = types::tys(types@);
            let mut i: usize = 0;
            while i < types.len()
                invariant
                    i <= types@.len(),
                    all == types::tys(types@),
                    union@ == UnionTy::Multi(all),
                    forall|j: int| 0 <= j < i ==> !ty_contains_multi_return(#[trigger] all[j]),
                decreases types@.len() - i,
            {
                assert(all[i as int] == types@[i as int]@);
                if types[i].contain_multi_return() {
                    assert(ty_contains_multi_return(all[i as int]));
                    return true;
                }
                i += 1;
            }
            false
        },
    }
}

impl LuaUnionType {
    #[verifier::loop_isolation(false)]
    pub fn is_nullable(&self) -> (r: bool)
        ensures
            r == ty_is_nullable(Ty::Union(Box::new(self@))),
        decreases self,
    {
        match self {
            LuaUnionType::Basic(basic) => basic.contains(BasicTypeKind::Nil),
            LuaUnionType::Nullable(_) => true,
            LuaUnionType::Multi(members) => {
                let types = &members.types;
                let ghost all = types::tys(types@);
                let mut i: usize = 0;
                while i < types.len()
                    invariant
                        i <= types@.len(),
                        all == types::tys(types@),
                        self@ == UnionTy::Multi(all),
                        forall|j: int| 0 <= j < i ==> !ty_is_nullable(#[trigger] all[j]),
                    decreases types@.len() - i,
                {
                    assert(all[i as int] == types@[i as int]@);
                    if types[i].is_nullable() {
                        assert(ty_is_nullable(all[i as int]));
                        return true;
                    }
                    i += 1;
                }
                false
            },
        }
    }

    #[verifier::loop_isolation(false)]
    pub fn is_optional(&self) -> (r: bool)
        ensures
            r == ty_is_optional(Ty::Union(Box::new(self@))),
        decreases self,
    {
        match self {
            LuaUnionType::Basic(basic) => basic.contains(BasicTypeKind::Nil),
            LuaUnionType::Nullable(_) => true,
            LuaUnionType::Multi(members) => {
                let types = &members.types;
                let ghost all = types::tys(types@);
                let mut i: usize = 0;
                while i < types.len()
                    invariant
                        i <= types@.len(),
                        all == types::tys(types@),
                        self@ == UnionTy::Multi(all),
                        forall|j: int| 0 <= j < i ==> !ty_is_optional(#[trigger] all[j]),
                    decreases types@.len() - i,
                {
                    assert(all[i as int] == types@[i as int]@);
                    if types[i].is_optional() {
                        assert(ty_is_optional(all[i as int]));
                        return true;
                    }
                    i += 1;
                }
                false
            },
        }
    }

    #[verifier::loop_isolation(false)]
    pub fn is_always_truthy(&self) -> (r: bool)
        ensures
            r == ty_is_always_truthy(Ty::Union(Box::new(self@))),
        decreases self,
    {
        match self {
            LuaUnionType::Basic(basic) => {
                let kinds = basic.iter_kinds();
                let mut i: usize = 0;
                while i < kinds.len()
                    invariant
                        i <= kinds@.len(),
                        forall|j: int| 0 <= j < i ==> kind_is_truthy(#[trigger] kinds@[j]),
                    decreases kinds@.len() - i,
                {
                    if matches!(
                        kinds[i],
                        BasicTypeKind::Nil | BasicTypeKind::Boolean | BasicTypeKind::Any | BasicTypeKind::Unknown
                    ) {
                        assert(!kind_is_truthy(kinds@[i as int]));
                        return false;
                    }
                    i += 1;
                }
                true
            },
            LuaUnionType::Nullable(_) => false,
            LuaUnionType::Multi(members) => {
                let types = &members.types;
                let ghost all = types::tys(types@);
                let mut i: usize = 0;
                while i < types.len()
                    invariant
                        i <= types@.len(),
                        all == types::tys(types@),
                        self@ == UnionTy::Multi(all),
                        forall|j: int| 0 <= j < i ==> ty_is_always_truthy(#[trigger] all[j]),
                    decreases types@.len() - i,
                {
                    assert(all[i as int] == types@[i as int]@);
                    if !types[i].is_always_truthy() {
                        assert(!ty_is_always_truthy(all[i as int]));
                        return false;
                    }
                    i += 1;
                }
                true
            },
        }
    }

    #[verifier::loop_isolation(false)]
    pub fn is_always_falsy(&self) -> (r: bool)
        ensures
            r == ty_is_always_falsy(Ty::Union(Box::new(self@))),
        decreases self,
    {
        proof {
            reveal_with_fuel(ty_is_always_falsy, 3);
        }
        match self {
            LuaUnionType::Basic(basic) => {
                let kinds = basic.iter_kinds();
                let mut i: usize = 0;
                while i < kinds.len()
                    invariant
                        i <= kinds@.len(),
                        forall|j: int| 0 <= j < i ==> (#[trigger] kinds@[j]) is Nil,
                    decreases kinds@.len() - i,
                {
                    if !matches!(kinds[i], BasicTypeKind::Nil) {
                        return false;
                    }
                    i += 1;
                }
                true
            },
            LuaUnionType::Nullable(t) => t.is_always_falsy(),
            LuaUnionType::Multi(members) => {
                let types = &members.types;
                let ghost all = types::tys(types@);
                let mut i: usize = 0;
                while i < types.len()
                    invariant
                        i <= types@.len(),
                        all == types::tys(types@),
                        self@ == UnionTy::Multi(all),
                        forall|j: int| 0 <= j < i ==> ty_is_always_falsy(#[trigger] all[j]),
                    decreases types@.len() - i,
                {
                    assert(all[i as int] == types@[i as int]@);
                    if !types[i].is_always_falsy() {
                        assert(!ty_is_always_falsy(all[i as int]));
                        return false;
                    }
                    i += 1;
                }
                true
            },
        }
    }
}

impl LuaMultiLineUnion {
    #[verifier::loop_isolation(false)]
    pub fn is_nullable(&self) -> (r: bool)
        ensures
            r == ty_is_nullable(Ty::MultiLineUnion(self@)),
        decreases self,
    {
        let lines = &self.unions;
        let ghost all = types::line_tys(lines@);
        let mut i: usize = 0;
        while i < lines.len()
            invariant
                i <= lines@.len(),
                all == types::line_tys(lines@),
                self@ == all,
                forall|j: int| 0 <= j < i ==> !ty_is_nullable((#[trigger] all[j]).0),
            decreases lines@.len() - i,
        {
            assert(all[i as int].0 == lines@[i as int].0@);
            if lines[i].0.is_nullable() {
                assert(ty_is_nullable(all[i as int].0));
                return true;
            }
            i += 1;
        }
        false
    }

    #[verifier::loop_isolation(false)]
    pub fn is_optional(&self) -> (r: bool)
        ensures
            r == ty_is_optional(Ty::MultiLineUnion(self@)),
        decreases self,
    {
        let lines = &self.unions;
        let ghost all = types::line_tys(lines@);
        let mut i: usize = 0;
        while i < lines.len()
            invariant
                i <= lines@.len(),
                all == types::line_tys(lines@),
                self@ == all,
                forall|j: int| 0 <= j < i ==> !ty_is_optional((#[trigger] all[j]).0),
            decreases lines@.len() - i,
        {
            assert(all[i as int].0 == lines@[i as int].0@);
            if lines[i].0.is_optional() {
                assert(ty_is_optional(all[i as int].0));
                return true;
            }
            i += 1;
        }
        false
    }

    #[verifier::loop_isolation(false)]
    pub fn is_always_truthy(&self) -> (r: bool)
        ensures
            r == ty_is_always_truthy(Ty::MultiLineUnion(self@)),
        decreases self,
    {
        let lines = &self.unions;
        let ghost all = types::line_tys(lines@);
        let mut i: usize = 0;
        while i < lines.len()
            invariant
                i <= lines@.len(),
                all == types::line_tys(lines@),
                self@ == all,
                forall|j: int| 0 <= j < i ==> ty_is_always_truthy((#[trigger] all[j]).0),
            decreases lines@.len() - i,
        {
            assert(all[i as int].0 == lines@[i as int].0@);
            if !lines[i].0.is_always_truthy() {
                assert(!ty_is_always_truthy(all[i as int].0));
                return false;
            }
            i += 1;
        }
        true
    }

    #[verifier::loop_isolation(false)]
    pub fn is_always_falsy(&self) -> (r: bool)
        ensures
            r == ty_is_always_falsy(Ty::MultiLineUnion(self@)),
        decreases self,
    {
        proof {
            reveal_with_fuel(ty_is_always_falsy, 3);
        }
        let lines = &self.unions;
        let ghost all = types::line_tys(lines@);
        let mut i: usize = 0;
        while i < lines.len()
            invariant
                i <= lines@.len(),
                all == types::line_tys(lines@),
                self@ == all,
                forall|j: int| 0 <= j < i ==> ty_is_always_falsy((#[trigger] all[j]).0),
            decreases lines@.len() - i,
        {
            assert(all[i as int].0 == lines@[i as int].0@);
            if !lines[i].0.is_always_falsy() {
                assert(!ty_is_always_falsy(all[i as int].0));
                return false;
            }
            i += 1;
        }
        true
    }
}

} // verus!
