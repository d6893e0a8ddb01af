//! Types that are compared at once.

use vstd::prelude::*;

use crate::types::{LuaType, LuaTypeDeclId, LuaUnionType, Ty, UnionTy, equality};

verus! {

/// The name of a declared type that is referred to.
pub open spec fn decl_name(t: Ty) -> Option<Seq<char>> {
    match t {
        Ty::Ref(id) => Some(id),
        Ty::Def(id) => Some(id),
        _ => None,
    }
}

pub open spec fn bool_value(t: Ty) -> Option<bool> {
    match t {
        Ty::BooleanConst(b) => Some(b),
        Ty::DocBooleanConst(b) => Some(b),
        _ => None,
    }
}

pub open spec fn string_value(t: Ty) -> Option<Seq<char>> {
    match t {
        Ty::StringConst(s) => Some(s),
        Ty::DocStringConst(s) => Some(s),
        _ => None,
    }
}

pub open spec fn integer_value(t: Ty) -> Option<i64> {
    match t {
        Ty::IntegerConst(i) => Some(i),
        Ty::DocIntegerConst(i) => Some(i),
        _ => None,
    }
}

/// A template that any type may stand for.
pub open spec fn is_free_tpl(t: Ty) -> bool {
    match t {
        Ty::TplRef(tpl) => tpl.param.constraint is None,
        _ => false,
    }
}

/// Two types that go together without a look inside them.
pub open spec fn fast_eq(source: Ty, target: Ty) -> bool {
    if decl_name(source) is Some && decl_name(target) is Some {
        decl_name(source) == decl_name(target)
    } else if source is Any || target is Any || target is Unknown || source is SelfInfer || target
        is SelfInfer {
        true
    } else if bool_value(source) is Some && bool_value(target) is Some {
        bool_value(source) == bool_value(target)
    } else if string_value(source) is Some && string_value(target) is Some {
        string_value(source) == string_value(target)
    } else if integer_value(source) is Some && integer_value(target) is Some {
        integer_value(source) == integer_value(target)
    } else if source is TplRef && target is TplRef {
        equality::ty_eq(source, target)
    } else if !(source is Conditional) && !(source is Mapped) && equality::ty_eq(source, target) {
        true
    } else if is_free_tpl(source) || is_free_tpl(target) {
        true
    } else {
        match (source, target) {
            (Ty::Ref(a), Ty::Union(u)) => *u == UnionTy::Nullable(Ty::Ref(a)),
            _ => false,
        }
    }
}

fn ref_name(t: &LuaType) -> (r: Option<&LuaTypeDeclId>)
    ensures
        (match r {
            Some(id) => Some(id@),
            None => None,
        }) == decl_name(t@),
{
    match t {
        LuaType::Ref(id) => Some(id),
        LuaType::Def(id) => Some(id),
        _ => None,
    }
}

fn const_bool(t: &LuaType) -> (r: Option<bool>)
    ensures
        r == bool_value(t@),
{
    match t {
        LuaType::BooleanConst(b) => Some(*b),
        LuaType::DocBooleanConst(b) => Some(*b),
        _ => None,
    }
}

fn const_string(t: &LuaType) -> (r: Option<&String>)
    ensures
        (match r {
            Some(s) => Some(s@),
            None => None,
        }) == string_value(t@),
{
    match t {
        LuaType::StringConst(s) => Some(s),
        LuaType::DocStringConst(s) => Some(s),
        _ => None,
    }
}

fn const_integer(t: &LuaType) -> (r: Option<i64>)
    ensures
        r == integer_value(t@),
{
    match t {
        LuaType::IntegerConst(i) => Some(*i),
        LuaType::DocIntegerConst(i) => Some(*i),
        _ => None,
    }
}

pub fn free_tpl(t: &LuaType) -> (r: bool)
    ensures
        r == is_free_tpl(t@),
{
    match t {
        LuaType::TplRef(tpl) => tpl.get_constraint().is_none(),
        _ => false,
    }
}

fn is_nullable_ref(source: &LuaType, target: &LuaType) -> (r: bool)
    ensures
        r == (match (source@, target@) {
            (Ty::Ref(a), Ty::Union(u)) => *u == UnionTy::Nullable(Ty::Ref(a)),
            _ => false,
        }),
{
    if let (LuaType::Ref(a), LuaType::Union(u)) = (source, target) {
        if let LuaUnionType::Nullable(LuaType::Ref(b)) = &**u {
            assert(u@ == UnionTy::Nullable(Ty::Ref(b@)));
            return a.same(b);
        }
        assert(u@ != UnionTy::Nullable(Ty::Ref(a@))) by {
            if let LuaUnionType::Nullable(x) = **u {
                assert(u@ == UnionTy::Nullable(x@));
            }
        }
    }
    false
}

/// Whether two types go together without a look inside them.
pub fn fast_eq_check(source: &LuaType, target: &LuaType) -> (r: bool)
    ensures
        r == fast_eq(source@, target@),
{
    if let (Some(a), Some(b)) = (ref_name(source), ref_name(target)) {
        return a.same(b);
    }
    if matches!(source, LuaType::Any | LuaType::SelfInfer) || matches!(
        target,
        LuaType::Any | LuaType::Unknown | LuaType::SelfInfer
    ) {
        return true;
    }
    if let (Some(a), Some(b)) = (const_bool(source), const_bool(target)) {
        return a == b;
    }
    if let (Some(a), Some(b)) = (const_string(source), const_string(target)) {
        return *a == *b;
    }
    if let (Some(a), Some(b)) = (const_integer(source), const_integer(target)) {
        return a == b;
    }
    if source.is_class_tpl() && target.is_class_tpl() {
        return source.same(target);
    }
    if !matches!(source, LuaType::Conditional(_) | LuaType::Mapped(_)) && source.same(target) {
        return true;
    }
    free_tpl(source) || free_tpl(target) || is_nullable_ref(source, target)
}

/// The built-in types that a source type without parts fits into.
pub open spec fn simply_related(source: Ty, target: Ty) -> bool {
    match source {
        Ty::Boolean => target is Boolean || target is BooleanConst,
        Ty::BooleanConst(_) | Ty::DocBooleanConst(_) => target is Boolean || target is BooleanConst
            || (target is DocBooleanConst && bool_value(target) == bool_value(source)),
        Ty::String => target is String || target is StringConst || target is StrTplRef || target
            is Language,
        Ty::StringConst(_) | Ty::DocStringConst(_) => target is String || target is StringConst || (
        target is DocStringConst && string_value(target) == string_value(source)) || target
            is StrTplRef || target is Language,
        Ty::StrTplRef(_) => target is String || target is StringConst || equality::ty_eq(source, target),
        Ty::Language(a) => target is String || target is StringConst || target is StrTplRef
            || target == Ty::Language(a),
        Ty::Integer => target is Integer || target is IntegerConst || target is Number || target
            is FloatConst,
        Ty::IntegerConst(_) | Ty::DocIntegerConst(_) => target is Integer || target is IntegerConst
            || target is Number || target is FloatConst || (target is DocIntegerConst
            && integer_value(target) == integer_value(source)),
        Ty::Number | Ty::FloatConst(_) => target is Number || target is FloatConst,
        Ty::Nil => target is Nil,
        Ty::Table => target is Table,
        Ty::Userdata => target is Table || target is Userdata,
        Ty::Function => target is Function,
        Ty::Thread => target is Thread,
        Ty::Io => target is Io,
        Ty::Global => target is Table || target is Global,
        Ty::Namespace(a) => target == Ty::Namespace(a),
        Ty::DocFunction(_) | Ty::Signature(_) => target is Function,
        _ => false,
    }
}

/// A source type of which the table of built-in types says all there is to say.
pub open spec fn is_simple_source(t: Ty) -> bool {
    match t {
        Ty::Boolean | Ty::BooleanConst(_) | Ty::DocBooleanConst(_) => true,
        Ty::String | Ty::StringConst(_) | Ty::DocStringConst(_) | Ty::StrTplRef(_) => true,
        Ty::Language(_) | Ty::Integer | Ty::IntegerConst(_) | Ty::DocIntegerConst(_) => true,
        Ty::Number | Ty::FloatConst(_) | Ty::Nil | Ty::Table | Ty::Userdata | Ty::Function => true,
        Ty::Thread | Ty::Io | Ty::Global | Ty::Namespace(_) => true,
        _ => false,
    }
}

pub open spec fn is_simple_target(t: Ty) -> bool {
    is_simple_source(t)
}

/// The answer that needs no look inside the types, where there is one.
#[verifier::opaque]
pub open spec fn simple_answer(source: Ty, target: Ty) -> Option<bool> {
    if fast_eq(source, target) || source is Unknown || simply_related(source, target) {
        Some(true)
    } else if is_simple_source(source) && is_simple_target(target) {
        Some(false)
    } else {
        None
    }
}

fn related_simply(source: &LuaType, target: &LuaType) -> (r: bool)
    ensures
        r == simply_related(source@, target@),
{
    match source {
        LuaType::Boolean => matches!(target, LuaType::Boolean | LuaType::BooleanConst(_)),
        LuaType::BooleanConst(_) | LuaType::DocBooleanConst(_) => matches!(
            target,
            LuaType::Boolean | LuaType::BooleanConst(_)
        ) || (matches!(target, LuaType::DocBooleanConst(_)) && const_bool(target) == const_bool(
            source,
        )),
        LuaType::String => matches!(
            target,
            LuaType::String | LuaType::StringConst(_) | LuaType::StrTplRef(_) | LuaType::Language(_)
        ),
        LuaType::StringConst(a) | LuaType::DocStringConst(a) => match target {
            LuaType::String
            | LuaType::StringConst(_)
            | LuaType::StrTplRef(_)
            | LuaType::Language(_) => true,
            LuaType::DocStringConst(b) => *a == *b,
            _ => false,
        },
        LuaType::StrTplRef(_) => matches!(target, LuaType::String | LuaType::StringConst(_))
            || source.same(target),
        LuaType::Language(a) => match target {
            LuaType::String | LuaType::StringConst(_) | LuaType::StrTplRef(_) => true,
            LuaType::Language(b) => *a == *b,
            _ => false,
        },
        LuaType::Integer => matches!(
            target,
            LuaType::Integer | LuaType::IntegerConst(_) | LuaType::Number | LuaType::FloatConst(_)
        ),
        LuaType::IntegerConst(a) | LuaType::DocIntegerConst(a) => match target {
            LuaType::Integer
            | LuaType::IntegerConst(_)
            | LuaType::Number
            | LuaType::FloatConst(_) => true,
            LuaType::DocIntegerConst(b) => *a == *b,
            _ => false,
        },
        LuaType::Number | LuaType::FloatConst(_) => matches!(
            target,
            LuaType::Number | LuaType::FloatConst(_)
        ),
        LuaType::Nil => target.is_nil(),
        LuaType::Table => matches!(target, LuaType::Table),
        LuaType::Userdata => matches!(target, LuaType::Table | LuaType::Userdata),
        LuaType::Function => matches!(target, LuaType::Function),
        LuaType::Thread => matches!(target, LuaType::Thread),
        LuaType::Io => matches!(target, LuaType::Io),
        LuaType::Global => matches!(target, LuaType::Table | LuaType::Global),
        LuaType::Namespace(a) => match target {
            LuaType::Namespace(b) => *a == *b,
            _ => false,
        },
        LuaType::DocFunction(_) | LuaType::Signature(_) => matches!(target, LuaType::Function),
        _ => false,
    }
}

fn simple_type(t: &LuaType) -> (r: bool)
    ensures
        r == is_simple_source(t@),
{
    matches!(
        t,
        LuaType::Boolean
        | LuaType::BooleanConst(_)
        | LuaType::DocBooleanConst(_)
        | LuaType::String
        | LuaType::StringConst(_)
        | LuaType::DocStringConst(_)
        | LuaType::StrTplRef(_)
        | LuaType::Language(_)
        | LuaType::Integer
        | LuaType::IntegerConst(_)
        | LuaType::DocIntegerConst(_)
        | LuaType::Number
        | LuaType::FloatConst(_)
        | LuaType::Nil
        | LuaType::Table
        | LuaType::Userdata
        | LuaType::Function
        | LuaType::Thread
        | LuaType::Io
        | LuaType::Global
        | LuaType::Namespace(_)
    )
}

/// The answer that needs no look inside the types, where there is one.
pub fn is_simple_assignable(source: &LuaType, target: &LuaType) -> (r: Option<bool>)
    ensures
        r == simple_answer(source@, target@),
{
    proof {
        reveal(simple_answer);
    }
    if fast_eq_check(source, target) || source.is_unknown() || related_simply(source, target) {
        return Some(true);
    }
    if simple_type(source) && simple_type(target) {
        return Some(false);
    }
    None
}

/// Every type fits where anything is allowed, and an unknown value fits everywhere.
pub proof fn anything_fits_any(t: Ty)
    ensures
        simple_answer(t, Ty::Any) == Some(true),
        simple_answer(Ty::Any, t) == Some(true),
        simple_answer(t, Ty::Unknown) == Some(true),
        simple_answer(Ty::Unknown, t) == Some(true),
{
    reveal(simple_answer);
}

/// A type without parts fits where the same type is wanted.
pub proof fn simple_type_fits_itself(t: Ty)
    requires
        is_simple_source(t),
        !(t is StrTplRef),
    ensures
        simple_answer(t, t) == Some(true),
{
    reveal(simple_answer);
}

} // verus!
