//! What a type stands for.

use std::sync::Arc;
use vstd::prelude::*;

use crate::{db, types};
use crate::db::{DbIndex, DbTy};
use crate::generic::substitutor::{TypeSubstitutor, instantiate_type_generic};
use crate::types::{
    BasicTypeKind, CallTy, GenericTpl, KeyTy, LuaAliasCallKind, LuaAliasCallType, LuaMemberKey,
    LuaType, LuaTypeDeclId, LuaUnionType, TplTy, Ty, UnionTy, complex, equality, predicates,
    traverse,
};

verus! {

/// The key that a literal type stands for.
pub open spec fn literal_key(t: Ty) -> Option<KeyTy> {
    match t {
        Ty::DocStringConst(s) => Some(KeyTy::Name(s)),
        Ty::StringConst(s) => Some(KeyTy::Name(s)),
        Ty::DocIntegerConst(i) => Some(KeyTy::Integer(i)),
        Ty::IntegerConst(i) => Some(KeyTy::Integer(i)),
        _ => None,
    }
}

pub fn key_type_to_member_key(t: &LuaType) -> (r: Option<LuaMemberKey>)
    ensures
        (match r {
            Some(key) => Some(key@),
            None => None,
        }) == literal_key(t@),
{
    match t {
        LuaType::DocStringConst(s) => Some(LuaMemberKey::Name(s.clone())),
        LuaType::StringConst(s) => Some(LuaMemberKey::Name(s.clone())),
        LuaType::DocIntegerConst(i) => Some(LuaMemberKey::Integer(*i)),
        LuaType::IntegerConst(i) => Some(LuaMemberKey::Integer(*i)),
        _ => None,
    }
}

// ----------------------------------------------------------------------------
// Normal forms.

/// A template that is its own bound.
pub open spec fn is_circular(tpl: TplTy) -> bool {
    match tpl.param.constraint {
        Some(Ty::TplRef(inner)) => inner.tpl_id == tpl.tpl_id,
        _ => false,
    }
}

pub open spec fn is_naming_call(call: CallTy) -> bool {
    call.call_kind is Index || call.call_kind is RawGet || call.call_kind is KeyOf
}

/// The type that a type stands for, where it stands for another one. Generic types stay as they
/// are.
#[verifier::opaque]
pub open spec fn normalized(db: DbTy, t: Ty) -> Option<Ty> {
    match t {
        Ty::TplRef(tpl) => match tpl.param.constraint {
            Some(constraint) => if is_circular(*tpl) || equality::ty_eq(constraint, t) {
                None
            } else {
                Some(constraint)
            },
            None => None,
        },
        Ty::Ref(id) => match db::decl_of(db, id) {
            Some(decl) => if decl.kind is Alias {
                decl.alias_ref
            } else {
                None
            },
            None => None,
        },
        Ty::Call(call) => {
            let resolved = db::evaluated(db, t, Seq::empty());
            if is_naming_call(*call) && !traverse::holds_tpl(traverse::preorder(t))
                && !equality::ty_eq(resolved, t) {
                Some(resolved)
            } else {
                None
            }
        },
        Ty::Instance(instance) => Some(instance.base),
        Ty::MultiLineUnion(lines) => Some(complex::lines_union(lines)),
        Ty::TypeGuard(_) => Some(Ty::Boolean),
        Ty::ModuleRef(file) => db::export_of(db, file),
        _ => None,
    }
}

pub fn is_circular_tpl_constraint(tpl: &GenericTpl) -> (r: bool)
    ensures
        r == is_circular(tpl@),
{
    match tpl.get_constraint() {
        Some(LuaType::TplRef(inner)) => inner.get_tpl_id() == tpl.get_tpl_id(),
        _ => false,
    }
}

fn clone_ref(t: Option<&LuaType>) -> (r: Option<LuaType>)
    ensures
        types::opt_ty(r) == complex::opt_ref_ty(t),
{
    match t {
        Some(t) => Some(t.clone()),
        None => None,
    }
}

fn normalize_tpl(tpl: &GenericTpl, t: &LuaType) -> (r: Option<LuaType>)
    requires
        t@ == Ty::TplRef(Box::new(tpl@)),
    ensures
        types::opt_ty(r) == (match tpl@.param.constraint {
            Some(constraint) => if is_circular(tpl@) || equality::ty_eq(constraint, t@) {
                None
            } else {
                Some(constraint)
            },
            None => None,
        }),
{
    if is_circular_tpl_constraint(tpl) {
        return None;
    }
    match tpl.get_constraint() {
        Some(constraint) => if constraint.same(t) {
            None
        } else {
            Some(constraint.clone())
        },
        None => None,
    }
}

fn normalize_ref(db: &DbIndex, id: &LuaTypeDeclId) -> (r: Option<LuaType>)
    ensures
        types::opt_ty(r) == normalized(db@, Ty::Ref(id@)),
{
    proof {
        reveal(normalized);
    }
    match db.get_type_decl(id) {
        Some(decl) => if decl.is_alias() {
            clone_ref(decl.get_alias_ref())
        } else {
            None
        },
        None => None,
    }
}

fn normalize_call(db: &DbIndex, call: &Arc<LuaAliasCallType>, t: &LuaType) -> (r: Option<LuaType>)
    requires
        t@ == Ty::Call(Box::new(call@)),
    ensures
        types::opt_ty(r) == normalized(db@, t@),
    decreases db@.room, 2nat,
{
    proof {
        reveal(normalized);
    }
    if matches!(
        call.get_call_kind(),
        LuaAliasCallKind::Index | LuaAliasCallKind::RawGet | LuaAliasCallKind::KeyOf
    ) && !t.contain_tpl() {
        let resolved = instantiate_type_generic(db, t, &TypeSubstitutor::new());
        if !resolved.same(t) {
            return Some(resolved);
        }
    }
    None
}

/// The type that a type stands for, where it stands for another one.
pub fn normalize_type(db: &DbIndex, typ: &LuaType) -> (r: Option<LuaType>)
    ensures
        types::opt_ty(r) == normalized(db@, typ@),
    decreases db@.room, 3nat,
{
    proof {
        reveal(normalized);
    }
    match typ {
        LuaType::TplRef(tpl) => normalize_tpl(tpl, typ),
        LuaType::Ref(id) => normalize_ref(db, id),
        LuaType::Call(call) => normalize_call(db, call, typ),
        LuaType::Instance(instance) => Some(instance.get_base().clone()),
        LuaType::MultiLineUnion(union) => Some(union.to_union()),
        LuaType::TypeGuard(_) => Some(LuaType::Boolean),
        LuaType::ModuleRef(file_id) => clone_ref(db.get_export_type(*file_id)),
        _ => None,
    }
}

// ----------------------------------------------------------------------------
// Values that may be left out.

/// A value of the type may be left out, as far as `room` steps into aliases, unions and bounds show.
pub open spec fn may_be_omitted(db: DbTy, t: Ty, room: nat) -> bool
    decreases room, 0nat,
{
    if room == 0 {
        false
    } else {
        let next = (room - 1) as nat;
        match t {
            Ty::Nil | Ty::Any | Ty::Unknown | Ty::Variadic(_) => true,
            Ty::Union(u) => match *u {
                UnionTy::Basic(kinds) => kinds.contains(BasicTypeKind::Nil),
                UnionTy::Nullable(_) => true,
                UnionTy::Multi(types) => any_may_be_omitted(db, types, next),
            },
            Ty::MultiLineUnion(lines) => any_line_may_be_omitted(db, lines, next),
            Ty::Ref(id) => alias_may_be_omitted(db, id, next),
            Ty::Def(id) => alias_may_be_omitted(db, id, next),
            Ty::Generic(g) => alias_may_be_omitted(db, g.base, next),
            Ty::Instance(instance) => may_be_omitted(db, instance.base, next),
            Ty::TplRef(tpl) => match tpl.param.constraint {
                Some(constraint) => !equality::ty_eq(constraint, t) && may_be_omitted(db, constraint, next),
                None => false,
            },
            _ => false,
        }
    }
}

pub open spec fn any_may_be_omitted(db: DbTy, types: Seq<Ty>, room: nat) -> bool
    decreases room, 1nat,
{
    exists|i: int| 0 <= i < types.len() && may_be_omitted(db, #[trigger] types[i], room)
}

pub open spec fn any_line_may_be_omitted(
    db: DbTy,
    lines: Seq<(Ty, Option<Seq<char>>)>,
    room: nat,
) -> bool
    decreases room, 1nat,
{
    exists|i: int| 0 <= i < lines.len() && may_be_omitted(db, (#[trigger] lines[i]).0, room)
}

pub open spec fn alias_may_be_omitted(db: DbTy, id: Seq<char>, room: nat) -> bool
    decreases room, 1nat,
{
    match db::decl_of(db, id) {
        Some(decl) => match decl.alias_ref {
            Some(origin) => may_be_omitted(db, origin, room),
            None => false,
        },
        None => false,
    }
}

/// A value of the type may be left out.
#[verifier::opaque]
pub open spec fn omittable(db: DbTy, t: Ty) -> bool {
    may_be_omitted(db, t, 9)
}

/// Whether a value of the type may be left out. A type that hides it too deep counts as one that
/// may not.
pub fn is_optional(db: &DbIndex, typ: &LuaType) -> (r: bool)
    ensures
        r == omittable(db@, typ@),
{
    proof {
        reveal(omittable);
    }
    is_optional_inner(db, typ, 0)
}

fn is_optional_inner(db: &DbIndex, typ: &LuaType, depth: usize) -> (r: bool)
    requires
        depth <= 9,
    ensures
        r == may_be_omitted(db@, typ@, (9 - depth) as nat),
    decreases 9 - depth, 1nat,
{
    if depth > 8 {
        return false;
    }
    match typ {
        LuaType::Nil => true,
        LuaType::Any => true,
        LuaType::Unknown => true,
        LuaType::Variadic(variadic) => {
            assert(typ@ == Ty::Variadic(Box::new(variadic@)));
            true
        },
        LuaType::Union(union) => match &**union {
            LuaUnionType::Basic(basic) => {
                assert(union@ == UnionTy::Basic(basic@));
                basic.contains(BasicTypeKind::Nil)
            },
            LuaUnionType::Nullable(x) => {
                assert(union@ == UnionTy::Nullable(x@));
                true
            },
            LuaUnionType::Multi(members) => {
                assert(union@ == UnionTy::Multi(members@));
                assert(members@ == types::tys(members.types@));
                let r = any_member_omittable(db, &members.types, depth + 1);
                assert(r == may_be_omitted(db@, typ@, (9 - depth) as nat));
                r
            },
        },
        LuaType::MultiLineUnion(union) => {
            assert(union@ == types::line_tys(union.unions@));
            any_line_omittable(db, &union.unions, depth + 1)
        },
        LuaType::Ref(id) => is_optional_alias(db, id, depth + 1),
        LuaType::Def(id) => is_optional_alias(db, id, depth + 1),
        LuaType::Generic(generic) => is_optional_alias(
            db,
            generic.get_base_type_id_ref(),
            depth + 1,
        ),
        LuaType::Instance(instance) => is_optional_inner(db, instance.get_base(), depth + 1),
        LuaType::TplRef(tpl) => match tpl.get_constraint() {
            Some(constraint) => !constraint.same(typ) && is_optional_inner(
                db,
                constraint,
                depth + 1,
            ),
            None => false,
        },
        _ => false,
    }
}

fn is_optional_alias(db: &DbIndex, id: &LuaTypeDeclId, depth: usize) -> (r: bool)
    requires
        depth <= 9,
    ensures
        r == alias_may_be_omitted(db@, id@, (9 - depth) as nat),
    decreases 9 - depth, 2nat,
{
    match db.get_type_decl(id) {
        Some(decl) => match decl.get_alias_ref() {
            Some(origin) => is_optional_inner(db, origin, depth),
            None => false,
        },
        None => false,
    }
}

fn any_member_omittable(db: &DbIndex, types: &Vec<LuaType>, depth: usize) -> (r: bool)
    requires
        depth <= 9,
    ensures
        r == any_may_be_omitted(db@, types::tys(types@), (9 - depth) as nat),
    decreases 9 - depth, 2nat,
{
    let ghost all = types::tys(types@);
    let mut i: usize = 0;
    while i < types.len()
        invariant
            i <= types@.len(),
            depth <= 9,
            all == types::tys(types@),
            forall|j: int|
                0 <= j < i ==> !may_be_omitted(db@, #[trigger] all[j], (9 - depth) as nat),
        decreases types@.len() - i,
    {
        assert(all[i as int] == types@[i as int]@);
        if is_optional_inner(db, &types[i], depth) {
            return true;
        }
        i += 1;
    }
    false
}

fn any_line_omittable(db: &DbIndex, lines: &Vec<(LuaType, Option<String>)>, depth: usize) -> (r: bool)
    requires
        depth <= 9,
    ensures
        r == any_line_may_be_omitted(db@, types::line_tys(lines@), (9 - depth) as nat),
    decreases 9 - depth, 2nat,
{
    let ghost all = types::line_tys(lines@);
    let mut i: usize = 0;
    while i < lines.len()
        invariant
            i <= lines@.len(),
            depth <= 9,
            all == types::line_tys(lines@),
            forall|j: int|
                0 <= j < i ==> !may_be_omitted(db@, (#[trigger] all[j]).0, (9 - depth) as nat),
        decreases lines@.len() - i,
    {
        assert(all[i as int].0 == lines@[i as int].0@);
        if is_optional_inner(db, &lines[i].0, depth) {
            return true;
        }
        i += 1;
    }
    false
}

/// The element type of an array as what an index into it yields.
#[verifier::opaque]
pub open spec fn array_slot(db: DbTy, base: Ty) -> Ty {
    if !db.strict_array_index || predicates::ty_is_optional(base) {
        base
    } else {
        Ty::Union(Box::new(UnionTy::Nullable(base)))
    }
}

pub fn effective_array_base(db: &DbIndex, base: &LuaType) -> (r: LuaType)
    ensures
        r@ == array_slot(db@, base@),
{
    proof {
        reveal(array_slot);
    }
    if !db.is_strict_array_index() || base.is_optional() {
        base.clone()
    } else {
        let union = LuaUnionType::Nullable(base.clone());
        assert(union@ == UnionTy::Nullable(base@));
        LuaType::Union(Arc::new(union))
    }
}

} // verus!
