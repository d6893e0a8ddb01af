//! Comparing with declared types.

use std::sync::Arc;
use vstd::prelude::*;

use crate::{db, types};
use crate::db::{DbIndex, DbTy, DeclTy, LuaDeclKind, LuaTypeDecl, get_base_type_id, is_sub_type_of};
use crate::type_check::{callable_types, relation, simple};
use crate::type_check::callable_types::complete_type_generic_args_in_type;
use crate::type_check::relation::{
    IntersectionState, Rel, RelScope, RelState, Relater, RelationResult,
};
use crate::type_check::structured::{array, dispatch, member, tuple};
use crate::type_check::structured::array::relate_array_to_declared_target;
use crate::type_check::structured::dispatch::{apply_args, declared_source_id};
use crate::type_check::structured::member::relate_members;
use crate::type_check::structured::tuple::relate_tuple_to_declared_target;
use crate::types::{GenericTy, LuaGenericType, LuaType, LuaTypeDeclId, Ty, complex, equality};
use crate::types::equality::holds_same;

verus! {

/// The type that an alias stands for, with its arguments filled in.
#[verifier::opaque]
pub open spec fn alias_origin(db: DbTy, decl: DeclTy, t: Ty) -> Option<Ty> {
    match decl.alias_ref {
        Some(origin) => Some(
            match t {
                Ty::Generic(g) => dispatch::applied(db, origin, g.params),
                _ => origin,
            },
        ),
        None => None,
    }
}

/// The type is the other one, or a member of it.
#[verifier::opaque]
pub open spec fn lists_type(origin: Ty, t: Ty) -> bool {
    match origin {
        Ty::Union(u) => equality::holds_ty(complex::union_tys(*u), t),
        _ => equality::ty_eq(origin, t),
    }
}

#[verifier::opaque]
pub open spec fn all_integer_values(t: Ty) -> bool {
    match t {
        Ty::Union(u) => all_integers(complex::union_tys(*u)),
        _ => false,
    }
}

pub open spec fn all_integers(types: Seq<Ty>) -> bool {
    forall|i: int|
        0 <= i < types.len() ==> (#[trigger] types[i] is DocIntegerConst || types[i] is IntegerConst)
}

pub open spec fn is_class_shaped(t: Ty) -> bool {
    dispatch::is_declared(t) || t is Userdata || t is Thread || t is Global || dispatch::is_structural_target(t)
        || t is Intersection
}

/// A declared target: an alias is what it stands for, an enumeration is its values, a class goes by
/// its members.
pub open spec fn rel_declared_target(
    c: RelScope,
    st: RelState,
    source: Ty,
    target: Ty,
    state: IntersectionState,
) -> Option<Rel>
    decreases relation::levels(c), 70nat, 0nat,
{
    match dispatch::source_name(target) {
        None => None,
        Some(id) => match db::decl_of(c.db, id) {
            None => Some(relation::rel_fail(c, st, relation::misfit(source, target))),
            Some(decl) => match decl.kind {
                LuaDeclKind::Alias => match alias_origin(c.db, decl, target) {
                    None => Some(relation::rel_fail(c, st, relation::misfit(source, target))),
                    Some(origin) => if lists_type(origin, source) {
                        Some(relation::rel_ok(st))
                    } else {
                        Some(relation::rel_types(c, st, source, origin, state))
                    },
                },
                LuaDeclKind::Enum => match decl.enum_fields {
                    None => Some(relation::rel_fail(c, st, relation::misfit(source, target))),
                    Some(values) => if all_integer_values(values) && source is Integer {
                        Some(relation::rel_ok(st))
                    } else {
                        Some(relation::rel_types(c, st, source, values, state))
                    },
                },
                LuaDeclKind::Class => if is_class_shaped(source) {
                    Some(rel_class_target(c, st, source, target, id, state))
                } else {
                    None
                },
            },
        },
    }
}

pub open spec fn rel_class_target(
    c: RelScope,
    st: RelState,
    source: Ty,
    target: Ty,
    target_id: Seq<char>,
    state: IntersectionState,
) -> Rel
    decreases relation::levels(c), 69nat, 0nat,
{
    match source {
        Ty::Table | Ty::Global => relation::rel_ok(st),
        Ty::Ref(id) => rel_class_class(c, st, source, id, target, state),
        Ty::Def(id) => rel_class_class(c, st, source, id, target, state),
        Ty::Generic(g) => if simple::decl_name(target) == Some(g.base) {
            relation::rel_ok(st)
        } else {
            member::rel_members(c, st, source, target, state)
        },
        Ty::Thread | Ty::Userdata => match db::base_type_name(source) {
            Some(base) => if db::inherits(c.db, target_id, base, c.db.type_decls.len()) {
                relation::rel_ok(st)
            } else {
                relation::rel_fail(c, st, relation::misfit(source, target))
            },
            None => relation::rel_fail(c, st, relation::misfit(source, target)),
        },
        Ty::Array(a) => array::rel_array_class(c, st, source, target, *a, state),
        Ty::Tuple(x) => tuple::rel_tuple_class(c, st, source, target, x.types, state),
        Ty::TableConst(_) | Ty::Object(_) | Ty::TableGeneric(_) | Ty::Intersection(_) =>
            member::rel_members(c, st, source, target, state),
        _ => relation::rel_ok(st),
    }
}

pub open spec fn rel_class_class(
    c: RelScope,
    st: RelState,
    source: Ty,
    id: Seq<char>,
    target: Ty,
    state: IntersectionState,
) -> Rel
    decreases relation::levels(c), 68nat, 0nat,
{
    match target {
        Ty::Generic(g) => rel_class_generic(c, st, source, id, target, *g, state),
        _ => if simple::decl_name(target) == Some(id) {
            relation::rel_ok(st)
        } else {
            member::rel_members(c, st, source, target, state)
        },
    }
}

#[verifier::opaque]
pub open spec fn all_open_args(params: Seq<Ty>) -> bool {
    forall|i: int|
        0 <= i < params.len() ==> (#[trigger] params[i] is Any || params[i] is TplRef
            || params[i] is StrTplRef)
}

/// A class without arguments as an applied generic type: its default arguments are filled in; of the
/// same class without any, only open arguments are fit.
pub open spec fn rel_class_generic(
    c: RelScope,
    st: RelState,
    source: Ty,
    id: Seq<char>,
    target: Ty,
    g: GenericTy,
    state: IntersectionState,
) -> Rel
    decreases relation::levels(c), 67nat, 0nat,
{
    let completed = callable_types::with_default_args(c.db, source);
    if !equality::ty_eq(completed, source) && completed is Generic {
        relation::rel_types(c, st, completed, target, state)
    } else if id == g.base {
        if all_open_args(g.params) {
            relation::rel_ok(st)
        } else {
            relation::rel_fail(c, st, relation::misfit(source, target))
        }
    } else {
        member::rel_members(c, st, source, target, state)
    }
}

pub fn get_alias_origin(db: &DbIndex, decl: &LuaTypeDecl, t: &LuaType) -> (r: Option<LuaType>)
    ensures
        types::opt_ty(r) == alias_origin(db@, decl@, t@),
    decreases db@.room, 3nat,
{
    proof {
        reveal(alias_origin);
    }
    match decl.get_alias_ref() {
        Some(origin) => match t {
            LuaType::Generic(generic) => {
                assert(generic@.params == types::tys(generic.params@));
                Some(apply_args(db, origin, &generic.params))
            },
            _ => Some(origin.clone()),
        },
        None => None,
    }
}

fn origin_contains(origin: &LuaType, t: &LuaType) -> (r: bool)
    ensures
        r == lists_type(origin@, t@),
{
    proof {
        reveal(lists_type);
    }
    match origin {
        LuaType::Union(union) => {
            let types = union.into_vec();
            holds_same(&types, t)
        },
        _ => origin.same(t),
    }
}

#[verifier::loop_isolation(false)]
pub fn is_integer_enum(values: &LuaType) -> (r: bool)
    ensures
        r == all_integer_values(values@),
{
    proof {
        reveal(all_integer_values);
    }
    if let LuaType::Union(union) = values {
        let types = union.into_vec();
        let ghost all = types::tys(types@);
        let mut i: usize = 0;
        while i < types.len()
            invariant
                i <= types@.len(),
                all == types::tys(types@),
                values@ matches Ty::Union(u) && complex::union_tys(*u) == all,
                forall|j: int|
                    0 <= j < i ==> (#[trigger] all[j] is DocIntegerConst || all[j] is IntegerConst),
            decreases types@.len() - i,
        {
            assert(all[i as int] == types@[i as int]@);
            if !matches!(types[i], LuaType::DocIntegerConst(_) | LuaType::IntegerConst(_)) {
                return false;
            }
            i += 1;
        }
        true
    } else {
        false
    }
}

fn has_class_shape(t: &LuaType) -> (r: bool)
    ensures
        r == is_class_shaped(t@),
{
    matches!(
        t,
        LuaType::Ref(_) | LuaType::Def(_) | LuaType::Generic(_) | LuaType::Userdata
            | LuaType::Thread | LuaType::Global | LuaType::Table | LuaType::Array(_)
            | LuaType::Tuple(_) | LuaType::TableConst(_) | LuaType::Object(_)
            | LuaType::TableGeneric(_) | LuaType::Intersection(_)
    )
}

pub fn relate_to_declared_target(
    relater: &mut Relater,
    source: &LuaType,
    target: &LuaType,
    intersection_state: IntersectionState,
) -> (r: Option<RelationResult>)
    ensures
        final(relater).may_have_done(
            *old(relater),
            relation::rel_opt(
                old(relater).state(),
                rel_declared_target(
                old(relater).scope(),
                old(relater).state(),
                source@,
                target@,
                intersection_state,
            ),
            ),
            r,
        ),
    decreases old(relater).scope().db.room, 12nat, old(relater).room_left(), 70nat, 0nat,
{
    let target_id = match declared_source_id(target) {
        Some(id) => id,
        None => {
            return None;
        },
    };
    let db = relater.db();
    let target_decl = match db.get_type_decl(target_id) {
        Some(decl) => decl,
        None => {
            return Some(relater.fail_types(source, target));
        },
    };
    if target_decl.is_alias() {
        return match get_alias_origin(relater.db(), target_decl, target) {
            Some(origin_type) => {
                if origin_contains(&origin_type, source) {
                    return Some(Ok(()));
                }
                Some(relater.relate(source, &origin_type, intersection_state))
            },
            None => Some(relater.fail_types(source, target)),
        };
    }
    if target_decl.is_enum() {
        return match &target_decl.enum_fields {
            Some(enum_fields) => {
                if is_integer_enum(enum_fields) && matches!(source, LuaType::Integer) {
                    return Some(Ok(()));
                }
                Some(relater.relate(source, enum_fields, intersection_state))
            },
            None => Some(relater.fail_types(source, target)),
        };
    }
    if !has_class_shape(source) {
        return None;
    }
    Some(relate_to_class_target(relater, source, target, target_id, intersection_state))
}

fn relate_to_class_target(
    relater: &mut Relater,
    source: &LuaType,
    target: &LuaType,
    target_id: &LuaTypeDeclId,
    intersection_state: IntersectionState,
) -> (r: RelationResult)
    ensures
        final(relater).did(
            *old(relater),
            rel_class_target(
                old(relater).scope(),
                old(relater).state(),
                source@,
                target@,
                target_id@,
                intersection_state,
            ),
            r,
        ),
    decreases old(relater).scope().db.room, 12nat, old(relater).room_left(), 69nat, 0nat,
{
    match source {
        LuaType::Table | LuaType::Global => Ok(()),
        LuaType::Ref(source_id) => relate_class_to_class(
            relater,
            source,
            source_id,
            target,
            intersection_state,
        ),
        LuaType::Def(source_id) => relate_class_to_class(
            relater,
            source,
            source_id,
            target,
            intersection_state,
        ),
        LuaType::Generic(source_generic) => {
            if is_same_decl(target, source_generic.get_base_type_id_ref()) {
                Ok(())
            } else {
                relate_members(relater, source, target, intersection_state)
            }
        },
        LuaType::Thread | LuaType::Userdata => match get_base_type_id(source) {
            Some(base_id) => if is_sub_type_of(relater.db(), target_id, &base_id) {
                Ok(())
            } else {
                relater.fail_types(source, target)
            },
            None => relater.fail_types(source, target),
        },
        LuaType::Array(source_array) => relate_array_to_declared_target(
            relater,
            source,
            target,
            source_array,
            intersection_state,
        ),
        LuaType::Tuple(source_tuple) => relate_tuple_to_declared_target(
            relater,
            source,
            target,
            source_tuple,
            intersection_state,
        ),
        LuaType::TableConst(_)
        | LuaType::Object(_)
        | LuaType::TableGeneric(_)
        | LuaType::Intersection(_) => relate_members(relater, source, target, intersection_state),
        _ => Ok(()),
    }
}

pub fn is_same_decl(target: &LuaType, source_id: &LuaTypeDeclId) -> (r: bool)
    ensures
        r == (simple::decl_name(target@) == Some(source_id@)),
{
    match target {
        LuaType::Ref(id) => id.same(source_id),
        LuaType::Def(id) => id.same(source_id),
        _ => false,
    }
}

fn relate_class_to_class(
    relater: &mut Relater,
    source: &LuaType,
    source_id: &LuaTypeDeclId,
    target: &LuaType,
    intersection_state: IntersectionState,
) -> (r: RelationResult)
    ensures
        final(relater).did(
            *old(relater),
            rel_class_class(
                old(relater).scope(),
                old(relater).state(),
                source@,
                source_id@,
                target@,
                intersection_state,
            ),
            r,
        ),
    decreases old(relater).scope().db.room, 12nat, old(relater).room_left(), 68nat, 0nat,
{
    if let LuaType::Generic(target_generic) = target {
        return relate_class_to_generic_target(
            relater,
            source,
            source_id,
            target,
            target_generic,
            intersection_state,
        );
    }
    if is_same_decl(target, source_id) {
        return Ok(());
    }
    relate_members(relater, source, target, intersection_state)
}

#[verifier::loop_isolation(false)]
fn has_open_args(params: &Vec<LuaType>) -> (r: bool)
    ensures
        r == all_open_args(types::tys(params@)),
{
    proof {
        reveal(all_open_args);
    }
    let ghost all = types::tys(params@);
    let mut i: usize = 0;
    while i < params.len()
        invariant
            i <= params@.len(),
            all == types::tys(params@),
            forall|j: int|
                0 <= j < i ==> (#[trigger] all[j] is Any || all[j] is TplRef || all[j] is StrTplRef),
        decreases params@.len() - i,
    {
        assert(all[i as int] == params@[i as int]@);
        if !matches!(params[i], LuaType::Any | LuaType::TplRef(_) | LuaType::StrTplRef(_)) {
            return false;
        }
        i += 1;
    }
    true
}

fn relate_class_to_generic_target(
    relater: &mut Relater,
    source: &LuaType,
    source_id: &LuaTypeDeclId,
    target: &LuaType,
    target_generic: &LuaGenericType,
    intersection_state: IntersectionState,
) -> (r: RelationResult)
    ensures
        final(relater).did(
            *old(relater),
            rel_class_generic(
                old(relater).scope(),
                old(relater).state(),
                source@,
                source_id@,
                target@,
                target_generic@,
                intersection_state,
            ),
            r,
        ),
    decreases old(relater).scope().db.room, 12nat, old(relater).room_left(), 67nat, 0nat,
{
    assert(target_generic@.base == target_generic.base@ && target_generic@.params == types::tys(
        target_generic.params@,
    ));
    let completed_source = complete_type_generic_args_in_type(relater.db(), source);
    if !completed_source.same(source) && matches!(completed_source, LuaType::Generic(_)) {
        return relater.relate(&completed_source, target, intersection_state);
    }
    if source_id.same(target_generic.get_base_type_id_ref()) {
        if has_open_args(&target_generic.params) {
            return Ok(());
        }
        return relater.fail_types(source, target);
    }
    relate_members(relater, source, target, intersection_state)
}

} // verus!
