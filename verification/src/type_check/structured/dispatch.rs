//! Which rule compares two structured types.

use std::sync::Arc;
use vstd::prelude::*;

use crate::{db, types};
use crate::db::{DbIndex, DbTy, DeclTy, LuaDeclKind, LuaTypeDecl, get_base_type_id};
use crate::generic::substitutor;
use crate::generic::substitutor::{TypeSubstitutor, instantiate_type_generic};
use crate::type_check::{callable, entries, normalize, relation, simple};
use crate::type_check::callable::relate_callable;
use crate::type_check::error_chain::{ChainMessage, MessageTy};
use crate::type_check::normalize::effective_array_base;
use crate::type_check::relation::{
    IntersectionState, Rel, RelMaybe, RelScope, RelState, Relater, RelationResult,
};
use crate::type_check::structured::{
    array, declared, generic, index, member, object_type, table_const, tuple,
};
use crate::type_check::structured::array::{
    relate_array_to_object, relate_array_to_tuple, relate_keyed_source_to_array,
    relate_table_generic_to_array,
};
use crate::type_check::structured::declared::{is_same_decl, relate_to_declared_target};
use crate::type_check::structured::generic::relate_same_family_generic_args;
use crate::type_check::structured::index::relate_to_table_generic;
use crate::type_check::structured::member::relate_members;
use crate::type_check::structured::object_type::relate_object_to_array;
use crate::type_check::structured::table_const::relate_table_const_to_array;
use crate::type_check::structured::tuple::{
    relate_keyed_source_to_tuple, relate_tuple_to_array, relate_tuple_to_object,
    relate_tuple_to_tuple,
};
use crate::types::{
    GenericTy, LuaArrayType, LuaGenericType, LuaObjectType, LuaTupleType, LuaType, LuaTypeDeclId,
    ObjectTy, Ty, VariadicTy, VariadicType, equality,
};

verus! {

/// Compares two types by their structure.
pub open spec fn rel_structured(
    c: RelScope,
    st: RelState,
    source: Ty,
    target: Ty,
    state: IntersectionState,
) -> RelMaybe
    decreases relation::levels(c), 74nat, 0nat,
{
    let m = rel_by_source(c, st, source, target, state);
    if m.res is Some || is_callable_type(source) {
        m
    } else if source is Table && is_structural_target(target) {
        relation::rel_some(relation::rel_ok(m.st))
    } else {
        rel_by_target(c, m.st, source, target, state)
    }
}

pub open spec fn is_callable_type(t: Ty) -> bool {
    t is Function || t is DocFunction || t is Signature
}

pub open spec fn is_structural_target(t: Ty) -> bool {
    t is Table || t is TableConst || t is Object || t is Tuple || t is Array || t is TableGeneric
}

pub open spec fn is_declared(t: Ty) -> bool {
    t is Ref || t is Def || t is Generic
}

pub open spec fn is_structural_source(t: Ty) -> bool {
    is_structural_target(t) || t is Intersection || is_declared(t)
}

/// The name of the declaration behind a source.
pub open spec fn source_name(t: Ty) -> Option<Seq<char>> {
    match t {
        Ty::Ref(id) => Some(id),
        Ty::Def(id) => Some(id),
        Ty::Generic(g) => Some(g.base),
        _ => None,
    }
}

/// What the source alone decides.
pub open spec fn rel_by_source(
    c: RelScope,
    st: RelState,
    source: Ty,
    target: Ty,
    state: IntersectionState,
) -> RelMaybe
    decreases relation::levels(c), 73nat, 0nat,
{
    match source {
        Ty::Function | Ty::DocFunction(_) | Ty::Signature(_) => relation::rel_opt(
            st,
            callable::rel_callable(c, st, source, target, state),
        ),
        Ty::Variadic(v) => relation::rel_some(rel_variadic(c, st, source, target, *v, state)),
        Ty::Ref(id) => relation::rel_opt(st, rel_declared_source(c, st, source, id, target, state)),
        Ty::Def(id) => relation::rel_opt(st, rel_declared_source(c, st, source, id, target, state)),
        Ty::Generic(g) => rel_generic_source(c, st, source, *g, target, state),
        _ => RelMaybe { st, res: None },
    }
}

/// What the target decides.
pub open spec fn rel_by_target(
    c: RelScope,
    st: RelState,
    source: Ty,
    target: Ty,
    state: IntersectionState,
) -> RelMaybe
    decreases relation::levels(c), 72nat, 0nat,
{
    match target {
        Ty::Ref(_) | Ty::Def(_) | Ty::Generic(_) => relation::rel_opt(
            st,
            declared::rel_declared_target(c, st, source, target, state),
        ),
        Ty::Function | Ty::DocFunction(_) | Ty::Signature(_) => relation::rel_opt(
            st,
            callable::rel_callable(c, st, source, target, state),
        ),
        _ => relation::rel_opt(st, rel_to_structure(c, st, source, target, state)),
    }
}

/// A target that is neither declared nor callable.
pub open spec fn rel_to_structure(
    c: RelScope,
    st: RelState,
    source: Ty,
    target: Ty,
    state: IntersectionState,
) -> Option<Rel>
    decreases relation::levels(c), 71nat, 1nat,
{
    match target {
        Ty::Object(o) => rel_to_object(c, st, source, target, *o, state),
        Ty::Tuple(x) => rel_to_tuple(c, st, source, x.types, state),
        Ty::Array(a) => rel_to_array(c, st, source, target, a.base, state),
        _ => rel_to_table(c, st, source, target, state),
    }
}

/// A table or a basic type as a target.
pub open spec fn rel_to_table(
    c: RelScope,
    st: RelState,
    source: Ty,
    target: Ty,
    state: IntersectionState,
) -> Option<Rel>
    decreases relation::levels(c), 71nat, 0nat,
{
    match target {
        Ty::TableConst(_) => if is_structural_source(source) {
            Some(member::rel_members(c, st, source, target, state))
        } else {
            None
        },
        Ty::TableGeneric(params) => if is_structural_source(source) && !(source is Intersection) {
            Some(index::rel_table_generic(c, st, source, target, params, state))
        } else {
            None
        },
        Ty::Table => if is_structural_source(source) && !(source is Intersection) {
            Some(relation::rel_ok(st))
        } else {
            None
        },
        Ty::Userdata => if is_declared(source) {
            Some(relation::rel_ok(st))
        } else {
            None
        },
        _ => rel_to_base(c, st, source, target),
    }
}

/// A declared source as one of the types that are declared as classes.
pub open spec fn rel_to_base(c: RelScope, st: RelState, source: Ty, target: Ty) -> Option<Rel> {
    match target {
        Ty::String | Ty::StringConst(_) | Ty::Integer | Ty::IntegerConst(_) => match (
            source_name(source),
            db::base_type_name(target),
        ) {
            (Some(id), Some(base)) => if id == base {
                Some(relation::rel_ok(st))
            } else {
                Some(relation::rel_fail(c, st, relation::misfit(source, target)))
            },
            _ => None,
        },
        _ => None,
    }
}

pub open spec fn rel_to_object(
    c: RelScope,
    st: RelState,
    source: Ty,
    target: Ty,
    o: ObjectTy,
    state: IntersectionState,
) -> Option<Rel>
    decreases relation::levels(c), 71nat, 0nat,
{
    match source {
        Ty::Tuple(x) => Some(tuple::rel_tuple_object(c, st, source, target, x.types, o, state)),
        Ty::Array(a) => Some(array::rel_array_object(c, st, source, target, *a, o, state)),
        _ => if is_structural_source(source) {
            Some(member::rel_members(c, st, source, target, state))
        } else {
            None
        },
    }
}

pub open spec fn rel_to_tuple(
    c: RelScope,
    st: RelState,
    source: Ty,
    types: Seq<Ty>,
    state: IntersectionState,
) -> Option<Rel>
    decreases relation::levels(c), 71nat, 0nat,
{
    match source {
        Ty::Tuple(x) => Some(tuple::rel_tuple_tuple(c, st, x.types, types, state)),
        Ty::Array(a) => Some(array::rel_array_tuple(c, st, *a, types, state)),
        _ => if source is TableConst || source is Object || source is Intersection || is_declared(
            source,
        ) {
            Some(tuple::rel_keyed_tuple(c, st, source, types, 0, state))
        } else {
            None
        },
    }
}

pub open spec fn rel_to_array(
    c: RelScope,
    st: RelState,
    source: Ty,
    target: Ty,
    base: Ty,
    state: IntersectionState,
) -> Option<Rel>
    decreases relation::levels(c), 71nat, 0nat,
{
    let slot = normalize::array_slot(c.db, base);
    match source {
        Ty::Array(a) => Some(
            relation::rel_note(c, relation::rel_types(c, st, a.base, slot, state), MessageTy::ArrayElement),
        ),
        Ty::Tuple(x) => Some(tuple::rel_tuple_array(c, st, x.types, 0, slot, state)),
        Ty::TableConst(_) => Some(table_const::rel_table_array(c, st, source, target, slot, state)),
        Ty::Object(o) => Some(object_type::rel_object_array(c, st, source, target, *o, slot, state)),
        Ty::TableGeneric(params) => Some(
            if params.len() != 2 || !(entries::ty_is_integer(params[0]) || params[0] is Any) {
                relation::rel_fail(c, st, relation::misfit(source, target))
            } else {
                relation::rel_note(c, relation::rel_types(c, st, params[1], slot, state), MessageTy::ArrayElement)
            },
        ),
        _ => if is_declared(source) {
            Some(array::rel_keyed_array(c, st, source, target, slot, state))
        } else {
            None
        },
    }
}

/// A run of values as a source.
pub open spec fn rel_variadic(
    c: RelScope,
    st: RelState,
    source: Ty,
    target: Ty,
    v: VariadicTy,
    state: IntersectionState,
) -> Rel
    decreases relation::levels(c), 69nat, 0nat,
{
    match v {
        VariadicTy::Base(base) => match target {
            Ty::Variadic(w) => match *w {
                VariadicTy::Base(other) => if equality::ty_eq(base, other) {
                    relation::rel_ok(st)
                } else {
                    relation::rel_fail(c, st, relation::misfit(source, target))
                },
                VariadicTy::Multi(types) => rel_to_each(c, st, base, types, 0, state),
            },
            _ => relation::rel_types(c, st, base, target, state),
        },
        VariadicTy::Multi(_) => relation::rel_ok(st),
    }
}

/// The source has to fit every type of a list, from place `k` on.
pub open spec fn rel_to_each(
    c: RelScope,
    st: RelState,
    source: Ty,
    types: Seq<Ty>,
    k: nat,
    state: IntersectionState,
) -> Rel
    decreases relation::levels(c), 68nat, types.len() - k,
{
    if k >= types.len() {
        relation::rel_ok(st)
    } else {
        let r = relation::rel_types(c, st, source, types[k as int], state);
        if r.res is Err {
            r
        } else {
            rel_to_each(c, r.st, source, types, k + 1, state)
        }
    }
}

/// A declared source: an alias is what it stands for, an enumeration is its values.
pub open spec fn rel_declared_source(
    c: RelScope,
    st: RelState,
    source: Ty,
    id: Seq<char>,
    target: Ty,
    state: IntersectionState,
) -> Option<Rel>
    decreases relation::levels(c), 70nat, 0nat,
{
    match db::decl_of(c.db, id) {
        None => Some(relation::rel_fail(c, st, relation::misfit(source, target))),
        Some(decl) => match decl.kind {
            LuaDeclKind::Alias => match decl.alias_ref {
                None => Some(relation::rel_fail(c, st, relation::misfit(source, target))),
                Some(origin) => Some(relation::rel_types(c, st, origin, target, state)),
            },
            LuaDeclKind::Enum => Some(rel_enum_source(c, st, source, id, decl, target, state)),
            _ => None,
        },
    }
}

/// The values of an enumeration. As a table, it also fits tables.
pub open spec fn rel_enum_source(
    c: RelScope,
    st: RelState,
    source: Ty,
    id: Seq<char>,
    decl: DeclTy,
    target: Ty,
    state: IntersectionState,
) -> Rel
    decreases relation::levels(c), 69nat, 0nat,
{
    if simple::decl_name(target) == Some(id) {
        relation::rel_ok(st)
    } else if source is Def && target is Table {
        relation::rel_ok(st)
    } else if source is Def && target is TableGeneric {
        index::rel_table_generic(c, st, source, target, target->TableGeneric_0, state)
    } else {
        match decl.enum_fields {
            None => relation::rel_fail(c, st, relation::misfit(source, target)),
            Some(values) => relation::rel_types(c, st, values, target, state),
        }
    }
}

/// A type with arguments filled in.
#[verifier::opaque]
pub open spec fn applied(db: DbTy, t: Ty, args: Seq<Ty>) -> Ty {
    db::evaluated(db, t, substitutor::args_subst(args))
}

pub fn apply_args(db: &DbIndex, t: &LuaType, args: &Vec<LuaType>) -> (r: LuaType)
    ensures
        r@ == applied(db@, t@, types::tys(args@)),
    decreases db@.room, 2nat,
{
    proof {
        reveal(applied);
    }
    let substitutor = TypeSubstitutor::from_type_array(args);
    instantiate_type_generic(db, t, &substitutor)
}

/// An applied generic type as a source. Where both sides apply the same type, arguments that can be
/// told at once decide; otherwise an alias is what it stands for and a class goes by its members.
pub open spec fn rel_generic_source(
    c: RelScope,
    st: RelState,
    source: Ty,
    g: GenericTy,
    target: Ty,
    state: IntersectionState,
) -> RelMaybe
    decreases relation::levels(c), 70nat, 0nat,
{
    match db::decl_of(c.db, g.base) {
        None => relation::rel_some(relation::rel_fail(c, st, relation::misfit(source, target))),
        Some(decl) => {
            let same_family = target is Generic && target->Generic_0.base == g.base && !(
            decl.kind is Enum);
            if same_family && decl.kind is Class && g.params.len()
                != target->Generic_0.params.len() {
                relation::rel_some(relation::rel_fail(c, st, relation::misfit(source, target)))
            } else {
                let m = if same_family {
                    generic::rel_same_family(c, st, g.params, target->Generic_0.params, state)
                } else {
                    RelMaybe { st, res: None }
                };
                if m.res is Some {
                    m
                } else {
                    let st1 = RelState { chain: st.chain, ..m.st };
                    match decl.kind {
                        LuaDeclKind::Alias => match decl.alias_ref {
                            Some(origin) => relation::rel_some(
                                relation::rel_types(
                                    c,
                                    st1,
                                    applied(c.db, origin, g.params),
                                    target,
                                    state,
                                ),
                            ),
                            None => relation::rel_some(relation::rel_fail(c, st1, relation::misfit(source, target))),
                        },
                        LuaDeclKind::Class => RelMaybe { st: st1, res: None },
                        _ => relation::rel_some(relation::rel_fail(c, st1, relation::misfit(source, target))),
                    }
                }
            }
        },
    }
}

/// Compares two types by their structure. None where no rule is about the two.
pub fn dispatch_structured(
    relater: &mut Relater,
    source: &LuaType,
    target: &LuaType,
    intersection_state: IntersectionState,
) -> (r: Option<RelationResult>)
    ensures
        final(relater).may_have_done(
            *old(relater),
            rel_structured(
                old(relater).scope(),
                old(relater).state(),
                source@,
                target@,
                intersection_state,
            ),
            r,
        ),
    decreases old(relater).scope().db.room, 12nat, old(relater).room_left(), 74nat, 0nat,
{
    let by_source = relate_by_source(relater, source, target, intersection_state);
    if by_source.is_some() || matches!(
        source,
        LuaType::Function | LuaType::DocFunction(_) | LuaType::Signature(_)
    ) {
        return by_source;
    }
    if matches!(source, LuaType::Table) && is_structural(target) {
        return Some(Ok(()));
    }
    relate_by_target(relater, source, target, intersection_state)
}

fn is_structural(t: &LuaType) -> (r: bool)
    ensures
        r == is_structural_target(t@),
{
    matches!(
        t,
        LuaType::Table | LuaType::TableConst(_) | LuaType::Object(_) | LuaType::Tuple(_)
            | LuaType::Array(_) | LuaType::TableGeneric(_)
    )
}

pub fn is_declared_source(source: &LuaType) -> (r: bool)
    ensures
        r == is_declared(source@),
{
    matches!(source, LuaType::Ref(_) | LuaType::Def(_) | LuaType::Generic(_))
}

fn is_structural_or_declared_source(source: &LuaType) -> (r: bool)
    ensures
        r == is_structural_source(source@),
{
    is_structural(source) || matches!(source, LuaType::Intersection(_)) || is_declared_source(
        source,
    )
}

pub fn declared_source_id(source: &LuaType) -> (r: Option<&LuaTypeDeclId>)
    ensures
        (match r {
            Some(id) => Some(id@),
            None => None,
        }) == source_name(source@),
{
    match source {
        LuaType::Ref(id) => Some(id),
        LuaType::Def(id) => Some(id),
        LuaType::Generic(generic) => Some(generic.get_base_type_id_ref()),
        _ => None,
    }
}

fn relate_by_source(
    relater: &mut Relater,
    source: &LuaType,
    target: &LuaType,
    intersection_state: IntersectionState,
) -> (r: Option<RelationResult>)
    ensures
        final(relater).may_have_done(
            *old(relater),
            rel_by_source(
                old(relater).scope(),
                old(relater).state(),
                source@,
                target@,
                intersection_state,
            ),
            r,
        ),
    decreases old(relater).scope().db.room, 12nat, old(relater).room_left(), 73nat, 0nat,
{
    match source {
        LuaType::Function => relate_callable(relater, source, target, intersection_state),
        LuaType::DocFunction(_) => relate_callable(relater, source, target, intersection_state),
        LuaType::Signature(_) => relate_callable(relater, source, target, intersection_state),
        LuaType::Variadic(source_variadic) => Some(
            relate_variadic_source(relater, source, target, source_variadic, intersection_state),
        ),
        LuaType::Ref(source_id) => relate_declared_source_capability(
            relater,
            source,
            source_id,
            target,
            intersection_state,
        ),
        LuaType::Def(source_id) => relate_declared_source_capability(
            relater,
            source,
            source_id,
            target,
            intersection_state,
        ),
        LuaType::Generic(source_generic) => relate_generic_source_capability(
            relater,
            source,
            source_generic,
            target,
            intersection_state,
        ),
        _ => None,
    }
}

#[verifier::spinoff_prover]
#[verifier::rlimit(50)]
fn relate_by_target(
    relater: &mut Relater,
    source: &LuaType,
    target: &LuaType,
    intersection_state: IntersectionState,
) -> (r: Option<RelationResult>)
    ensures
        final(relater).may_have_done(
            *old(relater),
            rel_by_target(
                old(relater).scope(),
                old(relater).state(),
                source@,
                target@,
                intersection_state,
            ),
            r,
        ),
    decreases old(relater).scope().db.room, 12nat, old(relater).room_left(), 72nat, 0nat,
{
    match target {
        LuaType::Ref(_) | LuaType::Def(_) | LuaType::Generic(_) => relate_to_declared_target(
            relater,
            source,
            target,
            intersection_state,
        ),
        LuaType::Function | LuaType::DocFunction(_) | LuaType::Signature(_) => relate_callable(
            relater,
            source,
            target,
            intersection_state,
        ),
        _ => relate_to_structure(relater, source, target, intersection_state),
    }
}

#[verifier::spinoff_prover]
#[verifier::rlimit(50)]
fn relate_to_structure(
    relater: &mut Relater,
    source: &LuaType,
    target: &LuaType,
    intersection_state: IntersectionState,
) -> (r: Option<RelationResult>)
    ensures
        final(relater).may_have_done(
            *old(relater),
            relation::rel_opt(
                old(relater).state(),
                rel_to_structure(
                old(relater).scope(),
                old(relater).state(),
                source@,
                target@,
                intersection_state,
            ),
            ),
            r,
        ),
    decreases old(relater).scope().db.room, 12nat, old(relater).room_left(), 71nat, 1nat,
{
    match target {
        LuaType::Object(target_object) => relate_to_object(
            relater,
            source,
            target,
            target_object,
            intersection_state,
        ),
        LuaType::Tuple(target_tuple) => relate_to_tuple(
            relater,
            source,
            target_tuple,
            intersection_state,
        ),
        LuaType::Array(target_array) => relate_to_array(
            relater,
            source,
            target,
            target_array,
            intersection_state,
        ),
        _ => relate_to_table(relater, source, target, intersection_state),
    }
}

fn relate_to_table(
    relater: &mut Relater,
    source: &LuaType,
    target: &LuaType,
    intersection_state: IntersectionState,
) -> (r: Option<RelationResult>)
    ensures
        final(relater).may_have_done(
            *old(relater),
            relation::rel_opt(
                old(relater).state(),
                rel_to_table(
                old(relater).scope(),
                old(relater).state(),
                source@,
                target@,
                intersection_state,
            ),
            ),
            r,
        ),
    decreases old(relater).scope().db.room, 12nat, old(relater).room_left(), 71nat, 0nat,
{
    if let LuaType::TableConst(_) = target {
        if is_structural_or_declared_source(source) {
            let result = relate_members(relater, source, target, intersection_state);
            return Some(result);
        }
        return None;
    }
    if let LuaType::TableGeneric(target_params) = target {
        assert(target@ == Ty::TableGeneric(types::tys(target_params@)));
        if is_structural_or_declared_source(source) && !source.is_intersection() {
            let result = relate_to_table_generic(
                relater,
                source,
                target,
                target_params,
                intersection_state,
            );
            return Some(result);
        }
        return None;
    }
    if let LuaType::Table = target {
        if is_structural_or_declared_source(source) && !source.is_intersection() {
            return Some(Ok(()));
        }
        return None;
    }
    if let LuaType::Userdata = target {
        if is_declared_source(source) {
            return Some(Ok(()));
        }
        return None;
    }
    relate_to_base_type(relater, source, target)
}

fn relate_to_base_type(relater: &mut Relater, source: &LuaType, target: &LuaType) -> (r: Option<
    RelationResult,
>)
    ensures
        final(relater).may_have_done(
            *old(relater),
            relation::rel_opt(
                old(relater).state(),
                rel_to_base(old(relater).scope(), old(relater).state(), source@, target@),
            ),
            r,
        ),
{
    if !matches!(
        target,
        LuaType::String | LuaType::StringConst(_) | LuaType::Integer | LuaType::IntegerConst(_)
    ) {
        return None;
    }
    let source_id = match declared_source_id(source) {
        Some(id) => id,
        None => {
            return None;
        },
    };
    match get_base_type_id(target) {
        Some(base) => {
            if source_id.same(&base) {
                return Some(Ok(()));
            }
            let result = relater.fail_types(source, target);
            Some(result)
        },
        None => None,
    }
}

fn relate_to_object(
    relater: &mut Relater,
    source: &LuaType,
    target: &LuaType,
    target_object: &LuaObjectType,
    intersection_state: IntersectionState,
) -> (r: Option<RelationResult>)
    ensures
        final(relater).may_have_done(
            *old(relater),
            relation::rel_opt(
                old(relater).state(),
                rel_to_object(
                old(relater).scope(),
                old(relater).state(),
                source@,
                target@,
                target_object@,
                intersection_state,
            ),
            ),
            r,
        ),
    decreases old(relater).scope().db.room, 12nat, old(relater).room_left(), 71nat, 0nat,
{
    match source {
        LuaType::Tuple(source_tuple) => Some(
            relate_tuple_to_object(
                relater,
                source,
                target,
                source_tuple,
                target_object,
                intersection_state,
            ),
        ),
        LuaType::Array(source_array) => Some(
            relate_array_to_object(
                relater,
                source,
                target,
                source_array,
                target_object,
                intersection_state,
            ),
        ),
        _ => if is_structural_or_declared_source(source) {
            Some(relate_members(relater, source, target, intersection_state))
        } else {
            None
        },
    }
}

#[verifier::spinoff_prover]
#[verifier::rlimit(50)]
fn relate_to_tuple(
    relater: &mut Relater,
    source: &LuaType,
    target_tuple: &LuaTupleType,
    intersection_state: IntersectionState,
) -> (r: Option<RelationResult>)
    ensures
        final(relater).may_have_done(
            *old(relater),
            relation::rel_opt(
                old(relater).state(),
                rel_to_tuple(
                old(relater).scope(),
                old(relater).state(),
                source@,
                target_tuple@.types,
                intersection_state,
            ),
            ),
            r,
        ),
    decreases old(relater).scope().db.room, 12nat, old(relater).room_left(), 71nat, 0nat,
{
    if let LuaType::Tuple(source_tuple) = source {
        let result = relate_tuple_to_tuple(relater, source_tuple, target_tuple, intersection_state);
        return Some(result);
    }
    if let LuaType::Array(source_array) = source {
        let result = relate_array_to_tuple(relater, source_array, target_tuple, intersection_state);
        return Some(result);
    }
    let keyed = match source {
        LuaType::TableConst(_) | LuaType::Object(_) | LuaType::Intersection(_) => true,
        _ => is_declared_source(source),
    };
    if keyed {
        let result = relate_keyed_source_to_tuple(
            relater,
            source,
            target_tuple,
            intersection_state,
        );
        return Some(result);
    }
    None
}

#[verifier::spinoff_prover]
#[verifier::rlimit(50)]
fn relate_to_array(
    relater: &mut Relater,
    source: &LuaType,
    target: &LuaType,
    target_array: &LuaArrayType,
    intersection_state: IntersectionState,
) -> (r: Option<RelationResult>)
    ensures
        final(relater).may_have_done(
            *old(relater),
            relation::rel_opt(
                old(relater).state(),
                rel_to_array(
                old(relater).scope(),
                old(relater).state(),
                source@,
                target@,
                target_array@.base,
                intersection_state,
            ),
            ),
            r,
        ),
    decreases old(relater).scope().db.room, 12nat, old(relater).room_left(), 71nat, 0nat,
{
    assert(target_array@.base == target_array.base@);
    let slot = effective_array_base(relater.db(), target_array.get_base());
    if let LuaType::Array(source_array) = source {
        assert(source_array@.base == source_array.base@);
        let result = relater.relate(source_array.get_base(), &slot, intersection_state);
        let result = relater.on_unrelated(result, ChainMessage::ArrayElement);
        return Some(result);
    }
    if let LuaType::Tuple(source_tuple) = source {
        let result = relate_tuple_to_array(relater, source_tuple, &slot, intersection_state);
        return Some(result);
    }
    if let LuaType::TableConst(_) = source {
        let result = relate_table_const_to_array(
            relater,
            source,
            target,
            &slot,
            intersection_state,
        );
        return Some(result);
    }
    if let LuaType::Object(source_object) = source {
        let result = relate_object_to_array(
            relater,
            source,
            target,
            source_object,
            &slot,
            intersection_state,
        );
        return Some(result);
    }
    if let LuaType::TableGeneric(source_params) = source {
        assert(types::tys(source_params@).len() == source_params@.len());
        let result = relate_table_generic_to_array(
            relater,
            source,
            target,
            source_params,
            &slot,
            intersection_state,
        );
        return Some(result);
    }
    if is_declared_source(source) {
        let result = relate_keyed_source_to_array(
            relater,
            source,
            target,
            &slot,
            intersection_state,
        );
        return Some(result);
    }
    None
}

/// A run of values as a source.
fn relate_variadic_source(
    relater: &mut Relater,
    source: &LuaType,
    target: &LuaType,
    source_variadic: &VariadicType,
    intersection_state: IntersectionState,
) -> (r: RelationResult)
    ensures
        final(relater).did(
            *old(relater),
            rel_variadic(
                old(relater).scope(),
                old(relater).state(),
                source@,
                target@,
                source_variadic@,
                intersection_state,
            ),
            r,
        ),
    decreases old(relater).scope().db.room, 12nat, old(relater).room_left(), 69nat, 0nat,
{
    match source_variadic {
        VariadicType::Base(source_base) => match target {
            LuaType::Variadic(target_variadic) => match &**target_variadic {
                VariadicType::Base(target_base) => {
                    assert(target_variadic@ == VariadicTy::Base(target_base@));
                    if source_base.same(target_base) {
                        Ok(())
                    } else {
                        relater.fail_types(source, target)
                    }
                },
                VariadicType::Multi(target_types) => {
                    assert(target_variadic@ == VariadicTy::Multi(types::tys(target_types@)));
                    relate_to_each(relater, source_base, target_types, intersection_state)
                },
            },
            _ => relater.relate(source_base, target, intersection_state),
        },
        VariadicType::Multi(_) => Ok(()),
    }
}

#[verifier::loop_isolation(false)]
fn relate_to_each(
    relater: &mut Relater,
    source: &LuaType,
    types: &Vec<LuaType>,
    intersection_state: IntersectionState,
) -> (r: RelationResult)
    ensures
        final(relater).did(
            *old(relater),
            rel_to_each(
                old(relater).scope(),
                old(relater).state(),
                source@,
                types::tys(types@),
                0,
                intersection_state,
            ),
            r,
        ),
    decreases old(relater).scope().db.room, 12nat, old(relater).room_left(), 68nat, types@.len(),
{
    let ghost c = relater.scope();
    let ghost all = types::tys(types@);
    let ghost whole = rel_to_each(
        c,
        relater.state(),
        source@,
        all,
        0,

        intersection_state,
    );
    let mut i: usize = 0;
    while i < types.len()
        invariant
            i <= types@.len(),
            relater.moved(*old(relater), relater.state()),
            whole == rel_to_each(
        c,
        relater.state(),
        source@,
        all,
        i as nat,

        intersection_state,
    ),
        decreases types@.len() - i,
    {

        assert(all[i as int] == types@[i as int]@);
        if let Err(failure) = relater.relate(source, &types[i], intersection_state) {
            return Err(failure);
        }
        i += 1;
    }
    Ok(())
}

fn relate_declared_source_capability(
    relater: &mut Relater,
    source: &LuaType,
    source_id: &LuaTypeDeclId,
    target: &LuaType,
    intersection_state: IntersectionState,
) -> (r: Option<RelationResult>)
    ensures
        final(relater).may_have_done(
            *old(relater),
            relation::rel_opt(
                old(relater).state(),
                rel_declared_source(
                old(relater).scope(),
                old(relater).state(),
                source@,
                source_id@,
                target@,
                intersection_state,
            ),
            ),
            r,
        ),
    decreases old(relater).scope().db.room, 12nat, old(relater).room_left(), 70nat, 0nat,
{
    let db = relater.db();
    let source_decl = match db.get_type_decl(source_id) {
        Some(decl) => decl,
        None => {
            return Some(relater.fail_types(source, target));
        },
    };
    if source_decl.is_alias() {
        return match source_decl.get_alias_ref() {
            Some(origin) => Some(relater.relate(origin, target, intersection_state)),
            None => Some(relater.fail_types(source, target)),
        };
    }
    if source_decl.is_enum() {
        return Some(
            relate_enum_source(
                relater,
                source,
                source_id,
                source_decl,
                target,
                intersection_state,
            ),
        );
    }
    None
}

/// The values of an enumeration.
fn relate_enum_source(
    relater: &mut Relater,
    source: &LuaType,
    source_id: &LuaTypeDeclId,
    source_decl: &LuaTypeDecl,
    target: &LuaType,
    intersection_state: IntersectionState,
) -> (r: RelationResult)
    ensures
        final(relater).did(
            *old(relater),
            rel_enum_source(
                old(relater).scope(),
                old(relater).state(),
                source@,
                source_id@,
                source_decl@,
                target@,
                intersection_state,
            ),
            r,
        ),
    decreases old(relater).scope().db.room, 12nat, old(relater).room_left(), 69nat, 0nat,
{
    if is_same_decl(target, source_id) {
        return Ok(());
    }
    assert(source_decl@.enum_fields == types::opt_ty(source_decl.enum_fields));
    if let LuaType::Def(_) = source {
        if let LuaType::Table = target {
            return Ok(());
        }
        if let LuaType::TableGeneric(target_params) = target {
            assert(target@ == Ty::TableGeneric(types::tys(target_params@)));
            return relate_to_table_generic(
                relater,
                source,
                target,
                target_params,
                intersection_state,
            );
        }
    }
    match &source_decl.enum_fields {
        None => relater.fail_types(source, target),
        Some(enum_fields) => relater.relate(enum_fields, target, intersection_state),
    }
}

fn relate_generic_source_capability(
    relater: &mut Relater,
    source: &LuaType,
    source_generic: &LuaGenericType,
    target: &LuaType,
    intersection_state: IntersectionState,
) -> (r: Option<RelationResult>)
    ensures
        final(relater).may_have_done(
            *old(relater),
            rel_generic_source(
                old(relater).scope(),
                old(relater).state(),
                source@,
                source_generic@,
                target@,
                intersection_state,
            ),
            r,
        ),
    decreases old(relater).scope().db.room, 12nat, old(relater).room_left(), 70nat, 0nat,
{
    let db = relater.db();
    assert(source_generic@.base == source_generic.base@ && source_generic@.params == types::tys(
        source_generic.params@,
    ));
    let source_decl = match db.get_type_decl(source_generic.get_base_type_id_ref()) {
        Some(decl) => decl,
        None => {
            return Some(relater.fail_types(source, target));
        },
    };
    let ghost st0 = relater.state();
    if let LuaType::Generic(target_generic) = target {
        assert(target_generic@.base == target_generic.base@ && target_generic@.params == types::tys(
            target_generic.params@,
        ));
        if source_generic.get_base_type_id_ref().same(target_generic.get_base_type_id_ref())
            && !source_decl.is_enum() {
            if source_decl.is_class() && source_generic.params.len()
                != target_generic.params.len() {
                return Some(relater.fail_types(source, target));
            }
            let saved_chain = relater.error_chain_snapshot();
            if let Some(result) = relate_same_family_generic_args(
                relater,
                &source_generic.params,
                &target_generic.params,
                intersection_state,
            ) {
                return Some(result);
            }
            relater.restore_error_chain(saved_chain);
        }
    }
    if source_decl.is_alias() {
        return match source_decl.get_alias_ref() {
            Some(origin) => {
                let alias_origin = apply_args(relater.db(), origin, &source_generic.params);
                let result = relater.relate(&alias_origin, target, intersection_state);
                Some(result)
            },
            None => Some(relater.fail_types(source, target)),
        };
    }
    if !source_decl.is_class() {
        return Some(relater.fail_types(source, target));
    }
    None
}

} // verus!
