//! Conditional types.

use vstd::prelude::*;

use crate::{db, types};
use crate::db::{DbIndex, DbTy, TypeOps};
use crate::generic::{actualize, conditional, infer_match, substitutor};
use crate::generic::actualize::actualize_unresolved_templates;
use crate::generic::conditional::{
    ConditionalCheck, InferAssignments, InferVariance, check_conditional_extends,
    contains_conditional_infer, finalize_infer_assignments, naked_checked_type_tpl_id,
    union_members,
};
use crate::generic::infer_match::collect_infer_assignments;
use crate::generic::substitutor::{TypeSubstitutor, instantiate_type_generic};
use crate::type_check::simple;
use crate::types::{ConditionalTy, GenericTplId, LuaConditionalType, LuaType, Ty, traverse};
use crate::types::complex::clone_opt_type;

verus! {

/// The operand of a condition: templates are filled in, and what is left of them is unknown. Of a
/// class that is to be made, its constructor.
pub open spec fn operand_type(
    db: DbTy,
    operand: Ty,
    checked: bool,
    has_new: bool,
    m: Seq<(GenericTplId, Ty)>,
) -> Ty {
    let t = actualize::actual(raw_operand(db, operand, checked, m));
    if has_new {
        match made_by(db, t) {
            Some(constructor) => constructor,
            None => t,
        }
    } else {
        t
    }
}

pub open spec fn raw_operand(db: DbTy, operand: Ty, checked: bool, m: Seq<(GenericTplId, Ty)>) -> Ty {
    let t = db::evaluated(db, operand, m);
    match operand {
        Ty::TplRef(tpl) => if checked && db::first_value(m, tpl.tpl_id) is None && traverse::holds_tpl(
            traverse::preorder(t),
        ) {
            Ty::Unknown
        } else {
            t
        },
        _ => t,
    }
}

/// The constructor of a class.
pub open spec fn made_by(db: DbTy, t: Ty) -> Option<Ty> {
    match simple::decl_name(t) {
        Some(id) => match db::decl_of(db, id) {
            Some(decl) => if decl.kind is Class {
                decl.constructor
            } else {
                None
            },
            None => None,
        },
        None => None,
    }
}

fn find_constructor(db: &DbIndex, t: &LuaType) -> (r: Option<LuaType>)
    ensures
        types::opt_ty(r) == made_by(db@, t@),
{
    let id = match t {
        LuaType::Ref(id) => id,
        LuaType::Def(id) => id,
        _ => {
            return None;
        },
    };
    match db.get_type_decl(id) {
        Some(decl) => if decl.is_class() {
            clone_opt_type(&decl.constructor)
        } else {
            None
        },
        None => None,
    }
}

pub fn instantiate_conditional_operand(
    db: &DbIndex,
    operand: &LuaType,
    checked: bool,
    has_new: bool,
    substitutor: &TypeSubstitutor,
) -> (r: LuaType)
    ensures
        r@ == operand_type(db@, operand@, checked, has_new, substitutor@),
    decreases db@.room, 2nat,
{
    let mut result = instantiate_type_generic(db, operand, substitutor);
    if let LuaType::TplRef(tpl) = operand {
        if checked && substitutor.resolve_type(tpl.get_tpl_id()).is_none()
            && result.contain_tpl() {
            result = LuaType::Unknown;
        }
    }
    assert(result@ == raw_operand(db@, operand@, checked, substitutor@));
    let result = actualize_unresolved_templates(&result);
    if has_new {
        if let Some(constructor) = find_constructor(db, &result) {
            return constructor;
        }
    }
    result
}

/// The bindings with further ones in front of them.
pub open spec fn with_bindings(
    m: Seq<(GenericTplId, Ty)>,
    more: Seq<(GenericTplId, Ty)>,
) -> Seq<(GenericTplId, Ty)>
    decreases more.len(),
{
    if more.len() == 0 {
        m
    } else {
        let (id, t) = more.last();
        substitutor::with_binding(with_bindings(m, more.drop_last()), id, t)
    }
}

fn bind_all(substitutor: &TypeSubstitutor, more: &Vec<(GenericTplId, LuaType)>) -> (r:
    TypeSubstitutor)
    ensures
        r@ == with_bindings(substitutor@, conditional::binding_tys(more@)),
{
    let ghost all = conditional::binding_tys(more@);
    let mut r = substitutor.clone();
    let mut i: usize = 0;
    assert(all.take(0) =~= Seq::<(GenericTplId, Ty)>::empty());
    while i < more.len()
        invariant
            i <= more@.len(),
            all == conditional::binding_tys(more@),
            r@ == with_bindings(substitutor@, all.take(i as int)),
        decreases more@.len() - i,
    {
        proof {
            assert(all.take(i + 1).drop_last() =~= all.take(i as int));
            assert(all.take(i + 1).last() == all[i as int]);
        }
        r.replace_value(more[i].0, more[i].1.clone());
        i += 1;
    }
    assert(all.take(i as int) =~= all);
    r
}

/// The branch that a condition takes. Where the pattern binds templates, they are bound in the branch
/// of a match.
pub open spec fn decided(db: DbTy, c: ConditionalTy, m: Seq<(GenericTplId, Ty)>) -> Ty {
    let left = operand_type(db, c.checked_type, true, c.has_new, m);
    let right = operand_type(db, c.extends_type, false, c.has_new, m);
    if conditional::has_infer(right) {
        let r = infer_match::matched(db, left, right, Seq::empty(), InferVariance::Covariant);
        if r.ok {
            db::evaluated(db, c.true_type, with_bindings(m, conditional::finalized(r.m)))
        } else {
            db::evaluated(db, c.false_type, m)
        }
    } else {
        match conditional::extends_check(db, left, right) {
            ConditionalCheck::True => db::evaluated(db, c.true_type, m),
            ConditionalCheck::False => db::evaluated(db, c.false_type, m),
            ConditionalCheck::Both => db::union_ty(
                db::evaluated(db, c.true_type, m),
                db::evaluated(db, c.false_type, m),
            ),
        }
    }
}

pub fn instantiate_conditional_once(
    db: &DbIndex,
    conditional: &LuaConditionalType,
    substitutor: &TypeSubstitutor,
) -> (r: LuaType)
    ensures
        r@ == decided(db@, conditional@, substitutor@),
    decreases db@.room, 19nat,
{
    assert(conditional@.checked_type == conditional.checked_type@);
    assert(conditional@.extends_type == conditional.extends_type@);
    assert(conditional@.true_type == conditional.true_type@);
    assert(conditional@.false_type == conditional.false_type@);
    let left_type = instantiate_conditional_operand(
        db,
        &conditional.checked_type,
        true,
        conditional.has_new,
        substitutor,
    );
    let right_type = instantiate_conditional_operand(
        db,
        &conditional.extends_type,
        false,
        conditional.has_new,
        substitutor,
    );
    if contains_conditional_infer(&right_type) {
        let mut infer_assignments = InferAssignments::new();
        assert(infer_assignments@ =~= Seq::empty());
        if collect_infer_assignments(
            db,
            &left_type,
            &right_type,
            &mut infer_assignments,
            InferVariance::Covariant,
        ) {
            let bindings = finalize_infer_assignments(&infer_assignments);
            let true_substitutor = bind_all(substitutor, &bindings);
            return instantiate_type_generic(db, &conditional.true_type, &true_substitutor);
        }
        return instantiate_type_generic(db, &conditional.false_type, substitutor);
    }
    match check_conditional_extends(db, &left_type, &right_type) {
        ConditionalCheck::True => instantiate_type_generic(db, &conditional.true_type, substitutor),
        ConditionalCheck::False => instantiate_type_generic(db, &conditional.false_type, substitutor),
        ConditionalCheck::Both => {
            let true_type = instantiate_type_generic(db, &conditional.true_type, substitutor);
            let false_type = instantiate_type_generic(db, &conditional.false_type, substitutor);
            TypeOps::union(&true_type, &false_type)
        },
    }
}

/// The union of what a condition decides for each of the types that a template may be.
pub open spec fn decided_each(
    db: DbTy,
    c: ConditionalTy,
    id: GenericTplId,
    types: Seq<Ty>,
    m: Seq<(GenericTplId, Ty)>,
) -> Ty
    decreases types.len(),
{
    if types.len() == 0 {
        Ty::Never
    } else {
        db::union_ty(
            decided_each(db, c, id, types.drop_last(), m),
            decided(db, c, substitutor::with_binding(m, id, types.last())),
        )
    }
}

/// The type that a condition stands for. A condition on a template alone is decided for each type of
/// a union.
pub open spec fn conditional_type(db: DbTy, c: ConditionalTy, m: Seq<(GenericTplId, Ty)>) -> Ty {
    match conditional::naked_template(c.checked_type) {
        Some(id) => match db::first_value(m, id) {
            Some(t) => if t is Never {
                Ty::Never
            } else {
                match conditional::branches_of(t) {
                    Some(types) => decided_each(db, c, id, types, m),
                    None => decided(db, c, m),
                }
            },
            None => decided(db, c, m),
        },
        None => decided(db, c, m),
    }
}

fn instantiate_each(
    db: &DbIndex,
    conditional: &LuaConditionalType,
    tpl_id: GenericTplId,
    members: &Vec<LuaType>,
    substitutor: &TypeSubstitutor,
) -> (r: LuaType)
    ensures
        r@ == decided_each(db@, conditional@, tpl_id, types::tys(members@), substitutor@),
    decreases db@.room, 20nat,
{
    let ghost all = types::tys(members@);
    let mut result = LuaType::Never;
    let mut i: usize = 0;
    assert(all.take(0) =~= Seq::<Ty>::empty());
    while i < members.len()
        invariant
            i <= members@.len(),
            all == types::tys(members@),
            result@ == decided_each(
                db@,
                conditional@,
                tpl_id,
                all.take(i as int),
                substitutor@,
            ),
        decreases members@.len() - i,
    {
        proof {
            assert(all.take(i + 1).drop_last() =~= all.take(i as int));
            assert(all.take(i + 1).last() == all[i as int]);
            assert(all[i as int] == members@[i as int]@);
        }
        let mut member_substitutor = substitutor.clone();
        member_substitutor.replace_value(tpl_id, members[i].clone());
        let member_result = instantiate_conditional_once(db, conditional, &member_substitutor);
        result = TypeOps::union(&result, &member_result);
        i += 1;
    }
    assert(all.take(i as int) =~= all);
    result
}

/// The type that a condition stands for.
pub fn instantiate_conditional_type(
    db: &DbIndex,
    conditional: &LuaConditionalType,
    substitutor: &TypeSubstitutor,
) -> (r: LuaType)
    ensures
        r@ == conditional_type(db@, conditional@, substitutor@),
    decreases db@.room, 21nat,
{
    assert(conditional@.checked_type == conditional.checked_type@);
    if let Some(tpl_id) = naked_checked_type_tpl_id(&conditional.checked_type) {
        if let Some(raw) = substitutor.resolve_type(tpl_id) {
            if raw.is_never() {
                return LuaType::Never;
            }
            if let Some(members) = union_members(raw) {
                return instantiate_each(db, conditional, tpl_id, &members, substitutor);
            }
        }
    }
    instantiate_conditional_once(db, conditional, substitutor)
}

/// A condition on `never` alone is `never`.
pub proof fn condition_on_never(db: DbTy, c: ConditionalTy, m: Seq<(GenericTplId, Ty)>)
    requires
        conditional::naked_template(c.checked_type) matches Some(id) && db::first_value(m, id) == Some(Ty::Never),
    ensures
        conditional_type(db, c, m) == Ty::Never,
{
}

} // verus!
