//! Comparing instances of one generic type, and tables of keys and values.

use vstd::prelude::*;

use crate::types;
use crate::type_check::{relation, simple};
use crate::type_check::relation::{
    IntersectionState, RelMaybe, RelScope, RelState, Relater, RelationFailure, RelationResult,
};
use crate::type_check::simple::free_tpl;
use crate::types::{LuaType, Ty, equality};

verus! {

/// Two arguments that can stand for each other wherever they are used.
pub open spec fn is_interchangeable(source: Ty, target: Ty) -> bool {
    equality::ty_eq(source, target) || source is Any || source is SelfInfer || target is Any
        || target is Unknown || target is SelfInfer || simple::is_free_tpl(source) || simple::is_free_tpl(target)
}

/// Compares the arguments of two applications of the same type. Where they do not decide, the
/// members have to.
pub open spec fn rel_same_family(
    c: RelScope,
    st: RelState,
    source: Seq<Ty>,
    target: Seq<Ty>,
    state: IntersectionState,
) -> RelMaybe
    decreases relation::levels(c), 69nat, 0nat,
{
    if source.len() != target.len() {
        RelMaybe { st, res: None }
    } else {
        rel_arguments(c, st, source, target, 0, true, state)
    }
}

pub open spec fn rel_arguments(
    c: RelScope,
    st: RelState,
    source: Seq<Ty>,
    target: Seq<Ty>,
    k: nat,
    all_trivial: bool,
    state: IntersectionState,
) -> RelMaybe
    decreases relation::levels(c), 68nat, source.len() - k,
{
    if k >= source.len() {
        RelMaybe {
            st,
            res: if all_trivial {
                Some(Ok(()))
            } else {
                None
            },
        }
    } else if is_interchangeable(source[k as int], target[k as int]) {
        rel_arguments(c, st, source, target, k + 1, all_trivial, state)
    } else {
        let r = relation::rel_types(c, st, source[k as int], target[k as int], state);
        match r.res {
            Ok(_) => rel_arguments(c, r.st, source, target, k + 1, false, state),
            Err(RelationFailure::Indeterminate(_)) => relation::rel_some(r),
            Err(RelationFailure::Unrelated) => RelMaybe { st: r.st, res: None },
        }
    }
}

pub fn relate_same_family_generic_args(
    relater: &mut Relater,
    source_params: &Vec<LuaType>,
    target_params: &Vec<LuaType>,
    intersection_state: IntersectionState,
) -> (r: Option<RelationResult>)
    ensures
        final(relater).may_have_done(
            *old(relater),
            rel_same_family(
                old(relater).scope(),
                old(relater).state(),
                types::tys(source_params@),
                types::tys(target_params@),
                intersection_state,
            ),
            r,
        ),
    decreases old(relater).scope().db.room, 12nat, old(relater).room_left(), 69nat, 0nat,
{
    if source_params.len() != target_params.len() {
        return None;
    }
    relate_arguments(relater, source_params, target_params, intersection_state)
}

fn is_trivial_pair(source: &LuaType, target: &LuaType) -> (r: bool)
    ensures
        r == is_interchangeable(source@, target@),
{
    source.same(target) || matches!(source, LuaType::Any | LuaType::SelfInfer) || matches!(
        target,
        LuaType::Any | LuaType::Unknown | LuaType::SelfInfer
    ) || free_tpl(source) || free_tpl(target)
}

#[verifier::loop_isolation(false)]
fn relate_arguments(
    relater: &mut Relater,
    source_params: &Vec<LuaType>,
    target_params: &Vec<LuaType>,
    intersection_state: IntersectionState,
) -> (r: Option<RelationResult>)
    requires
        source_params@.len() == target_params@.len(),
    ensures
        final(relater).may_have_done(
            *old(relater),
            rel_arguments(
                old(relater).scope(),
                old(relater).state(),
                types::tys(source_params@),
                types::tys(target_params@),
                0,
                true,
                intersection_state,
            ),
            r,
        ),
    decreases old(relater).scope().db.room, 12nat, old(relater).room_left(), 68nat, 0nat,
{
    let ghost c = relater.scope();
    let ghost from = types::tys(source_params@);
    let ghost to = types::tys(target_params@);
    let mut all_trivial = true;
    let ghost whole = rel_arguments(
        c,
        relater.state(),
        from,
        to,
        0,
        all_trivial,

        intersection_state,
    );
    let mut i: usize = 0;
    while i < source_params.len()
        invariant
            i <= source_params@.len(),
            relater.moved(*old(relater), relater.state()),
            whole == rel_arguments(
        c,
        relater.state(),
        from,
        to,
        i as nat,
        all_trivial,

        intersection_state,
    ),
        decreases source_params@.len() - i,
    {

        let source_param = &source_params[i];
        let target_param = &target_params[i];
        assert(from[i as int] == source_param@ && to[i as int] == target_param@);
        if !is_trivial_pair(source_param, target_param) {
            all_trivial = false;
            match relater.relate(source_param, target_param, intersection_state) {
                Err(RelationFailure::Indeterminate(kind)) => {
                    return Some(Err(RelationFailure::Indeterminate(kind)));
                },
                Err(RelationFailure::Unrelated) => {
                    return None;
                },
                Ok(()) => {},
            }
        }
        i += 1;
    }
    if all_trivial {
        Some(Ok(()))
    } else {
        None
    }
}

} // verus!
