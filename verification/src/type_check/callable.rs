//! Comparing functions.

use std::sync::Arc;
use vstd::prelude::*;
use vstd::string::*;

use crate::types;
use crate::type_check::{callable_types, intersection, relation};
use crate::type_check::callable_types::callable_candidates;
use crate::type_check::error_chain::{ChainMessage, MessageTy, OverflowKind};
use crate::type_check::relation::{
    IntersectionState, Rel, RelScope, RelState, Relater, RelationFailure, RelationResult, settle,
};
use crate::types::{FunctionTy, LuaFunctionType, LuaType, Ty};
use crate::types::complex::{clone_named, text_is};

verus! {

pub open spec fn rel_callable(
    c: RelScope,
    st: RelState,
    source: Ty,
    target: Ty,
    state: IntersectionState,
) -> Option<Rel>
    decreases relation::levels(c), 69nat, 0nat,
{
    match source {
        Ty::Function => match callable_types::call_candidates(c.db, target, callable_types::call_limit()) {
            Some(_) => Some(relation::rel_ok(st)),
            None => None,
        },
        Ty::DocFunction(f) => match target {
            Ty::DocFunction(g) => Some(rel_function(c, st, *f, *g, state)),
            _ => rel_candidates(c, st, source, target, state),
        },
        Ty::Signature(_) | Ty::Ref(_) | Ty::Def(_) | Ty::Generic(_) | Ty::TableConst(_) =>
            rel_candidates(c, st, source, target, state),
        _ => None,
    }
}

/// Every signature of the target has to be met by one of the source.
pub open spec fn rel_candidates(
    c: RelScope,
    st: RelState,
    source: Ty,
    target: Ty,
    state: IntersectionState,
) -> Option<Rel>
    decreases relation::levels(c), 68nat, 0nat,
{
    match callable_types::call_candidates(c.db, source, callable_types::call_limit()) {
        None => None,
        Some(sources) => if target is Function {
            Some(relation::rel_ok(st))
        } else {
            match callable_types::call_candidates(c.db, target, callable_types::call_limit()) {
                None => None,
                Some(targets) => Some(
                    rel_signatures(c, st, source, target, sources, targets, 0, None, None, state),
                ),
            }
        },
    }
}

/// The outcome for one signature of the target.
pub enum SignatureFit {
    Fits,
    Open(OverflowKind),
    /// No signature fits; the first one that was found not to.
    Fails(Option<nat>),
}

/// Compares the signatures of the target from signature `k` on. The reason is taken from the first
/// one that is not met.
pub open spec fn rel_signatures(
    c: RelScope,
    st: RelState,
    source: Ty,
    target: Ty,
    sources: Seq<Ty>,
    targets: Seq<Ty>,
    k: nat,
    failed: Option<Option<(nat, nat)>>,
    first: Option<OverflowKind>,
    state: IntersectionState,
) -> Rel
    decreases relation::levels(c), 67nat, targets.len() - k,
{
    if k >= targets.len() {
        match failed {
            Some(Some((i, j))) => relation::rel_types(c, st, sources[i as int], targets[j as int], state),
            Some(None) => relation::rel_fail(c, st, relation::misfit(source, target)),
            None => relation::rel_settled(st, first),
        }
    } else {
        let (st1, fit) = rel_signature(c, st, sources, targets[k as int], 0, None, None, state);
        match fit {
            SignatureFit::Fits => rel_signatures(
                c,
                st1,
                source,
                target,
                sources,
                targets,
                k + 1,
                failed,
                first,
                state,
            ),
            SignatureFit::Open(kind) => rel_signatures(
                c,
                st1,
                source,
                target,
                sources,
                targets,
                k + 1,
                failed,
                relation::first_of(first, kind),
                state,
            ),
            SignatureFit::Fails(i) => if !c.explain {
                relation::rel_err(st1, RelationFailure::Unrelated)
            } else {
                rel_signatures(
                    c,
                    st1,
                    source,
                    target,
                    sources,
                    targets,
                    k + 1,
                    first_failed(failed, i, k),
                    first,
                    state,
                )
            },
        }
    }
}

/// The pair of signatures from which the reason is taken.
pub open spec fn first_failed(
    failed: Option<Option<(nat, nat)>>,
    i: Option<nat>,
    k: nat,
) -> Option<Option<(nat, nat)>> {
    match failed {
        Some(Some(pair)) => Some(Some(pair)),
        _ => match i {
            Some(i) => Some(Some((i, k))),
            None => Some(None),
        },
    }
}

/// Tries the signatures of the source, from signature `i` on, on one of the target.
pub open spec fn rel_signature(
    c: RelScope,
    st: RelState,
    sources: Seq<Ty>,
    target: Ty,
    i: nat,
    first: Option<OverflowKind>,
    failed: Option<nat>,
    state: IntersectionState,
) -> (RelState, SignatureFit)
    decreases relation::levels(c), 66nat, sources.len() - i,
{
    if i >= sources.len() {
        match first {
            Some(kind) => (st, SignatureFit::Open(kind)),
            None => (st, SignatureFit::Fails(failed)),
        }
    } else {
        let r = relation::rel_types(relation::quiet(c), st, sources[i as int], target, state);
        match r.res {
            Ok(_) => (r.st, SignatureFit::Fits),
            Err(RelationFailure::Indeterminate(kind)) => rel_signature(
                c,
                r.st,
                sources,
                target,
                i + 1,
                relation::first_of(first, kind),
                failed,
                state,
            ),
            Err(RelationFailure::Unrelated) => rel_signature(
                c,
                r.st,
                sources,
                target,
                i + 1,
                first,
                match failed {
                    Some(j) => Some(j),
                    None => Some(i),
                },
                state,
            ),
        }
    }
}

/// The parameters of a function as they are passed: a method has its receiver in front.
pub open spec fn passed_params(f: FunctionTy, with_self: bool) -> Seq<(Seq<char>, Option<Ty>)> {
    if with_self {
        seq![("self"@, None)] + f.params
    } else {
        f.params
    }
}

/// The receiver of the source is passed: both are methods, or the target names it.
pub open spec fn passes_self(source: FunctionTy, target: FunctionTy) -> bool {
    source.is_colon_define && (target.is_colon_define || (target.params.len() > 0
        && target.params[0].0 == "self"@))
}

pub open spec fn rel_function(
    c: RelScope,
    st: RelState,
    source: FunctionTy,
    target: FunctionTy,
    state: IntersectionState,
) -> Rel
    decreases relation::levels(c), 68nat, 0nat,
{
    rel_params(
        c,
        st,
        passed_params(source, passes_self(source, target)),
        passed_params(target, target.is_colon_define),
        0,
        state,
    )
}

/// Parameters are compared the other way round, from parameter `i` on: what the target is called
/// with has to fit what the source takes.
pub open spec fn rel_params(
    c: RelScope,
    st: RelState,
    source: Seq<(Seq<char>, Option<Ty>)>,
    target: Seq<(Seq<char>, Option<Ty>)>,
    i: nat,
    state: IntersectionState,
) -> Rel
    decreases relation::levels(c), 67nat, target.len() - i,
{
    if i >= target.len() || i >= source.len() {
        relation::rel_ok(st)
    } else if source[i as int].0 == "..."@ {
        match source[i as int].1 {
            Some(t) => rel_rest(c, st, t, target, i, state),
            None => relation::rel_ok(st),
        }
    } else if target[i as int].0 == "..."@ {
        relation::rel_ok(st)
    } else {
        match (source[i as int].1, target[i as int].1) {
            (Some(s), Some(t)) => if s is SelfInfer || t is SelfInfer {
                rel_params(c, st, source, target, i + 1, state)
            } else {
                let r = relation::rel_note(
                    c,
                    relation::rel_types(c, st, t, s, state),
                    MessageTy::FunctionParameter { index: i as usize },
                );
                if r.res is Err {
                    r
                } else {
                    rel_params(c, r.st, source, target, i + 1, state)
                }
            },
            _ => rel_params(c, st, source, target, i + 1, state),
        }
    }
}

/// All parameters of the target from parameter `i` on go into the rest of the source.
pub open spec fn rel_rest(
    c: RelScope,
    st: RelState,
    rest: Ty,
    target: Seq<(Seq<char>, Option<Ty>)>,
    i: nat,
    state: IntersectionState,
) -> Rel
    decreases relation::levels(c), 66nat, target.len() - i,
{
    if i >= target.len() {
        relation::rel_ok(st)
    } else {
        match target[i as int].1 {
            Some(t) => {
                let r = relation::rel_note(
                    c,
                    relation::rel_types(c, st, t, rest, state),
                    MessageTy::FunctionParameter { index: i as usize },
                );
                if r.res is Err {
                    r
                } else {
                    rel_rest(c, r.st, rest, target, i + 1, state)
                }
            },
            None => rel_rest(c, st, rest, target, i + 1, state),
        }
    }
}

pub fn relate_callable(
    relater: &mut Relater,
    source: &LuaType,
    target: &LuaType,
    intersection_state: IntersectionState,
) -> (r: Option<RelationResult>)
    ensures
        final(relater).may_have_done(
            *old(relater),
            relation::rel_opt(
                old(relater).state(),
                rel_callable(
                old(relater).scope(),
                old(relater).state(),
                source@,
                target@,
                intersection_state,
            ),
            ),
            r,
        ),
    decreases old(relater).scope().db.room, 12nat, old(relater).room_left(), 69nat, 0nat,
{
    match source {
        LuaType::Function => match callable_candidates(relater.db(), target, usize::MAX) {
            Some(_) => Some(Ok(())),
            None => None,
        },
        LuaType::DocFunction(source_func) => match target {
            LuaType::DocFunction(target_func) => Some(
                relate_function(relater, source_func, target_func, intersection_state),
            ),
            _ => relate_candidates(relater, source, target, intersection_state),
        },
        LuaType::Signature(_)
        | LuaType::Ref(_)
        | LuaType::Def(_)
        | LuaType::Generic(_)
        | LuaType::TableConst(_) => relate_candidates(relater, source, target, intersection_state),
        _ => None,
    }
}

fn relate_candidates(
    relater: &mut Relater,
    source: &LuaType,
    target: &LuaType,
    intersection_state: IntersectionState,
) -> (r: Option<RelationResult>)
    ensures
        final(relater).may_have_done(
            *old(relater),
            relation::rel_opt(
                old(relater).state(),
                rel_candidates(
                old(relater).scope(),
                old(relater).state(),
                source@,
                target@,
                intersection_state,
            ),
            ),
            r,
        ),
    decreases old(relater).scope().db.room, 12nat, old(relater).room_left(), 68nat, 0nat,
{
    let source_candidates = match callable_candidates(relater.db(), source, usize::MAX) {
        Some(candidates) => candidates,
        None => {
            return None;
        },
    };
    if let LuaType::Function = target {
        return Some(Ok(()));
    }
    match callable_candidates(relater.db(), target, usize::MAX) {
        Some(target_candidates) => Some(
            relate_to_callable_targets(
                relater,
                source,
                target,
                &source_candidates,
                &target_candidates,
                intersection_state,
            ),
        ),
        None => None,
    }
}

pub open spec fn opt_pair(pair: Option<Option<(usize, usize)>>) -> Option<Option<(nat, nat)>> {
    match pair {
        Some(Some((i, j))) => Some(Some((i as nat, j as nat))),
        Some(None) => Some(None),
        None => None,
    }
}

#[verifier::loop_isolation(false)]
fn relate_to_callable_targets(
    relater: &mut Relater,
    source: &LuaType,
    target: &LuaType,
    source_candidates: &Vec<LuaType>,
    target_candidates: &Vec<LuaType>,
    intersection_state: IntersectionState,
) -> (r: RelationResult)
    ensures
        final(relater).did(
            *old(relater),
            rel_signatures(
                old(relater).scope(),
                old(relater).state(),
                source@,
                target@,
                types::tys(source_candidates@),
                types::tys(target_candidates@),
                0,
                None,
                None,
                intersection_state,
            ),
            r,
        ),
    decreases old(relater).scope().db.room, 12nat, old(relater).room_left(), 67nat, target_candidates@.len(),
{
    let ghost c = relater.scope();
    let ghost sources = types::tys(source_candidates@);
    let ghost targets = types::tys(target_candidates@);
    let mut failed: Option<Option<(usize, usize)>> = None;
    let mut indeterminate: Option<OverflowKind> = None;
    let ghost whole = rel_signatures(
        c,
        relater.state(),
        source@,
        target@,
        sources,
        targets,
        0,
        opt_pair(failed),
        indeterminate,

        intersection_state,
    );
    let mut i: usize = 0;
    while i < target_candidates.len()
        invariant
            i <= target_candidates@.len(),
            relater.moved(*old(relater), relater.state()),
            whole == rel_signatures(
        c,
        relater.state(),
        source@,
        target@,
        sources,
        targets,
        i as nat,
        opt_pair(failed),
        indeterminate,

        intersection_state,
    ),
            failed matches Some(Some((a, b))) ==> a < source_candidates@.len() && b
                < target_candidates@.len(),
        decreases target_candidates@.len() - i,
    {

        assert(targets[i as int] == target_candidates@[i as int]@);
        match relate_to_callable_target(
            relater,
            source_candidates,
            &target_candidates[i],
            intersection_state,
        ) {
            TargetFit::Fits => {},
            TargetFit::Open(kind) => {
                if indeterminate.is_none() {
                    indeterminate = Some(kind);
                }
            },
            TargetFit::Fails(source_index) => {
                if !relater.is_explain() {
                    return Err(RelationFailure::Unrelated);
                }
                let known = matches!(failed, Some(Some(_)));
                if !known {
                    failed = Some(
                        match source_index {
                            Some(j) => Some((j, i)),
                            None => None,
                        },
                    );
                }
            },
        }
        i += 1;
    }
    match failed {
        Some(Some((source_index, target_index))) => {
            assert(sources[source_index as int] == source_candidates@[source_index as int]@);
            assert(targets[target_index as int] == target_candidates@[target_index as int]@);
            relater.relate(
                &source_candidates[source_index],
                &target_candidates[target_index],
                intersection_state,
            )
        },
        Some(None) => relater.fail_types(source, target),
        None => settle(indeterminate),
    }
}

/// The outcome for one signature of the target.
#[derive(Debug)]
pub enum TargetFit {
    Fits,
    Open(OverflowKind),
    Fails(Option<usize>),
}

pub open spec fn fit_ty(fit: TargetFit) -> SignatureFit {
    match fit {
        TargetFit::Fits => SignatureFit::Fits,
        TargetFit::Open(kind) => SignatureFit::Open(kind),
        TargetFit::Fails(i) => SignatureFit::Fails(intersection::opt_place(i)),
    }
}

#[verifier::loop_isolation(false)]
fn relate_to_callable_target(
    relater: &mut Relater,
    source_candidates: &Vec<LuaType>,
    target: &LuaType,
    intersection_state: IntersectionState,
) -> (r: TargetFit)
    ensures
        ({
            let (st, fit) = rel_signature(
                old(relater).scope(),
                old(relater).state(),
                types::tys(source_candidates@),
                target@,
                0,
                None,
                None,
                intersection_state,
            );
            final(relater).moved(*old(relater), st) && fit_ty(r) == fit
        }),
        r matches TargetFit::Fails(Some(i)) ==> i < source_candidates@.len(),
    decreases old(relater).scope().db.room, 12nat, old(relater).room_left(), 66nat, source_candidates@.len(),
{
    let ghost c = relater.scope();
    let ghost sources = types::tys(source_candidates@);
    let mut target_indeterminate: Option<OverflowKind> = None;
    let mut first_unrelated: Option<usize> = None;
    let ghost whole = rel_signature(
        c,
        relater.state(),
        sources,
        target@,
        0,
        target_indeterminate,
        intersection::opt_place(first_unrelated),

        intersection_state,
    );
    let mut i: usize = 0;
    while i < source_candidates.len()
        invariant
            i <= source_candidates@.len(),
            relater.moved(*old(relater), relater.state()),
            whole == rel_signature(
        c,
        relater.state(),
        sources,
        target@,
        i as nat,
        target_indeterminate,
        intersection::opt_place(first_unrelated),

        intersection_state,
    ),
            first_unrelated matches Some(k) ==> k < source_candidates@.len(),
        decreases source_candidates@.len() - i,
    {

        assert(sources[i as int] == source_candidates@[i as int]@);
        match relater.probe_relation(&source_candidates[i], target, intersection_state) {
            Ok(()) => {
                return TargetFit::Fits;
            },
            Err(RelationFailure::Indeterminate(kind)) => {
                if target_indeterminate.is_none() {
                    target_indeterminate = Some(kind);
                }
            },
            Err(RelationFailure::Unrelated) => {
                if first_unrelated.is_none() {
                    first_unrelated = Some(i);
                }
            },
        }
        i += 1;
    }
    match target_indeterminate {
        Some(kind) => TargetFit::Open(kind),
        None => TargetFit::Fails(first_unrelated),
    }
}

/// The parameters of a function as they are passed.
fn list_passed_params(f: &LuaFunctionType, with_self: bool) -> (r: Vec<(String, Option<LuaType>)>)
    ensures
        types::named_tys(r@) == passed_params(f@, with_self),
{
    assert(f@.params == types::named_tys(f.params@));
    let params = clone_named(&f.params);
    if !with_self {
        return params;
    }
    let mut r: Vec<(String, Option<LuaType>)> = Vec::new();
    let receiver: Option<LuaType> = None;
    r.push(("self".to_owned(), receiver));
    let mut rest = params;
    let ghost tail = rest@;
    r.append(&mut rest);
    proof {
        assert(types::named_tys(r@) =~= seq![("self"@, None::<Ty>)] + types::named_tys(tail));
    }
    r
}

fn passes_receiver(source_func: &LuaFunctionType, target_func: &LuaFunctionType) -> (r: bool)
    ensures
        r == passes_self(source_func@, target_func@),
{
    if !source_func.is_colon_define {
        return false;
    }
    assert(target_func@.params == types::named_tys(target_func.params@));
    target_func.is_colon_define || (target_func.params.len() > 0 && text_is(
        &target_func.params[0].0,
        "self",
    ))
}

fn relate_function(
    relater: &mut Relater,
    source_func: &LuaFunctionType,
    target_func: &LuaFunctionType,
    intersection_state: IntersectionState,
) -> (r: RelationResult)
    ensures
        final(relater).did(
            *old(relater),
            rel_function(
                old(relater).scope(),
                old(relater).state(),
                source_func@,
                target_func@,
                intersection_state,
            ),
            r,
        ),
    decreases old(relater).scope().db.room, 12nat, old(relater).room_left(), 68nat, 0nat,
{
    let source_params = list_passed_params(source_func, passes_receiver(source_func, target_func));
    let target_params = list_passed_params(target_func, target_func.is_colon_define);
    relate_params(relater, &source_params, &target_params, intersection_state)
}

#[verifier::loop_isolation(false)]
fn relate_params(
    relater: &mut Relater,
    source_params: &Vec<(String, Option<LuaType>)>,
    target_params: &Vec<(String, Option<LuaType>)>,
    intersection_state: IntersectionState,
) -> (r: RelationResult)
    ensures
        final(relater).did(
            *old(relater),
            rel_params(
                old(relater).scope(),
                old(relater).state(),
                types::named_tys(source_params@),
                types::named_tys(target_params@),
                0,
                intersection_state,
            ),
            r,
        ),
    decreases old(relater).scope().db.room, 12nat, old(relater).room_left(), 67nat, target_params@.len(),
{
    let ghost c = relater.scope();
    let ghost from = types::named_tys(source_params@);
    let ghost to = types::named_tys(target_params@);
    let ghost whole = rel_params(
        c,
        relater.state(),
        from,
        to,
        0,

        intersection_state,
    );
    let mut i: usize = 0;
    while i < target_params.len()
        invariant
            i <= target_params@.len(),
            relater.moved(*old(relater), relater.state()),
            whole == rel_params(
        c,
        relater.state(),
        from,
        to,
        i as nat,

        intersection_state,
    ),
        decreases target_params@.len() - i,
    {

        if i >= source_params.len() {
            return Ok(());
        }
        let (source_name, source_type) = &source_params[i];
        let (target_name, target_type) = &target_params[i];
        assert(from[i as int] == (source_name@, types::opt_ty(*source_type)));
        assert(to[i as int] == (target_name@, types::opt_ty(*target_type)));
        if text_is(source_name, "...") {
            return match source_type {
                Some(rest) => relate_rest(relater, rest, target_params, i, intersection_state),
                None => Ok(()),
            };
        }
        if text_is(target_name, "...") {
            return Ok(());
        }
        if let Some(source_type) = source_type {
            if let Some(target_type) = target_type {
                if !source_type.is_self_infer() && !target_type.is_self_infer() {
                    let result = relater.relate(target_type, source_type, intersection_state);
                    if let Err(failure) = relater.on_unrelated(
                        result,
                        ChainMessage::FunctionParameter { index: i },
                    ) {
                        return Err(failure);
                    }
                }
            }
        }
        i += 1;
    }
    Ok(())
}

#[verifier::loop_isolation(false)]
fn relate_rest(
    relater: &mut Relater,
    rest: &LuaType,
    target_params: &Vec<(String, Option<LuaType>)>,
    start: usize,
    intersection_state: IntersectionState,
) -> (r: RelationResult)
    requires
        start < target_params@.len(),
    ensures
        final(relater).did(
            *old(relater),
            rel_rest(
                old(relater).scope(),
                old(relater).state(),
                rest@,
                types::named_tys(target_params@),
                start as nat,
                intersection_state,
            ),
            r,
        ),
    decreases old(relater).scope().db.room, 12nat, old(relater).room_left(), 66nat, target_params@.len(),
{
    let ghost c = relater.scope();
    let ghost to = types::named_tys(target_params@);
    let ghost whole = rel_rest(
        c,
        relater.state(),
        rest@,
        to,
        start as nat,

        intersection_state,
    );
    let mut i: usize = start;
    while i < target_params.len()
        invariant
            i <= target_params@.len(),
            relater.moved(*old(relater), relater.state()),
            whole == rel_rest(
        c,
        relater.state(),
        rest@,
        to,
        i as nat,

        intersection_state,
    ),
        decreases target_params@.len() - i,
    {

        assert(to[i as int] == (target_params@[i as int].0@, types::opt_ty(target_params@[i as int].1)));
        if let Some(target_type) = &target_params[i].1 {
            let result = relater.relate(target_type, rest, intersection_state);
            if let Err(failure) = relater.on_unrelated(
                result,
                ChainMessage::FunctionParameter { index: i },
            ) {
                return Err(failure);
            }
        }
        i += 1;
    }
    Ok(())
}

} // verus!
