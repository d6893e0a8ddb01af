//! Going on with a question once what it waited for is known.

use vstd::prelude::*;

use crate::{db, types};
use crate::db::{DbIndex, DbTy, TypeOps};
use crate::flow::{assign, engine, query, replay, state};
use crate::flow::assign::{
    can_reuse_narrowed_assignment_source, finish_assignment_result,
    integer_enum_assignment_declared_type, preserves_assignment_expr_type,
};
use crate::flow::engine::start_expr_replay;
use crate::flow::query::{
    CacheEntry, FlowId, FlowMode, FlowQuery, FlowQueryResult, ResultTy, SyntaxId, VarRefId,
};
use crate::flow::replay::FlowReplayQuery;
use crate::flow::state::{
    ConditionCache, ConditionKey, ConditionTy, Continuation, ContinuationTy, FlowExprReplay,
    FlowStep, PendingConditionNarrow, PendingTy, PurposeTy, QueryWalk, SettledAction, SettledTy,
    StepTy, WalkTy,
};
use crate::member::raw;
use crate::member::raw::InferFailReason;
use crate::types::{LuaType, Ty, predicates};

verus! {

/// What is known of the types around an assignment: the type of the variable, and what narrowing by
/// the type of the expression leaves of it without false and nil, of the type before, and of the type
/// before without regard to the type of the variable.
#[derive(Debug)]
pub struct TypeFacts {
    pub origin: Option<LuaType>,
    pub slot: Option<LuaType>,
    pub narrowed: Option<LuaType>,
    pub narrowed_alone: Option<LuaType>,
}

pub struct FactsTy {
    pub origin: Option<Ty>,
    pub slot: Option<Ty>,
    pub narrowed: Option<Ty>,
    pub narrowed_alone: Option<Ty>,
}

impl View for TypeFacts {
    type V = FactsTy;

    open spec fn view(&self) -> FactsTy {
        FactsTy {
            origin: types::opt_ty(self.origin),
            slot: types::opt_ty(self.slot),
            narrowed: types::opt_ty(self.narrowed),
            narrowed_alone: types::opt_ty(self.narrowed_alone),
        }
    }
}

pub open spec fn at_place(query: FlowQuery, flow_id: FlowId, mode: FlowMode) -> FlowQuery {
    FlowQuery { var_ref_id: query.var_ref_id, flow_id, mode }
}

/// The answer of an assignment. A branch contributes it only if the assignment can be reached.
pub open spec fn assigned_step(walk: WalkTy, antecedent: FlowId, t: Ty) -> StepTy {
    if walk.query.mode == FlowMode::MergeBranch {
        StepTy::Start {
            query: at_place(walk.query, antecedent, FlowMode::MergeBranch),
            waiting: ContinuationTy::AssignmentReachability { walk, result_type: t },
        }
    } else {
        StepTy::Finish { walk, found: t }
    }
}

fn finish_assigned(walk: QueryWalk, antecedent: FlowId, result_type: LuaType) -> (r: FlowStep)
    ensures
        r@ == assigned_step(walk@, antecedent, result_type@),
{
    if walk.query.mode == FlowMode::MergeBranch {
        return start_assignment_reachability(walk, antecedent, result_type);
    }
    FlowStep::Finish { walk, found: result_type }
}

/// Asks whether an assignment can be reached.
pub fn start_assignment_reachability(walk: QueryWalk, antecedent: FlowId, result_type: LuaType) -> (r:
    FlowStep)
    ensures
        r@ == (StepTy::Start {
            query: at_place(walk@.query, antecedent, FlowMode::MergeBranch),
            waiting: ContinuationTy::AssignmentReachability {
                walk: walk@,
                result_type: result_type@,
            },
        }),
{
    let query = walk.query.at_flow(antecedent, FlowMode::MergeBranch);
    FlowStep::Start { query, waiting: Continuation::AssignmentReachability { walk, result_type } }
}

/// The mode in which the type before an assignment is asked for.
pub open spec fn antecedent_mode(mode: FlowMode, reuse: bool) -> FlowMode {
    if mode == FlowMode::MergeBranch {
        FlowMode::MergeBranch
    } else if reuse {
        FlowMode::Normal
    } else {
        FlowMode::IgnoreConditions
    }
}

/// An assignment whose expression has the given type: with a declared type, that is narrowed; a broad
/// type replaces the type before; otherwise the type before is asked for.
pub open spec fn expr_type_step(
    db: DbTy,
    walk: WalkTy,
    antecedent: FlowId,
    explicit: Option<Ty>,
    expr: Ty,
    facts: FactsTy,
) -> StepTy {
    match explicit {
        Some(declared) => assigned_step(
            walk,
            antecedent,
            assign::assigned_type(declared, expr, facts.slot, facts.narrowed, true, Some(declared)),
        ),
        None => match assign::kept_enum(db, facts.origin, expr) {
            Some(t) => StepTy::Finish { walk, found: t },
            None => if !(expr is Unknown) && !assign::keeps_type(expr) && walk.query.mode
                != FlowMode::MergeBranch {
                StepTy::Finish { walk, found: expr }
            } else {
                StepTy::Start {
                    query: at_place(
                        walk.query,
                        antecedent,
                        antecedent_mode(walk.query.mode, assign::keeps_type(expr)),
                    ),
                    waiting: ContinuationTy::AssignmentAntecedent {
                        walk,
                        antecedent,
                        expr_type: expr,
                        reuse: assign::keeps_type(expr),
                    },
                }
            },
        },
    }
}

pub fn finish_assignment_expr_type(
    db: &DbIndex,
    walk: QueryWalk,
    antecedent_flow_id: FlowId,
    explicit_var_type: Option<LuaType>,
    expr_type: LuaType,
    facts: &TypeFacts,
) -> (r: FlowStep)
    ensures
        r@ == expr_type_step(
            db@,
            walk@,
            antecedent_flow_id,
            types::opt_ty(explicit_var_type),
            expr_type@,
            facts@,
        ),
{
    if explicit_var_type.is_some() {
        let result_type = match &explicit_var_type {
            Some(declared) => finish_assignment_result(
                declared,
                &expr_type,
                &facts.slot,
                &facts.narrowed,
                true,
                &explicit_var_type,
            ),
            None => LuaType::Unknown,
        };
        return finish_assigned(walk, antecedent_flow_id, result_type);
    }
    if let Some(declared) = integer_enum_assignment_declared_type(db, &facts.origin, &expr_type) {
        return FlowStep::Finish { walk, found: declared };
    }
    let reuse = preserves_assignment_expr_type(&expr_type);
    if !expr_type.is_unknown() && !reuse && walk.query.mode != FlowMode::MergeBranch {
        return FlowStep::Finish { walk, found: expr_type };
    }
    let mode = if walk.query.mode == FlowMode::MergeBranch {
        FlowMode::MergeBranch
    } else if reuse {
        FlowMode::Normal
    } else {
        FlowMode::IgnoreConditions
    };
    let query = walk.query.at_flow(antecedent_flow_id, mode);
    FlowStep::Start {
        query,
        waiting: Continuation::AssignmentAntecedent {
            walk,
            antecedent: antecedent_flow_id,
            expr_type,
            reuse,
        },
    }
}

/// The type of a variable whose assigned expression could not be typed: a field keeps its type
/// without nil, what is not there is nil.
pub open spec fn fallback_of(var: VarRefId, reason: InferFailReason, origin: Option<Ty>) -> Option<
    Ty,
> {
    if var.is_index_ref && origin is Some {
        let without_nil = db::remove_ty(origin.unwrap(), Ty::Nil);
        if without_nil is Never {
            origin
        } else {
            Some(without_nil)
        }
    } else if reason == InferFailReason::FieldNotFound || reason == InferFailReason::Unsupported {
        Some(Ty::Nil)
    } else {
        None
    }
}

pub open spec fn expr_error_step(
    db: DbTy,
    walk: WalkTy,
    antecedent: FlowId,
    explicit: Option<Ty>,
    reason: InferFailReason,
    facts: FactsTy,
) -> StepTy {
    if explicit is Some {
        expr_type_step(db, walk, antecedent, explicit, Ty::Unknown, facts)
    } else {
        match fallback_of(walk.query.var_ref_id, reason, facts.origin) {
            Some(t) => assigned_step(walk, antecedent, t),
            None => StepTy::Walk(WalkTy { at: antecedent, ..walk }),
        }
    }
}

fn find_fallback(var: VarRefId, reason: InferFailReason, origin: &Option<LuaType>) -> (r: Option<
    LuaType,
>)
    ensures
        types::opt_ty(r) == fallback_of(var, reason, types::opt_ty(*origin)),
{
    if var.is_index_ref {
        if let Some(origin) = origin {
            let without_nil = TypeOps::remove(origin, &LuaType::Nil);
            if without_nil.is_never() {
                return Some(origin.clone());
            }
            return Some(without_nil);
        }
    }
    if reason == InferFailReason::FieldNotFound || reason == InferFailReason::Unsupported {
        return Some(LuaType::Nil);
    }
    None
}

pub fn finish_assignment_expr_error(
    db: &DbIndex,
    walk: QueryWalk,
    antecedent_flow_id: FlowId,
    explicit_var_type: Option<LuaType>,
    reason: InferFailReason,
    facts: &TypeFacts,
) -> (r: FlowStep)
    ensures
        r@ == expr_error_step(
            db@,
            walk@,
            antecedent_flow_id,
            types::opt_ty(explicit_var_type),
            reason,
            facts@,
        ),
{
    if explicit_var_type.is_some() {
        return finish_assignment_expr_type(
            db,
            walk,
            antecedent_flow_id,
            explicit_var_type,
            LuaType::Unknown,
            facts,
        );
    }
    match find_fallback(walk.query.var_ref_id, reason, &facts.origin) {
        Some(t) => finish_assigned(walk, antecedent_flow_id, t),
        None => FlowStep::Walk(walk.moved_to(antecedent_flow_id)),
    }
}

/// The type before an assignment is known.
pub open spec fn antecedent_step(
    db: DbTy,
    walk: WalkTy,
    antecedent: FlowId,
    expr: Ty,
    reuse: bool,
    answer: Result<ResultTy, InferFailReason>,
    facts: FactsTy,
) -> StepTy {
    match answer {
        Err(reason) => StepTy::Fail { query: walk.query, reason },
        Ok(ResultTy::Unreachable) => StepTy::Unreachable(walk.query),
        Ok(ResultTy::Type(before)) => if reuse && !assign::is_reusable(
            db,
            before,
            expr,
            facts.narrowed_alone,
        ) {
            StepTy::Start {
                query: at_place(walk.query, antecedent, FlowMode::IgnoreConditions),
                waiting: ContinuationTy::AssignmentAntecedent {
                    walk,
                    antecedent,
                    expr_type: expr,
                    reuse: false,
                },
            }
        } else {
            StepTy::Finish {
                walk,
                found: assign::assigned_type(before, expr, facts.slot, facts.narrowed, reuse, None),
            }
        },
    }
}

pub open spec fn res_result(r: Result<FlowQueryResult, InferFailReason>) -> Result<
    ResultTy,
    InferFailReason,
> {
    match r {
        Ok(r) => Ok(r@),
        Err(reason) => Err(reason),
    }
}

pub fn resume_assignment_antecedent(
    db: &DbIndex,
    walk: QueryWalk,
    antecedent_flow_id: FlowId,
    expr_type: LuaType,
    reuse: bool,
    answer: Result<FlowQueryResult, InferFailReason>,
    facts: &TypeFacts,
) -> (r: FlowStep)
    ensures
        r@ == antecedent_step(
            db@,
            walk@,
            antecedent_flow_id,
            expr_type@,
            reuse,
            res_result(answer),
            facts@,
        ),
{
    let before = match answer {
        Ok(FlowQueryResult::Type(t)) => t,
        Ok(FlowQueryResult::Unreachable) => {
            return FlowStep::Unreachable(walk.query);
        },
        Err(reason) => {
            return FlowStep::Fail { query: walk.query, reason };
        },
    };
    if reuse && !can_reuse_narrowed_assignment_source(
        db,
        &before,
        &expr_type,
        &facts.narrowed_alone,
    ) {
        let query = walk.query.at_flow(antecedent_flow_id, FlowMode::IgnoreConditions);
        return FlowStep::Start {
            query,
            waiting: Continuation::AssignmentAntecedent {
                walk,
                antecedent: antecedent_flow_id,
                expr_type,
                reuse: false,
            },
        };
    }
    let found = finish_assignment_result(
        &before,
        &expr_type,
        &facts.slot,
        &facts.narrowed,
        reuse,
        &None,
    );
    FlowStep::Finish { walk, found }
}

/// One branch is known: its type is added, and the branch before it is asked for.
pub open spec fn merge_step(
    walk: WalkTy,
    branches: Seq<FlowId>,
    next_pending: usize,
    merged: Ty,
    answer: Result<ResultTy, InferFailReason>,
) -> StepTy {
    match answer {
        Err(reason) => StepTy::Fail { query: walk.query, reason },
        Ok(r) => {
            let all = db::union_ty(merged, query::type_of_result(r));
            if next_pending == 0 || next_pending > branches.len() {
                StepTy::Finish { walk, found: all }
            } else {
                StepTy::Start {
                    query: at_place(
                        walk.query,
                        branches[next_pending - 1],
                        query::merge_mode(walk.query.mode),
                    ),
                    waiting: ContinuationTy::Merge {
                        walk,
                        branches,
                        next_pending: (next_pending - 1) as usize,
                        merged: all,
                    },
                }
            }
        },
    }
}

pub fn resume_merge(
    walk: QueryWalk,
    branches: Vec<FlowId>,
    next_pending: usize,
    merged: LuaType,
    answer: Result<FlowQueryResult, InferFailReason>,
) -> (r: FlowStep)
    ensures
        r@ == merge_step(walk@, branches@, next_pending, merged@, res_result(answer)),
{
    let branch_type = match answer {
        Ok(r) => r.into_type(),
        Err(reason) => {
            return FlowStep::Fail { query: walk.query, reason };
        },
    };
    let merged = TypeOps::union(&merged, &branch_type);
    if next_pending == 0 || next_pending > branches.len() {
        return FlowStep::Finish { walk, found: merged };
    }
    let next_pending = next_pending - 1;
    let query = walk.query.at_flow(
        branches[next_pending],
        walk.query.mode.for_merge_contribution(),
    );
    FlowStep::Start { query, waiting: Continuation::Merge { walk, branches, next_pending, merged } }
}

/// An expression could not be prepared.
pub open spec fn replay_error_step(
    db: DbTy,
    walk: WalkTy,
    purpose: PurposeTy,
    reason: InferFailReason,
    facts: FactsTy,
) -> StepTy {
    match purpose {
        PurposeTy::Assignment { antecedent, explicit, result_slot: _ } => expr_error_step(
            db,
            walk,
            antecedent,
            explicit,
            reason,
            facts,
        ),
        PurposeTy::DeclInitializer { .. } => StepTy::Fail { query: walk.query, reason },
        PurposeTy::Condition { key, resume: _ } => StepTy::FailCondition {
            query: walk.query,
            key,
            reason,
        },
        PurposeTy::FieldConditionKey { key, field: _ } => StepTy::FailCondition {
            query: walk.query,
            key,
            reason,
        },
    }
}

pub fn finish_expr_replay_error(
    db: &DbIndex,
    walk: QueryWalk,
    purpose: FlowExprReplay,
    reason: InferFailReason,
    facts: &TypeFacts,
) -> (r: FlowStep)
    ensures
        r@ == replay_error_step(db@, walk@, purpose@, reason, facts@),
{
    match purpose {
        FlowExprReplay::Assignment { antecedent, explicit, result_slot: _ } =>
            finish_assignment_expr_error(db, walk, antecedent, explicit, reason, facts),
        FlowExprReplay::DeclInitializer { .. } => FlowStep::Fail { query: walk.query, reason },
        FlowExprReplay::Condition { key, resume: _ } => FlowStep::FailCondition {
            query: walk.query,
            key,
            reason,
        },
        FlowExprReplay::FieldConditionKey { key, field: _ } => FlowStep::FailCondition {
            query: walk.query,
            key,
            reason,
        },
    }
}

/// An expression is typed, or could not be.
pub open spec fn replayed_step(
    db: DbTy,
    walk: WalkTy,
    purpose: PurposeTy,
    flow_id: FlowId,
    replayed: Result<Option<Ty>, InferFailReason>,
    facts: FactsTy,
) -> StepTy {
    match purpose {
        PurposeTy::Assignment { antecedent, explicit, result_slot: slot } => match replayed {
            Ok(Some(t)) => expr_type_step(
                db,
                walk,
                antecedent,
                explicit,
                match predicates::result_slot(t, slot as nat) {
                    Some(t) => t,
                    None => Ty::Nil,
                },
                facts,
            ),
            Ok(None) => expr_type_step(db, walk, antecedent, explicit, Ty::Unknown, facts),
            Err(reason) => expr_error_step(db, walk, antecedent, explicit, reason, facts),
        },
        PurposeTy::DeclInitializer { fail_reason } => match replayed {
            Ok(Some(t)) => match predicates::result_slot(t, 0) {
                Some(found) => StepTy::Finish { walk, found },
                None => StepTy::Fail { query: walk.query, reason: fail_reason },
            },
            Ok(None) => StepTy::Fail { query: walk.query, reason: fail_reason },
            Err(reason) => StepTy::Fail { query: walk.query, reason },
        },
        PurposeTy::Condition { key, resume } => match replayed {
            Ok(Some(t)) => StepTy::ResolveExprType { walk, key, resume, flow_id, expr_type: t },
            Ok(None) => StepTy::Walk(walk),
            Err(reason) => if reason == InferFailReason::FieldNotFound || reason
                == InferFailReason::Unsupported {
                StepTy::Walk(walk)
            } else {
                StepTy::FailCondition { query: walk.query, key, reason }
            },
        },
        PurposeTy::FieldConditionKey { key, field } => match replayed {
            Ok(key_type) => engine::settled_step(
                walk,
                SettledTy::Pending(PendingTy::Field { field, key_type }),
            ),
            Err(reason) => StepTy::FailCondition { query: walk.query, key, reason },
        },
    }
}

/// What a condition is found to say once an expression is typed: nothing, where the expression has no
/// type; of a field, what it says of the field under the key of that type.
pub open spec fn replayed_record(
    purpose: PurposeTy,
    replayed: Result<Option<Ty>, InferFailReason>,
) -> Option<(ConditionKey, SettledTy)> {
    match purpose {
        PurposeTy::Condition { key, resume: _ } => match replayed {
            Ok(Some(_)) => None,
            Ok(None) => Some((key, SettledTy::Continue)),
            Err(reason) => if reason == InferFailReason::FieldNotFound || reason
                == InferFailReason::Unsupported {
                Some((key, SettledTy::Continue))
            } else {
                None
            },
        },
        PurposeTy::FieldConditionKey { key, field } => match replayed {
            Ok(key_type) => Some((key, SettledTy::Pending(PendingTy::Field { field, key_type }))),
            Err(_) => None,
        },
        _ => None,
    }
}

pub open spec fn res_opt_ty(r: Result<Option<LuaType>, InferFailReason>) -> Result<
    Option<Ty>,
    InferFailReason,
> {
    match r {
        Ok(t) => Ok(types::opt_ty(t)),
        Err(reason) => Err(reason),
    }
}

fn finish_assignment_expr(
    db: &DbIndex,
    walk: QueryWalk,
    antecedent: FlowId,
    explicit: Option<LuaType>,
    slot: usize,
    replayed: Result<Option<LuaType>, InferFailReason>,
    facts: &TypeFacts,
) -> (r: FlowStep)
    ensures
        r@ == replayed_step(
            db@,
            walk@,
            (PurposeTy::Assignment { antecedent, explicit: types::opt_ty(explicit), result_slot: slot }),
            antecedent,
            res_opt_ty(replayed),
            facts@,
        ),
{
    let expr_type = match replayed {
        Ok(Some(t)) => match t.get_result_slot_type(slot) {
            Some(t) => t,
            None => LuaType::Nil,
        },
        Ok(None) => LuaType::Unknown,
        Err(reason) => {
            return finish_assignment_expr_error(db, walk, antecedent, explicit, reason, facts);
        },
    };
    finish_assignment_expr_type(db, walk, antecedent, explicit, expr_type, facts)
}

/// Goes on once an expression is typed, or could not be.
pub fn finish_expr_replay(
    db: &DbIndex,
    conditions: &mut ConditionCache,
    walk: QueryWalk,
    purpose: FlowExprReplay,
    flow_id: FlowId,
    replayed: Result<Option<LuaType>, InferFailReason>,
    facts: &TypeFacts,
) -> (r: FlowStep)
    ensures
        r@ == replayed_step(db@, walk@, purpose@, flow_id, res_opt_ty(replayed), facts@),
        final(conditions)@ == (match replayed_record(purpose@, res_opt_ty(replayed)) {
            Some((key, said)) => state::recorded_condition(
                old(conditions)@,
                key,
                Some(ConditionTy::Cache(said)),
            ),
            None => old(conditions)@,
        }),
{
    match purpose {
        FlowExprReplay::Assignment { antecedent, explicit, result_slot } => finish_assignment_expr(
            db,
            walk,
            antecedent,
            explicit,
            result_slot,
            replayed,
            facts,
        ),
        FlowExprReplay::DeclInitializer { fail_reason } => match replayed {
            Ok(Some(t)) => match t.get_result_slot_type(0) {
                Some(found) => FlowStep::Finish { walk, found },
                None => FlowStep::Fail { query: walk.query, reason: fail_reason },
            },
            Ok(None) => FlowStep::Fail { query: walk.query, reason: fail_reason },
            Err(reason) => FlowStep::Fail { query: walk.query, reason },
        },
        FlowExprReplay::Condition { key, resume } => match replayed {
            Ok(Some(t)) => FlowStep::ResolveExprType { walk, key, resume, flow_id, expr_type: t },
            Ok(None) => {
                conditions.put(key, Some(CacheEntry::Cache(SettledAction::Continue)));
                FlowStep::Walk(walk)
            },
            Err(reason) => {
                if reason == InferFailReason::FieldNotFound || reason
                    == InferFailReason::Unsupported {
                    conditions.put(key, Some(CacheEntry::Cache(SettledAction::Continue)));
                    return FlowStep::Walk(walk);
                }
                FlowStep::FailCondition { query: walk.query, key, reason }
            },
        },
        FlowExprReplay::FieldConditionKey { key, field } => match replayed {
            Ok(key_type) => {
                let pending = PendingConditionNarrow::Field { field, key_type };
                conditions.put(
                    key,
                    Some(CacheEntry::Cache(SettledAction::Pending(pending.duplicate()))),
                );
                FlowStep::Walk(walk.with_pending(pending))
            },
            Err(reason) => FlowStep::FailCondition { query: walk.query, key, reason },
        },
    }
}

pub open spec fn type_answer(answer: Result<ResultTy, InferFailReason>) -> Result<
    Ty,
    InferFailReason,
> {
    match answer {
        Ok(r) => Ok(query::type_of_result(r)),
        Err(reason) => Err(reason),
    }
}

/// A question goes on with the answer that it waited for.
pub open spec fn resumed(
    db: DbTy,
    waiting: ContinuationTy,
    answer: Result<ResultTy, InferFailReason>,
    facts: FactsTy,
) -> StepTy {
    match waiting {
        ContinuationTy::Merge { walk, branches, next_pending, merged } => merge_step(
            walk,
            branches,
            next_pending,
            merged,
            answer,
        ),
        ContinuationTy::AssignmentAntecedent { walk, antecedent, expr_type, reuse } =>
            antecedent_step(db, walk, antecedent, expr_type, reuse, answer, facts),
        ContinuationTy::AssignmentReachability { walk, result_type } => match answer {
            Ok(ResultTy::Unreachable) => StepTy::Unreachable(walk.query),
            Ok(ResultTy::Type(_)) => StepTy::Finish { walk, found: result_type },
            Err(reason) => StepTy::Fail { query: walk.query, reason },
        },
        ContinuationTy::ExprReplay { walk, purpose, replay } => match replay::with_answer(
            replay,
            type_answer(answer),
        ) {
            Ok(next) => engine::replay_step(walk, purpose, next),
            Err(reason) => replay_error_step(db, walk, purpose, reason, facts),
        },
        ContinuationTy::TagCastAntecedent { walk, cast } => match answer {
            Ok(ResultTy::Type(t)) => StepTy::Cast { walk, cast, input: t },
            Ok(ResultTy::Unreachable) => StepTy::Unreachable(walk.query),
            Err(reason) => if reason is NeedResolve {
                StepTy::Fail { query: walk.query, reason }
            } else {
                StepTy::Cast { walk, cast, input: Ty::Unknown }
            },
        },
        ContinuationTy::ConditionDependency { walk, key, subquery } => StepTy::ResolveSubquery {
            walk,
            key,
            subquery,
            answer: type_answer(answer),
        },
        ContinuationTy::FieldLiteralSiblingDependency { walk, key, sibling } => match answer {
            Ok(r) => StepTy::ResolveSibling { walk, key, sibling, sibling_type: query::type_of_result(r) },
            Err(reason) => StepTy::FailCondition { query: walk.query, key, reason },
        },
        ContinuationTy::CorrelatedSearchRoot { walk, key, correlated } =>
            StepTy::ResolveCorrelated { walk, key, correlated, answer: type_answer(answer) },
    }
}

pub fn into_type_answer(answer: Result<FlowQueryResult, InferFailReason>) -> (r: Result<
    LuaType,
    InferFailReason,
>)
    ensures
        raw::res_ty(r) == type_answer(res_result(answer)),
{
    match answer {
        Ok(r) => Ok(r.into_type()),
        Err(reason) => Err(reason),
    }
}

fn resume_expr_replay(
    db: &DbIndex,
    walk: QueryWalk,
    purpose: FlowExprReplay,
    replay: FlowReplayQuery,
    answer: Result<LuaType, InferFailReason>,
    facts: &TypeFacts,
) -> (r: FlowStep)
    ensures
        r@ == (match replay::with_answer(replay@, raw::res_ty(answer)) {
            Ok(next) => engine::replay_step(walk@, purpose@, next),
            Err(reason) => replay_error_step(db@, walk@, purpose@, reason, facts@),
        }),
{
    let mut replay = replay;
    match replay.accept_result(answer) {
        Ok(()) => start_expr_replay(walk, purpose, replay),
        Err(reason) => finish_expr_replay_error(db, walk, purpose, reason, facts),
    }
}

fn resume_tag_cast_antecedent(
    walk: QueryWalk,
    cast: SyntaxId,
    answer: Result<FlowQueryResult, InferFailReason>,
) -> (r: FlowStep)
    ensures
        r@ == (match res_result(answer) {
            Ok(ResultTy::Type(t)) => StepTy::Cast { walk: walk@, cast, input: t },
            Ok(ResultTy::Unreachable) => StepTy::Unreachable(walk@.query),
            Err(reason) => if reason is NeedResolve {
                StepTy::Fail { query: walk@.query, reason }
            } else {
                StepTy::Cast { walk: walk@, cast, input: Ty::Unknown }
            },
        }),
{
    match answer {
        Ok(FlowQueryResult::Type(t)) => FlowStep::Cast { walk, cast, input: t },
        Ok(FlowQueryResult::Unreachable) => FlowStep::Unreachable(walk.query),
        Err(reason) => {
            if let InferFailReason::NeedResolve(_) = reason {
                return FlowStep::Fail { query: walk.query, reason };
            }
            FlowStep::Cast { walk, cast, input: LuaType::Unknown }
        },
    }
}

/// Goes on with the question that waited for an answer.
pub fn resume_next(
    db: &DbIndex,
    waiting: Continuation,
    answer: Result<FlowQueryResult, InferFailReason>,
    facts: &TypeFacts,
) -> (r: FlowStep)
    ensures
        r@ == resumed(db@, waiting@, res_result(answer), facts@),
{
    match waiting {
        Continuation::Merge { walk, branches, next_pending, merged } => resume_merge(
            walk,
            branches,
            next_pending,
            merged,
            answer,
        ),
        Continuation::AssignmentAntecedent { walk, antecedent, expr_type, reuse } =>
            resume_assignment_antecedent(db, walk, antecedent, expr_type, reuse, answer, facts),
        Continuation::AssignmentReachability { walk, result_type } => match answer {
            Ok(FlowQueryResult::Unreachable) => FlowStep::Unreachable(walk.query),
            Ok(FlowQueryResult::Type(_)) => FlowStep::Finish { walk, found: result_type },
            Err(reason) => FlowStep::Fail { query: walk.query, reason },
        },
        Continuation::ExprReplay { walk, purpose, replay } => resume_expr_replay(
            db,
            walk,
            purpose,
            replay,
            into_type_answer(answer),
            facts,
        ),
        Continuation::TagCastAntecedent { walk, cast } => resume_tag_cast_antecedent(
            walk,
            cast,
            answer,
        ),
        Continuation::ConditionDependency { walk, key, subquery } => FlowStep::ResolveSubquery {
            walk,
            key,
            subquery,
            answer: into_type_answer(answer),
        },
        Continuation::FieldLiteralSiblingDependency { walk, key, sibling } => match answer {
            Ok(r) => FlowStep::ResolveSibling { walk, key, sibling, sibling_type: r.into_type() },
            Err(reason) => FlowStep::FailCondition { query: walk.query, key, reason },
        },
        Continuation::CorrelatedSearchRoot { walk, key, correlated } =>
            FlowStep::ResolveCorrelated {
            walk,
            key,
            correlated,
            answer: into_type_answer(answer),
        },
    }
}

/// A branch that cannot be reached adds nothing where branches meet.
pub proof fn unreachable_branch_adds_nothing(
    walk: WalkTy,
    branches: Seq<FlowId>,
    merged: Ty,
)
    ensures
        merge_step(walk, branches, 0, merged, Ok(ResultTy::Unreachable)) == (StepTy::Finish {
            walk,
            found: merged,
        }),
{
    db::union_with_never(merged);
}

/// An assignment that cannot be reached has no answer, whatever it assigns.
pub proof fn unreachable_assignment_has_no_answer(
    db: DbTy,
    walk: WalkTy,
    antecedent: FlowId,
    expr: Ty,
    reuse: bool,
    facts: FactsTy,
)
    ensures
        antecedent_step(db, walk, antecedent, expr, reuse, Ok(ResultTy::Unreachable), facts)
            == StepTy::Unreachable(walk.query),
{
}

} // verus!
