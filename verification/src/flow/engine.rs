//! Beginning and ending questions, and what conditions on the way say.

use vstd::prelude::*;

use crate::types;
use crate::flow::{query, replay, state, tree};
use crate::flow::query::{
    CacheEntry, EntryStateTy, FlowId, FlowMode, FlowQuery, FlowQueryResult, ResultTy, TypeCache,
};
use crate::flow::replay::{FlowReplayQuery, ReplayTy};
use crate::flow::state::{
    ActionTy, ConditionCache, ConditionFlowAction, ConditionKey, ConditionTy, Continuation,
    ContinuationTy, FlowExprReplay, FlowStep, PendingConditionNarrow, PendingTy, PurposeTy,
    QueryWalk, SettledAction, SettledTy, StepTy, WalkTy,
};
use crate::flow::tree::{ExprTy, FlowExpr};
use crate::member::raw::InferFailReason;
use crate::types::{LuaType, Ty};

verus! {

// ----------------------------------------------------------------------------
// Answers.

/// A condition made a branch impossible on the way from one type of a list to the next.
pub open spec fn was_emptied(types: Seq<Ty>) -> bool {
    exists|i: int|
        0 <= i < types.len() - 1 && !(#[trigger] types[i] is Never) && types[i + 1] is Never
}

/// The answer to a question, given the types from what was found to what the last condition left of
/// it. A branch that a condition made impossible cannot be reached.
pub open spec fn answered(query: FlowQuery, types: Seq<Ty>) -> ResultTy {
    if query.mode == FlowMode::IgnoreConditions {
        ResultTy::Type(types[0])
    } else if query.mode == FlowMode::MergeBranch && was_emptied(types) {
        ResultTy::Unreachable
    } else {
        ResultTy::Type(types.last())
    }
}

fn is_emptied(types: &Vec<LuaType>) -> (r: bool)
    ensures
        r == was_emptied(types::tys(types@)),
{
    let ghost all = types::tys(types@);
    let mut i: usize = 1;
    while i < types.len()
        invariant
            1 <= i,
            all == types::tys(types@),
            i <= types@.len() || i == 1,
            forall|j: int|
                0 <= j < i - 1 && j < all.len() - 1 ==> !(!(#[trigger] all[j] is Never)
                    && all[j + 1] is Never),
        decreases types@.len() - i,
    {
        assert(all[i - 1] == types@[i - 1]@ && all[i as int] == types@[i as int]@);
        if !types[i - 1].is_never() && types[i].is_never() {
            assert(was_emptied(all)) by {
                assert(!(all[i - 1] is Never) && all[i - 1 + 1] is Never);
            }
            return true;
        }
        i += 1;
    }
    false
}

/// Answers a question, and records the answer.
pub fn finish_walk(cache: &mut TypeCache, query: FlowQuery, types: &Vec<LuaType>) -> (r:
    FlowQueryResult)
    requires
        types@.len() > 0,
    ensures
        r@ == answered(query, types::tys(types@)),
        final(cache)@ == query::recorded(old(cache)@, query, Some(EntryStateTy::Cache(r@))),
{
    assert(types::tys(types@)[0] == types@[0]@);
    assert(types::tys(types@).last() == types@[types@.len() - 1]@);
    let result = if query.mode == FlowMode::IgnoreConditions {
        FlowQueryResult::Type(types[0].clone())
    } else if query.mode == FlowMode::MergeBranch && is_emptied(types) {
        FlowQueryResult::Unreachable
    } else {
        FlowQueryResult::Type(types[types.len() - 1].clone())
    };
    cache.put(query, Some(CacheEntry::Cache(result.duplicate())));
    result
}

/// Answers that a place cannot be reached, and records it.
pub fn finish_unreachable_branch(cache: &mut TypeCache, query: FlowQuery) -> (r: FlowQueryResult)
    ensures
        r@ == ResultTy::Unreachable,
        final(cache)@ == query::recorded(old(cache)@, query, Some(EntryStateTy::Cache(r@))),
{
    cache.put(query, Some(CacheEntry::Cache(FlowQueryResult::Unreachable)));
    FlowQueryResult::Unreachable
}

/// Gives a question up, so that it may be asked again.
pub fn fail_query(cache: &mut TypeCache, query: FlowQuery)
    ensures
        final(cache)@ == query::recorded(old(cache)@, query, None),
        query::known(final(cache)@, query) is None,
{
    proof {
        query::recorded_answer_is_known(cache@, query, None, query);
    }
    cache.put(query, None);
}

/// Gives a question up, and forgets what a condition was to say.
pub fn fail_condition_query(
    cache: &mut TypeCache,
    conditions: &mut ConditionCache,
    query: FlowQuery,
    key: ConditionKey,
)
    ensures
        final(cache)@ == query::recorded(old(cache)@, query, None),
        final(conditions)@ == state::recorded_condition(old(conditions)@, key, None),
{
    conditions.put(key, None);
    fail_query(cache, query);
}

/// How a question begins: with an answer that is known, or with the way back. A question that is
/// asked while it is being answered fails.
pub open spec fn begun(
    cache: Map<FlowQuery, EntryStateTy>,
    query: FlowQuery,
) -> Option<Result<ResultTy, InferFailReason>> {
    match query::known(cache, query) {
        Some(EntryStateTy::Cache(r)) => Some(Ok(r)),
        Some(EntryStateTy::Ready) => Some(Err(InferFailReason::RecursiveInfer)),
        None => None,
    }
}

pub open spec fn opt_begun(
    r: Option<Result<FlowQueryResult, InferFailReason>>,
) -> Option<Result<ResultTy, InferFailReason>> {
    match r {
        Some(Ok(r)) => Some(Ok(r@)),
        Some(Err(reason)) => Some(Err(reason)),
        None => None,
    }
}

/// Begins a question: the answer, where one is known. Otherwise the question is marked as being
/// answered.
pub fn start_query(cache: &mut TypeCache, query: FlowQuery) -> (r: Option<
    Result<FlowQueryResult, InferFailReason>,
>)
    ensures
        opt_begun(r) == begun(old(cache)@, query),
        final(cache)@ == (if r is Some {
            old(cache)@
        } else {
            query::recorded(old(cache)@, query, Some(EntryStateTy::Ready))
        }),
{
    match cache.get(query) {
        Some(CacheEntry::Cache(result)) => Some(Ok(result)),
        Some(CacheEntry::Ready) => Some(Err(InferFailReason::RecursiveInfer)),
        None => {
            cache.put(query, Some(CacheEntry::Ready));
            None
        },
    }
}

// ----------------------------------------------------------------------------
// Conditions.

pub open spec fn settled_step(walk: WalkTy, action: SettledTy) -> StepTy {
    match action {
        SettledTy::Continue => StepTy::Walk(walk),
        SettledTy::Unreachable => if walk.query.mode == FlowMode::MergeBranch {
            StepTy::Unreachable(walk.query)
        } else {
            StepTy::Walk(walk)
        },
        SettledTy::Result(t) => if walk.query.mode == FlowMode::MergeBranch && t is Never {
            StepTy::Unreachable(walk.query)
        } else {
            StepTy::Finish { walk, found: t }
        },
        SettledTy::Pending(p) => StepTy::Walk(WalkTy { pending: walk.pending.push(p), ..walk }),
    }
}

/// Goes on with what a condition was found to say.
pub fn apply_settled_action(walk: QueryWalk, action: SettledAction) -> (r: FlowStep)
    ensures
        r@ == settled_step(walk@, action@),
{
    match action {
        SettledAction::Continue => FlowStep::Walk(walk),
        SettledAction::Unreachable => finish_unreachable_condition(walk),
        SettledAction::Result(t) => finish_condition_result(walk, t),
        SettledAction::Pending(p) => FlowStep::Walk(walk.with_pending(p)),
    }
}

/// A condition that cannot hold: nothing comes from the branch, but what is inside it keeps its
/// types.
pub fn finish_unreachable_condition(walk: QueryWalk) -> (r: FlowStep)
    ensures
        r@ == settled_step(walk@, SettledTy::Unreachable),
{
    match walk.query.mode {
        FlowMode::MergeBranch => FlowStep::Unreachable(walk.query),
        _ => FlowStep::Walk(walk),
    }
}

pub fn finish_condition_result(walk: QueryWalk, result_type: LuaType) -> (r: FlowStep)
    ensures
        r@ == settled_step(walk@, SettledTy::Result(result_type@)),
{
    if walk.query.mode == FlowMode::MergeBranch && result_type.is_never() {
        FlowStep::Unreachable(walk.query)
    } else {
        FlowStep::Finish { walk, found: result_type }
    }
}

/// What an action says on its own.
pub open spec fn settled_of(action: ActionTy) -> Option<SettledTy> {
    match action {
        ActionTy::Continue => Some(SettledTy::Continue),
        ActionTy::Unreachable => Some(SettledTy::Unreachable),
        ActionTy::Result(t) => Some(SettledTy::Result(t)),
        ActionTy::Pending(p) => match p {
            PendingTy::Field { field: _, key_type: None } => None,
            _ => Some(SettledTy::Pending(p)),
        },
        _ => None,
    }
}

/// The replay of an expression begins: what is known is taken, then the next variable is asked for.
pub open spec fn replay_step(walk: WalkTy, purpose: PurposeTy, replay: ReplayTy) -> StepTy {
    let ready = replay::with_known(replay);
    match replay::next_of(ready) {
        Some(dependency) => StepTy::Start {
            query: FlowQuery {
                var_ref_id: dependency.var_ref_id,
                flow_id: dependency.flow_id,
                mode: FlowMode::Normal,
            },
            waiting: ContinuationTy::ExprReplay { walk, purpose, replay: ready },
        },
        None => StepTy::Replay { walk, purpose, replay: ready },
    }
}

pub fn start_expr_replay(walk: QueryWalk, purpose: FlowExprReplay, replay: FlowReplayQuery) -> (r:
    FlowStep)
    ensures
        r@ == replay_step(walk@, purpose@, replay@),
{
    let mut replay = replay;
    replay.accept_resolved_dependencies();
    let next = match replay.next_query() {
        Some(query) => Some(FlowQuery::new(query.var_ref_id, query.flow_id)),
        None => None,
    };
    match next {
        Some(query) => FlowStep::Start {
            query,
            waiting: Continuation::ExprReplay { walk, purpose, replay },
        },
        None => FlowStep::Replay { walk, purpose, replay },
    }
}

pub open spec fn fresh_replay(expr: ExprTy, flow_id: FlowId, by_place: bool, tables: bool) -> ReplayTy {
    ReplayTy {
        flow_id,
        expr: expr.syntax_id,
        allow_table_exprs: tables,
        queries: tree::dependencies(expr, flow_id, by_place, Seq::empty()),
        next: 0,
        types: Seq::empty(),
    }
}

/// What a condition asks for, carried out. `field_key` is the key of a field whose type is still to
/// be told.
pub open spec fn action_step(
    walk: WalkTy,
    key: ConditionKey,
    action: ActionTy,
    field_key: Option<ExprTy>,
) -> StepTy {
    match action {
        ActionTy::NeedExprType { flow_id, expr, resume } => replay_step(
            walk,
            PurposeTy::Condition { key, resume },
            fresh_replay(expr, flow_id, true, false),
        ),
        ActionTy::NeedSubquery { subquery, var_ref_id, flow_id } => StepTy::Start {
            query: FlowQuery { var_ref_id, flow_id, mode: FlowMode::Normal },
            waiting: ContinuationTy::ConditionDependency { walk, key, subquery },
        },
        ActionTy::NeedFieldLiteralSibling { sibling, var_ref_id, flow_id } => StepTy::Start {
            query: FlowQuery { var_ref_id, flow_id, mode: FlowMode::Normal },
            waiting: ContinuationTy::FieldLiteralSiblingDependency { walk, key, sibling },
        },
        ActionTy::NeedCorrelated { correlated, root } => StepTy::Start {
            query: FlowQuery {
                var_ref_id: walk.query.var_ref_id,
                flow_id: root,
                mode: query::point_mode(walk.query.mode),
            },
            waiting: ContinuationTy::CorrelatedSearchRoot { walk, key, correlated },
        },
        ActionTy::Pending(PendingTy::Field { field, key_type: None }) => match field_key {
            Some(expr) => replay_step(
                walk,
                PurposeTy::FieldConditionKey { key, field },
                fresh_replay(expr, walk.at, false, false),
            ),
            None => settled_step(
                walk,
                SettledTy::Pending(PendingTy::Field { field, key_type: None }),
            ),
        },
        _ => settled_step(walk, settled_of(action).unwrap()),
    }
}

/// What is recorded of a condition.
pub open spec fn action_record(action: ActionTy, field_key: Option<ExprTy>) -> Option<SettledTy> {
    match action {
        ActionTy::Pending(PendingTy::Field { field, key_type: None }) => match field_key {
            Some(_) => None,
            None => Some(SettledTy::Pending(PendingTy::Field { field, key_type: None })),
        },
        _ => settled_of(action),
    }
}

pub open spec fn with_record(
    conditions: Map<ConditionKey, ConditionTy>,
    key: ConditionKey,
    record: Option<SettledTy>,
) -> Map<ConditionKey, ConditionTy> {
    match record {
        Some(action) => state::recorded_condition(conditions, key, Some(ConditionTy::Cache(action))),
        None => conditions,
    }
}

pub open spec fn opt_expr(e: Option<&FlowExpr>) -> Option<ExprTy> {
    match e {
        Some(e) => Some(e@),
        None => None,
    }
}

fn record_and_apply(
    conditions: &mut ConditionCache,
    walk: QueryWalk,
    key: ConditionKey,
    action: SettledAction,
) -> (r: FlowStep)
    ensures
        r@ == settled_step(walk@, action@),
        final(conditions)@ == with_record(old(conditions)@, key, Some(action@)),
{
    conditions.put(key, Some(CacheEntry::Cache(action.duplicate())));
    apply_settled_action(walk, action)
}

/// Carries out what a condition asks for, and records what it says on its own.
pub fn apply_condition_action(
    conditions: &mut ConditionCache,
    walk: QueryWalk,
    key: ConditionKey,
    action: ConditionFlowAction,
    field_key: Option<&FlowExpr>,
) -> (r: FlowStep)
    ensures
        r@ == action_step(walk@, key, action@, opt_expr(field_key)),
        final(conditions)@ == with_record(
            old(conditions)@,
            key,
            action_record(action@, opt_expr(field_key)),
        ),
{
    match action {
        ConditionFlowAction::Continue => record_and_apply(
            conditions,
            walk,
            key,
            SettledAction::Continue,
        ),
        ConditionFlowAction::Unreachable => record_and_apply(
            conditions,
            walk,
            key,
            SettledAction::Unreachable,
        ),
        ConditionFlowAction::Result(t) => record_and_apply(
            conditions,
            walk,
            key,
            SettledAction::Result(t),
        ),
        ConditionFlowAction::Pending(p) => start_pending_condition(
            conditions,
            walk,
            key,
            p,
            field_key,
        ),
        ConditionFlowAction::NeedExprType { flow_id, expr, resume } => {
            let replay = FlowReplayQuery::new(&expr, flow_id, true, false);
            start_expr_replay(walk, FlowExprReplay::Condition { key, resume }, replay)
        },
        ConditionFlowAction::NeedSubquery { subquery, var_ref_id, flow_id } => FlowStep::Start {
            query: FlowQuery::new(var_ref_id, flow_id),
            waiting: Continuation::ConditionDependency { walk, key, subquery },
        },
        ConditionFlowAction::NeedFieldLiteralSibling { sibling, var_ref_id, flow_id } =>
            FlowStep::Start {
            query: FlowQuery::new(var_ref_id, flow_id),
            waiting: Continuation::FieldLiteralSiblingDependency { walk, key, sibling },
        },
        ConditionFlowAction::NeedCorrelated { correlated, root } => {
            let mode = walk.query.mode.for_point_dependency();
            FlowStep::Start {
                query: walk.query.at_flow(root, mode),
                waiting: Continuation::CorrelatedSearchRoot { walk, key, correlated },
            }
        },
    }
}

fn start_pending_condition(
    conditions: &mut ConditionCache,
    walk: QueryWalk,
    key: ConditionKey,
    pending: PendingConditionNarrow,
    field_key: Option<&FlowExpr>,
) -> (r: FlowStep)
    ensures
        r@ == action_step(walk@, key, ActionTy::Pending(pending@), opt_expr(field_key)),
        final(conditions)@ == with_record(
            old(conditions)@,
            key,
            action_record(ActionTy::Pending(pending@), opt_expr(field_key)),
        ),
{
    if let PendingConditionNarrow::Field { field, key_type: None } = &pending {
        if let Some(expr) = field_key {
            let replay = FlowReplayQuery::new(expr, walk.antecedent_flow_id, false, false);
            return start_expr_replay(
                walk,
                FlowExprReplay::FieldConditionKey { key, field: *field },
                replay,
            );
        }
    }
    record_and_apply(conditions, walk, key, SettledAction::Pending(pending))
}

/// A condition on the way back. Where conditions are ignored it is passed over; one that is being
/// evaluated cannot be used.
pub open spec fn condition_known_step(
    walk: WalkTy,
    known: Option<ConditionTy>,
) -> Option<StepTy> {
    match known {
        Some(ConditionTy::Cache(action)) => Some(settled_step(walk, action)),
        Some(ConditionTy::Ready) => Some(
            StepTy::Fail { query: walk.query, reason: InferFailReason::RecursiveInfer },
        ),
        None => None,
    }
}

/// What a condition that was met before says. Otherwise it is marked as being evaluated, and the walk
/// is handed back.
pub fn step_condition(conditions: &mut ConditionCache, walk: QueryWalk, key: ConditionKey) -> (r:
    Result<FlowStep, QueryWalk>)
    ensures
        match condition_known_step(walk@, state::known_condition(old(conditions)@, key)) {
            Some(step) => r matches Ok(s) && s@ == step && final(conditions)@
                == old(conditions)@,
            None => r matches Err(w) && w@ == walk@ && final(conditions)@
                == state::recorded_condition(old(conditions)@, key, Some(ConditionTy::Ready)),
        },
{
    match conditions.get(key) {
        Some(CacheEntry::Cache(action)) => Ok(apply_settled_action(walk, action)),
        Some(CacheEntry::Ready) => Ok(
            FlowStep::Fail { query: walk.query, reason: InferFailReason::RecursiveInfer },
        ),
        None => {
            conditions.put(key, Some(CacheEntry::Ready));
            Err(walk)
        },
    }
}

} // verus!
