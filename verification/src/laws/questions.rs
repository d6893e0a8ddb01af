//! How questions about variables are asked and answered.

use vstd::prelude::*;

use crate::db::DbTy;
use crate::flow::{engine, query, replay, resume, scheduler, tree, walk};
use crate::flow::query::{EntryStateTy, FlowId, FlowMode, FlowQuery, ResultTy, VarRefId};
use crate::flow::replay::ReplayTy;
use crate::flow::resume::FactsTy;
use crate::flow::scheduler::{EngineStateTy, EngineTy};
use crate::flow::state::{
    ActionTy, ConditionKey, ConditionTy, ContinuationTy, PurposeTy, SettledTy, StepTy, WalkTy,
};
use crate::flow::tree::{
    DependencyTy, ExprTy, FlowAntecedent, FlowExprKind, FlowNode, FlowNodeKind, TreeTy,
};
use crate::flow::walk::NodeFacts;
use crate::member::raw::InferFailReason;
use crate::types::Ty;

verus! {

/// What is asked of a branch, and of a single place before.
pub proof fn modes_of_further_questions(t: Ty)
    ensures
        query::merge_mode(FlowMode::Normal) == FlowMode::MergeBranch,
        query::merge_mode(FlowMode::MergeBranch) == FlowMode::MergeBranch,
        query::merge_mode(FlowMode::IgnoreConditions) == FlowMode::IgnoreConditions,
        query::point_mode(FlowMode::Normal) == FlowMode::Normal,
        query::point_mode(FlowMode::MergeBranch) == FlowMode::MergeBranch,
        query::point_mode(FlowMode::IgnoreConditions) == FlowMode::Normal,
        query::type_of_result(ResultTy::Type(t)) == t,
        query::type_of_result(ResultTy::Unreachable) == Ty::Never,
{
}

/// A new question is followed back from its own place with no condition met yet, and is being
/// answered from now on; one about a global variable that cannot be resolved fails.
pub proof fn new_question_starts_at_its_place(
    engine: EngineTy,
    query: FlowQuery,
    reason: InferFailReason,
)
    requires
        !engine.cache.dom().contains(query),
    ensures
        ({
            let (next, state) = scheduler::started(engine, query, None);
            &&& state == (EngineStateTy::Evaluate {
                walk: WalkTy { query, at: query.flow_id, pending: Seq::empty() },
                fresh: Some(query),
            })
            &&& next.cache == engine.cache.insert(query, EntryStateTy::Ready)
            &&& next.stack == engine.stack
        }),
        query.var_ref_id.is_global ==> scheduler::started(engine, query, Some(reason)) == (
            engine,
            EngineStateTy::Answered(Err(reason)),
        ),
        !query.var_ref_id.is_global ==> scheduler::started(engine, query, Some(reason)) == scheduler::started(
            engine,
            query,
            None,
        ),
{
}

/// A walk goes on, what cannot be reached is recorded, and what fails is forgotten.
pub proof fn steps_change_what_is_known(
    engine: EngineTy,
    walk: WalkTy,
    query: FlowQuery,
    key: ConditionKey,
    reason: InferFailReason,
    fresh: FlowQuery,
)
    ensures
        scheduler::advanced(engine, StepTy::Walk(walk), Some(fresh), None) == (
            engine,
            EngineStateTy::Evaluate { walk, fresh: Some(fresh) },
        ),
        ({
            let (next, state) = scheduler::advanced(engine, StepTy::Unreachable(query), None, None);
            &&& state == EngineStateTy::Answered(Ok(ResultTy::Unreachable))
            &&& next.cache == engine.cache.insert(
                query,
                EntryStateTy::Cache(ResultTy::Unreachable),
            )
        }),
        ({
            let (next, state) = scheduler::advanced(engine, StepTy::Fail { query, reason }, None, None);
            &&& state == EngineStateTy::Answered(Err(reason))
            &&& !next.cache.dom().contains(query)
            &&& next.conditions == engine.conditions
        }),
        ({
            let (next, state) = scheduler::advanced(
                engine,
                StepTy::FailCondition { query, key, reason },
                None,
                None,
            );
            &&& state == EngineStateTy::Answered(Err(reason))
            &&& !next.cache.dom().contains(query)
            &&& !next.conditions.dom().contains(key)
        }),
        ({
            let (next, state) = scheduler::advanced(engine, StepTy::Broken(reason), Some(fresh), None);
            &&& state == EngineStateTy::Answered(Err(reason))
            &&& !next.cache.dom().contains(fresh)
        }),
        scheduler::advanced(engine, StepTy::Broken(reason), None, None) == (
            engine,
            EngineStateTy::Answered(Err(reason)),
        ),
{
}

// ----------------------------------------------------------------------------
// Places on the way back.

/// Labels of loops and the ends of blocks are passed over; at the start a variable has the type that it
/// was declared with; a declaration that comes behind the variable is not its own.
pub proof fn places_that_say_nothing_are_passed_over(
    db: DbTy,
    tree: TreeTy,
    walk: WalkTy,
    at: FlowId,
    position: u32,
    facts: NodeFacts,
)
    ensures
        ({
            let moved = StepTy::Walk(WalkTy { query: walk.query, at, pending: walk.pending });
            let node = |kind: FlowNodeKind| FlowNode {
                kind,
                antecedent: Some(FlowAntecedent::Single(at)),
            };
            let step = |kind: FlowNodeKind| walk::place_step(db, tree, walk, node(kind), facts);
            &&& step(FlowNodeKind::LoopLabel) == moved
            &&& step(FlowNodeKind::Break) == moved
            &&& step(FlowNodeKind::Continue) == moved
            &&& step(FlowNodeKind::Return) == moved
            &&& position > walk.query.var_ref_id.position ==> step(
                FlowNodeKind::DeclPosition(position),
            ) == moved
        }),
{
}

/// Where the way back ends, or comes back to where it was, a variable has the type that it was
/// declared with.
pub proof fn way_back_ends_with_the_declared_type(
    db: DbTy,
    tree: TreeTy,
    cache: Map<FlowQuery, EntryStateTy>,
    conditions: Map<ConditionKey, ConditionTy>,
    visited: Set<FlowId>,
    walk: WalkTy,
    facts: NodeFacts,
    t: Ty,
)
    requires
        walk::facts_answer(facts) == Ok::<Ty, InferFailReason>(t),
    ensures
        walk::place_step(
            db,
            tree,
            walk,
            FlowNode { kind: FlowNodeKind::Start, antecedent: None },
            facts,
        ) == (StepTy::Finish { walk, found: t }),
        visited.contains(walk.at) ==> walk::visit(
            db,
            tree,
            cache,
            conditions,
            Some(visited),
            walk,
            facts,
        ).step == (StepTy::Finish { walk, found: t }),
{
}

proof fn lemma_branches(
    tree: TreeTy,
    pending: Seq<FlowId>,
    visited: Set<FlowId>,
    found: Seq<FlowId>,
    labels: nat,
)
    requires
        forall|i: int|
            0 <= i < pending.len() ==> (#[trigger] pending[i]).id < tree.nodes.len()
                && tree.nodes[pending[i].id as int].kind != FlowNodeKind::BranchLabel,
    ensures
        tree::branches(tree, pending, visited, found, labels) == Some(found + pending.reverse()),
    decreases pending.len(),
{
    if pending.len() > 0 {
        let rest = pending.drop_last();
        let last = pending[pending.len() - 1];
        assert(last.id < tree.nodes.len());
        assert forall|i: int| 0 <= i < rest.len() implies (#[trigger] rest[i]).id < tree.nodes.len()
            && tree.nodes[rest[i].id as int].kind != FlowNodeKind::BranchLabel by {
            assert(rest[i] == pending[i]);
        }
        lemma_branches(tree, rest, visited, found.push(last), labels);
        assert(found.push(last) + rest.reverse() =~= found + pending.reverse());
    } else {
        assert(found + pending.reverse() =~= found);
    }
}

/// The branches that meet at a label are all the places that lead to it.
pub proof fn label_joins_all_its_branches(tree: TreeTy, i: u32)
    requires
        i < tree.multi.len(),
        forall|k: int|
            0 <= k < tree.multi[i as int].len() ==> (#[trigger] tree.multi[i as int][k]).id
                < tree.nodes.len() && tree.nodes[tree.multi[i as int][k].id as int].kind
                != FlowNodeKind::BranchLabel,
    ensures
        tree::branches_at(
            tree,
            FlowNode {
                kind: FlowNodeKind::BranchLabel,
                antecedent: Some(FlowAntecedent::Multiple(i)),
            },
        ) == Some(tree.multi[i as int].reverse()),
{
    let ids = tree.multi[i as int];
    lemma_branches(tree, ids, Set::empty(), Seq::empty(), tree.nodes.len());
    assert(Seq::<FlowId>::empty() + ids.reverse() =~= ids.reverse());
}

// ----------------------------------------------------------------------------
// The variables of an expression.

/// A name depends on its variable at the place where it stands, a function literal on nothing, and
/// another expression on what its parts depend on, in order.
pub proof fn expression_depends_on_its_variables(
    e: ExprTy,
    a: ExprTy,
    b: ExprTy,
    var: VarRefId,
    at: FlowId,
    fallback: FlowId,
    listed: Seq<DependencyTy>,
)
    requires
        e.var_ref_id == Some(var),
        e.flow_id == Some(at),
    ensures
        e.kind == FlowExprKind::Closure ==> tree::dependencies(e, fallback, true, listed) == listed,
        e.kind == FlowExprKind::Name ==> {
            let all = tree::dependencies(e, fallback, true, listed);
            &&& all.len() == listed.len() + 1
            &&& all[listed.len() as int].var_ref_id == var
            &&& all[listed.len() as int].flow_id == at
            &&& all[listed.len() as int].syntax_id == e.syntax_id
            &&& all[listed.len() as int].resolved is None
            &&& tree::dependencies(e, fallback, false, listed)[listed.len() as int].flow_id == fallback
        },
        e.kind == FlowExprKind::Other && e.children == seq![a, b] ==> tree::dependencies(
            e,
            fallback,
            true,
            listed,
        ) == tree::dependencies(b, fallback, true, tree::dependencies(a, fallback, true, listed)),
        e.kind == FlowExprKind::Index && e.children.len() == 0 ==> {
            let all = tree::dependencies(e, fallback, true, listed);
            &&& all.len() == listed.len() + 1
            &&& all[listed.len() as int].var_ref_id == var
            &&& all[listed.len() as int].shape == e.shape_type
            &&& all[listed.len() as int].next == Some((listed.len() + 1) as usize)
        },
{
    if e.kind == FlowExprKind::Other && e.children == seq![a, b] {
        let both = seq![a, b];
        assert(both.drop_last() =~= seq![a]);
        assert(seq![a].drop_last() =~= Seq::<ExprTy>::empty());
        assert(tree::dependencies_of(Seq::<ExprTy>::empty(), fallback, true, listed) == listed);
        assert(tree::dependencies_of(seq![a], fallback, true, listed) == tree::dependencies(
            a,
            fallback,
            true,
            listed,
        ));
        assert(both.last() == b);
        assert(tree::dependencies_of(both, fallback, true, listed) == tree::dependencies(
            b,
            fallback,
            true,
            tree::dependencies_of(seq![a], fallback, true, listed),
        ));
        assert(tree::dependencies(e, fallback, true, listed) == tree::dependencies_of(
            both,
            fallback,
            true,
            listed,
        ));
    }
    if e.kind == FlowExprKind::Index && e.children.len() == 0 {
        let own = DependencyTy {
            var_ref_id: var,
            flow_id: fallback,
            syntax_id: e.syntax_id,
            shape: e.shape_type,
            next: None,
            resolved: None,
        };
        assert(tree::dependencies_of(e.children, fallback, true, listed.push(own)) == listed.push(own));
    }
}

/// An answer for a variable of an expression is kept for the place of the variable, and the next one
/// is asked for; one that needs something resolved ends it, and one that fails otherwise is passed
/// over.
pub proof fn answers_are_kept_for_their_places(
    r: ReplayTy,
    t: Ty,
    id: u32,
    reason: InferFailReason,
)
    requires
        r.next < r.queries.len(),
        r.queries[r.next as int].shape is None,
        r.queries[r.next as int].next is None,
        !(reason is NeedResolve),
    ensures
        replay::with_answer(r, Ok(t)) matches Ok(next) && {
            &&& next.next == r.next + 1
            &&& next.types == r.types.push((r.queries[r.next as int].syntax_id, t))
            &&& next.queries == r.queries
            &&& next.expr == r.expr
        },
        replay::with_answer(r, Err(InferFailReason::NeedResolve(id))) == Err::<ReplayTy, InferFailReason>(
            InferFailReason::NeedResolve(id),
        ),
        replay::with_answer(r, Err(reason)) matches Ok(next) && {
            &&& next.next == r.next + 1
            &&& next.types == r.types
        },
        replay::next_of(r) == Some(r.queries[r.next as int]),
{
}

/// Two literals are the same if they are of one kind and have one value.
pub proof fn literals_are_the_same_by_value(
    a: Seq<char>,
    b: Seq<char>,
    i: i64,
    j: i64,
    x: bool,
    y: bool,
)
    ensures
        replay::literal_eq(Ty::StringConst(a), Ty::DocStringConst(b)) == (a == b),
        replay::literal_eq(Ty::DocIntegerConst(i), Ty::IntegerConst(j)) == (i == j),
        replay::literal_eq(Ty::BooleanConst(x), Ty::DocBooleanConst(y)) == (x == y),
        replay::literal_eq(Ty::Nil, Ty::Nil),
        !replay::literal_eq(Ty::StringConst(a), Ty::IntegerConst(i)),
        !replay::literal_eq(Ty::String, Ty::String),
        replay::declared_literal(Ty::DocStringConst(a), Ty::StringConst(a)) == Some(Ty::DocStringConst(a)),
        a != b ==> replay::declared_literal(Ty::DocStringConst(a), Ty::StringConst(b)) is None,
{
}

/// A replay asks for the first variable that is not known, and types the expression once all are.
pub proof fn replay_asks_for_its_variables(
    walk: WalkTy,
    purpose: PurposeTy,
    r: ReplayTy,
)
    ensures
        r.next < r.queries.len() && r.queries[r.next as int].resolved is None ==> engine::replay_step(
            walk,
            purpose,
            r,
        ) == (StepTy::Start {
            query: FlowQuery {
                var_ref_id: r.queries[r.next as int].var_ref_id,
                flow_id: r.queries[r.next as int].flow_id,
                mode: FlowMode::Normal,
            },
            waiting: ContinuationTy::ExprReplay { walk, purpose, replay: r },
        }),
        r.next >= r.queries.len() ==> engine::replay_step(walk, purpose, r) == (StepTy::Replay {
            walk,
            purpose,
            replay: r,
        }),
{
    reveal_with_fuel(replay::with_known, 2);
}

// ----------------------------------------------------------------------------
// What conditions ask for.

/// A condition on another variable asks for that one and goes on with its answer.
pub proof fn condition_waits_for_what_it_needs(
    db: DbTy,
    walk: WalkTy,
    key: ConditionKey,
    subquery: u32,
    sibling: u32,
    correlated: u32,
    var: VarRefId,
    at: FlowId,
    t: Ty,
    facts: FactsTy,
)
    ensures
        engine::action_step(
            walk,
            key,
            ActionTy::NeedSubquery { subquery, var_ref_id: var, flow_id: at },
            None,
        ) matches StepTy::Start { query, waiting } && {
            &&& query == (FlowQuery { var_ref_id: var, flow_id: at, mode: FlowMode::Normal })
            &&& resume::resumed(db, waiting, Ok(ResultTy::Type(t)), facts) == (StepTy::ResolveSubquery {
                walk,
                key,
                subquery,
                answer: Ok(t),
            })
        },
        engine::action_step(
            walk,
            key,
            ActionTy::NeedFieldLiteralSibling { sibling, var_ref_id: var, flow_id: at },
            None,
        ) matches StepTy::Start { query, waiting } && {
            &&& query == (FlowQuery { var_ref_id: var, flow_id: at, mode: FlowMode::Normal })
            &&& resume::resumed(db, waiting, Ok(ResultTy::Type(t)), facts) == (StepTy::ResolveSibling {
                walk,
                key,
                sibling,
                sibling_type: t,
            })
        },
        engine::action_step(walk, key, ActionTy::NeedCorrelated { correlated, root: at }, None) matches StepTy::Start {
            query,
            waiting,
        } && {
            &&& query.var_ref_id == walk.query.var_ref_id
            &&& query.flow_id == at
            &&& resume::resumed(db, waiting, Ok(ResultTy::Type(t)), facts) == (StepTy::ResolveCorrelated {
                walk,
                key,
                correlated,
                answer: Ok(t),
            })
        },
        engine::action_step(walk, key, ActionTy::Result(t), None) == engine::settled_step(
            walk,
            SettledTy::Result(t),
        ),
        engine::action_step(walk, key, ActionTy::Continue, None) == StepTy::Walk(walk),
        engine::action_record(ActionTy::Result(t), None) == Some(SettledTy::Result(t)),
        engine::action_record(ActionTy::Continue, None) == Some(SettledTy::Continue),
        engine::action_record(ActionTy::Unreachable, None) == Some(SettledTy::Unreachable),
        engine::action_record(ActionTy::NeedSubquery { subquery, var_ref_id: var, flow_id: at }, None) is None,
{
}

/// Once the expression of a condition is typed, the condition is asked what it says; where it has no
/// type, the condition says nothing; a failure that may pass ends the question.
pub proof fn condition_on_a_typed_expression(
    db: DbTy,
    walk: WalkTy,
    key: ConditionKey,
    resume: u32,
    at: FlowId,
    t: Ty,
    facts: FactsTy,
)
    ensures
        ({
            let purpose = PurposeTy::Condition { key, resume };
            let step = |r: Result<Option<Ty>, InferFailReason>| resume::replayed_step(
                db,
                walk,
                purpose,
                at,
                r,
                facts,
            );
            &&& step(Ok(Some(t))) == (StepTy::ResolveExprType {
                walk,
                key,
                resume,
                flow_id: at,
                expr_type: t,
            })
            &&& step(Ok(None)) == StepTy::Walk(walk)
            &&& step(Err(InferFailReason::FieldNotFound)) == StepTy::Walk(walk)
            &&& step(Err(InferFailReason::RecursiveInfer)) == (StepTy::FailCondition {
                query: walk.query,
                key,
                reason: InferFailReason::RecursiveInfer,
            })
            &&& resume::replayed_record(purpose, Ok(None)) == Some((key, SettledTy::Continue))
            &&& resume::replayed_record(purpose, Ok(Some(t))) is None
        }),
{
}

} // verus!
