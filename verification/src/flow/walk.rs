//! Following a question back, one place at a time.

use vstd::prelude::*;

use crate::types;
use crate::db::{DbIndex, DbTy};
use crate::flow::{engine, query, replay, resume, state, tree};
use crate::flow::engine::{apply_condition_action, start_expr_replay, step_condition};
use crate::flow::query::{
    CacheEntry, EntryStateTy, FlowId, FlowMode, FlowQuery, FlowQueryResult, ResultTy, SyntaxId,
    TypeCache, VarRefId,
};
use crate::flow::replay::{FlowReplayQuery, ReplayTy};
use crate::flow::resume::{FactsTy, TypeFacts, finish_assignment_expr_type};
use crate::flow::state::{
    ConditionCache, ConditionFlowAction, ConditionKey, ConditionTy, Continuation, ContinuationTy,
    FlowExprReplay, FlowStep, InferConditionFlow, PendingConditionNarrow, PendingTy, PurposeTy,
    QueryWalk, SettledTy, StepTy, WalkTy,
};
use crate::flow::tree::{
    ExprTy, FlowExpr, FlowNode, FlowNodeKind, FlowTree, TreeTy, get_branch_label_flow_ids,
    get_single_antecedent,
};
use crate::member::raw;
use crate::member::raw::InferFailReason;
use crate::overload::params;
use crate::tables::FlowIdSet;
use crate::types::{LuaType, Ty};

verus! {

/// What is known of a node of the syntax tree that a place stands for.
#[derive(Debug)]
pub enum NodeFacts {
    Nothing,
    /// The type of the variable, whether it is declared, and the expression it starts with.
    Variable {
        answer: Result<LuaType, InferFailReason>,
        is_declared: bool,
        initializer: Option<FlowExpr>,
    },
    /// Whether the length of the variable bounds a loop.
    Loop { len_matches: bool },
    /// Whether a call never returns.
    Call { returns_never: bool },
    Assignment(AssignmentFacts),
    /// Whether a function is the variable, and its type.
    Function { is_same: bool, signature: Option<LuaType> },
    Condition { said: Result<ConditionFlowAction, InferFailReason>, field_key: Option<FlowExpr> },
    /// Whether a cast is of the variable and does anything.
    Cast { applies: bool },
}

/// An assignment: the variables, the declared type of the one asked for, the expressions and whether
/// one of their values may be that of an operand.
#[derive(Debug)]
pub struct AssignmentFacts {
    pub var_ref_ids: Vec<Option<VarRefId>>,
    pub explicit: Option<LuaType>,
    pub exprs: Vec<FlowExpr>,
    pub short_circuits: Vec<bool>,
    pub types: TypeFacts,
}

pub struct AssignmentTy {
    pub var_ref_ids: Seq<Option<VarRefId>>,
    pub explicit: Option<Ty>,
    pub exprs: Seq<ExprTy>,
    pub short_circuits: Seq<bool>,
    pub types: FactsTy,
}

impl View for AssignmentFacts {
    type V = AssignmentTy;

    open spec fn view(&self) -> AssignmentTy {
        AssignmentTy {
            var_ref_ids: self.var_ref_ids@,
            explicit: types::opt_ty(self.explicit),
            exprs: tree::expr_tys(self.exprs@),
            short_circuits: self.short_circuits@,
            types: self.types@,
        }
    }
}

pub open spec fn moved_walk(walk: WalkTy, antecedent: Option<FlowId>) -> StepTy {
    match antecedent {
        Some(at) => StepTy::Walk(WalkTy { at, ..walk }),
        None => StepTy::Broken(InferFailReason::Unsupported),
    }
}

fn go_on(walk: QueryWalk, antecedent: Option<FlowId>) -> (r: FlowStep)
    ensures
        r@ == moved_walk(walk@, antecedent),
{
    match antecedent {
        Some(at) => FlowStep::Walk(walk.moved_to(at)),
        None => FlowStep::Broken(InferFailReason::Unsupported),
    }
}

// ----------------------------------------------------------------------------
// Places where branches meet.

/// Where branches meet, all are asked for what they contribute, the last one first. A single one is
/// just followed.
pub open spec fn branch_step(walk: WalkTy, branches: Option<Seq<FlowId>>) -> StepTy {
    match branches {
        None => StepTy::Broken(InferFailReason::Unsupported),
        Some(ids) => if ids.len() == 0 {
            StepTy::Unreachable(walk.query)
        } else if ids.len() == 1 {
            StepTy::Walk(WalkTy { at: ids[0], ..walk })
        } else {
            StepTy::Start {
                query: resume::at_place(walk.query, ids.last(), query::merge_mode(walk.query.mode)),
                waiting: ContinuationTy::Merge {
                    walk,
                    branches: ids,
                    next_pending: (ids.len() - 1) as usize,
                    merged: Ty::Never,
                },
            }
        },
    }
}

pub open spec fn label_branches(tree: TreeTy, node: FlowNode) -> Option<Seq<FlowId>> {
    if node.kind == FlowNodeKind::BranchLabel {
        tree::branches_at(tree, node)
    } else {
        tree::multi_of(tree, node)
    }
}

pub fn step_branches(tree: &FlowTree, walk: QueryWalk, node: &FlowNode) -> (r: FlowStep)
    ensures
        r@ == branch_step(walk@, label_branches(tree@, *node)),
{
    let ids = if node.kind == FlowNodeKind::BranchLabel {
        get_branch_label_flow_ids(tree, node)
    } else {
        tree.get_multi_antecedents(node)
    };
    match ids {
        None => FlowStep::Broken(InferFailReason::Unsupported),
        Some(branches) => {
            if branches.len() == 0 {
                return FlowStep::Unreachable(walk.query);
            }
            if branches.len() == 1 {
                return FlowStep::Walk(walk.moved_to(branches[0]));
            }
            let next_pending = branches.len() - 1;
            let query = walk.query.at_flow(
                branches[next_pending],
                walk.query.mode.for_merge_contribution(),
            );
            FlowStep::Start {
                query,
                waiting: Continuation::Merge {
                    walk,
                    branches,
                    next_pending,
                    merged: LuaType::Never,
                },
            }
        },
    }
}

// ----------------------------------------------------------------------------
// Assignments.

/// The first variable of an assignment that is the one asked for.
pub open spec fn var_place(vars: Seq<Option<VarRefId>>, var: VarRefId) -> Option<nat>
    decreases vars.len(),
{
    if vars.len() == 0 {
        None
    } else {
        match var_place(vars.drop_last(), var) {
            Some(i) => Some(i),
            None => if vars.last() == Some(var) {
                Some((vars.len() - 1) as nat)
            } else {
                None
            },
        }
    }
}

fn find_var(vars: &Vec<Option<VarRefId>>, var: VarRefId) -> (r: Option<usize>)
    ensures
        params::opt_index(r) == var_place(vars@, var),
        r matches Some(i) ==> i < vars@.len(),
{
    let ghost all = vars@;
    let mut found: Option<usize> = None;
    let mut i: usize = 0;
    assert(all.take(0) =~= Seq::<Option<VarRefId>>::empty());
    while i < vars.len()
        invariant
            i <= vars@.len(),
            all == vars@,
            params::opt_index(found) == var_place(all.take(i as int), var),
            found matches Some(k) ==> k < vars@.len(),
        decreases vars@.len() - i,
    {
        proof {
            assert(all.take(i + 1).drop_last() =~= all.take(i as int));
            assert(all.take(i + 1).last() == all[i as int]);
        }
        if found.is_none() {
            if let Some(v) = vars[i] {
                if v == var {
                    found = Some(i);
                }
            }
        }
        i += 1;
    }
    assert(all.take(i as int) =~= all);
    found
}

/// The expression that a variable is assigned, and which of its values.
pub open spec fn expr_place(var: nat, exprs: nat) -> (nat, usize) {
    if var < exprs {
        (var, 0)
    } else {
        ((exprs - 1) as nat, (var - (exprs - 1)) as usize)
    }
}

pub open spec fn assigned_replay(
    expr: ExprTy,
    antecedent: FlowId,
    var: VarRefId,
    is_plain: bool,
) -> ReplayTy {
    let replay = engine::fresh_replay(expr, antecedent, true, true);
    if is_plain {
        ReplayTy { queries: replay::with_resolved(replay.queries, var, Ty::Unknown), ..replay }
    } else {
        replay
    }
}

/// An assignment on the way back.
pub open spec fn assignment_step(
    db: DbTy,
    walk: WalkTy,
    antecedent: Option<FlowId>,
    facts: AssignmentTy,
) -> StepTy {
    match antecedent {
        None => StepTy::Broken(InferFailReason::Unsupported),
        Some(at) => match var_place(facts.var_ref_ids, walk.query.var_ref_id) {
            None => StepTy::Walk(WalkTy { at, ..walk }),
            Some(i) => if facts.exprs.len() == 0 {
                resume::expr_type_step(db, walk, at, facts.explicit, Ty::Nil, facts.types)
            } else {
                let (k, slot) = expr_place(i, facts.exprs.len());
                let is_plain = facts.explicit is None && !(k < facts.short_circuits.len()
                    && facts.short_circuits[k as int]);
                engine::replay_step(
                    walk,
                    PurposeTy::Assignment {
                        antecedent: at,
                        explicit: facts.explicit,
                        result_slot: slot,
                    },
                    assigned_replay(
                        facts.exprs[k as int],
                        at,
                        walk.query.var_ref_id,
                        is_plain,
                    ),
                )
            },
        },
    }
}

/// An assignment on the way back: one of another variable is passed over, otherwise its expression
/// is typed. A plain expression of the variable itself does not depend on it.
pub fn step_assignment(
    db: &DbIndex,
    walk: QueryWalk,
    antecedent: Option<FlowId>,
    facts: AssignmentFacts,
) -> (r: FlowStep)
    ensures
        r@ == assignment_step(db@, walk@, antecedent, facts@),
{
    let at = match antecedent {
        Some(at) => at,
        None => {
            return FlowStep::Broken(InferFailReason::Unsupported);
        },
    };
    let i = match find_var(&facts.var_ref_ids, walk.query.var_ref_id) {
        Some(i) => i,
        None => {
            return FlowStep::Walk(walk.moved_to(at));
        },
    };
    assert(tree::expr_tys(facts.exprs@).len() == facts.exprs@.len());
    if facts.exprs.len() == 0 {
        return finish_assignment_expr_type(
            db,
            walk,
            at,
            facts.explicit,
            LuaType::Nil,
            &facts.types,
        );
    }
    let last = facts.exprs.len() - 1;
    let (k, slot) = if i <= last {
        (i, 0)
    } else {
        (last, i - last)
    };
    assert(expr_place(i as nat, facts.exprs@.len()) == (k as nat, slot));
    assert(tree::expr_tys(facts.exprs@)[k as int] == facts.exprs@[k as int]@);
    let mut replay = FlowReplayQuery::new(&facts.exprs[k], at, true, true);
    let short_circuit = k < facts.short_circuits.len() && facts.short_circuits[k];
    if facts.explicit.is_none() && !short_circuit {
        replay.resolve_dependencies(walk.query.var_ref_id, &LuaType::Unknown);
    }
    start_expr_replay(
        walk,
        FlowExprReplay::Assignment {
            antecedent: at,
            explicit: facts.explicit,
            result_slot: slot,
        },
        replay,
    )
}

// ----------------------------------------------------------------------------
// One place.

/// The declaration of a variable: its type, or that of the expression it starts with.
pub open spec fn declaration_step(
    walk: WalkTy,
    answer: Result<Ty, InferFailReason>,
    is_declared: bool,
    initializer: Option<ExprTy>,
) -> StepTy {
    match answer {
        Ok(found) => StepTy::Finish { walk, found },
        Err(reason) => match initializer {
            Some(expr) => if is_declared {
                engine::replay_step(
                    walk,
                    PurposeTy::DeclInitializer { fail_reason: reason },
                    engine::fresh_replay(
                        expr,
                        match expr.flow_id {
                            Some(id) => id,
                            None => walk.at,
                        },
                        true,
                        false,
                    ),
                )
            } else {
                StepTy::Fail { query: walk.query, reason }
            },
            None => StepTy::Fail { query: walk.query, reason },
        },
    }
}

pub fn step_declaration(
    walk: QueryWalk,
    answer: Result<LuaType, InferFailReason>,
    is_declared: bool,
    initializer: Option<FlowExpr>,
) -> (r: FlowStep)
    ensures
        r@ == declaration_step(
            walk@,
            raw::res_ty(answer),
            is_declared,
            match initializer {
                Some(e) => Some(e@),
                None => None,
            },
        ),
{
    match answer {
        Ok(found) => FlowStep::Finish { walk, found },
        Err(reason) => match initializer {
            Some(expr) => {
                if !is_declared {
                    return FlowStep::Fail { query: walk.query, reason };
                }
                let flow_id = match expr.flow_id {
                    Some(id) => id,
                    None => walk.antecedent_flow_id,
                };
                let replay = FlowReplayQuery::new(&expr, flow_id, true, false);
                start_expr_replay(
                    walk,
                    FlowExprReplay::DeclInitializer { fail_reason: reason },
                    replay,
                )
            },
            None => FlowStep::Fail { query: walk.query, reason },
        },
    }
}

/// A variable whose way back ends: its type, where it has one.
pub open spec fn origin_step(walk: WalkTy, answer: Result<Ty, InferFailReason>) -> StepTy {
    match answer {
        Ok(found) => StepTy::Finish { walk, found },
        Err(reason) => StepTy::Broken(reason),
    }
}

pub open spec fn facts_answer(facts: NodeFacts) -> Result<Ty, InferFailReason> {
    match facts {
        NodeFacts::Variable { answer, .. } => raw::res_ty(answer),
        _ => Err(InferFailReason::Unsupported),
    }
}

fn step_origin(walk: QueryWalk, facts: NodeFacts) -> (r: FlowStep)
    ensures
        r@ == origin_step(walk@, facts_answer(facts)),
{
    match facts {
        NodeFacts::Variable { answer, .. } => match answer {
            Ok(found) => FlowStep::Finish { walk, found },
            Err(reason) => FlowStep::Broken(reason),
        },
        _ => FlowStep::Broken(InferFailReason::Unsupported),
    }
}

/// A call on the way back. What follows a call that never returns cannot be reached.
pub open spec fn call_step(walk: WalkTy, antecedent: Option<FlowId>, never: bool) -> StepTy {
    if antecedent is Some && walk.query.mode == FlowMode::MergeBranch && never {
        StepTy::Unreachable(walk.query)
    } else {
        moved_walk(walk, antecedent)
    }
}

/// A loop on the way back. Inside a loop that is bounded by the length of the variable it is there.
pub open spec fn loop_step(walk: WalkTy, antecedent: Option<FlowId>, len_matches: bool) -> StepTy {
    moved_walk(
        if len_matches && walk.query.mode != FlowMode::IgnoreConditions {
            WalkTy {
                pending: walk.pending.push(
                    PendingTy::Truthiness(InferConditionFlow::TrueCondition),
                ),
                ..walk
            }
        } else {
            walk
        },
        antecedent,
    )
}

/// A function on the way back: the variable itself, or another one.
pub open spec fn function_step(
    walk: WalkTy,
    antecedent: Option<FlowId>,
    is_same: bool,
    signature: Option<Ty>,
) -> StepTy {
    if is_same {
        match signature {
            Some(found) => StepTy::Finish { walk, found },
            None => StepTy::Fail { query: walk.query, reason: InferFailReason::Unsupported },
        }
    } else {
        moved_walk(walk, antecedent)
    }
}

/// A cast on the way back: the type before it is asked for.
pub open spec fn cast_step(
    walk: WalkTy,
    antecedent: Option<FlowId>,
    cast: SyntaxId,
    applies: bool,
) -> StepTy {
    match antecedent {
        None => StepTy::Broken(InferFailReason::Unsupported),
        Some(at) => if applies {
            StepTy::Start {
                query: resume::at_place(walk.query, at, query::point_mode(walk.query.mode)),
                waiting: ContinuationTy::TagCastAntecedent { walk, cast },
            }
        } else {
            StepTy::Walk(WalkTy { at, ..walk })
        },
    }
}

pub fn step_tag_cast(
    walk: QueryWalk,
    antecedent: Option<FlowId>,
    cast: SyntaxId,
    applies: bool,
) -> (r: FlowStep)
    ensures
        r@ == cast_step(walk@, antecedent, cast, applies),
{
    match antecedent {
        None => FlowStep::Broken(InferFailReason::Unsupported),
        Some(at) => {
            if !applies {
                return FlowStep::Walk(walk.moved_to(at));
            }
            let mode = walk.query.mode.for_point_dependency();
            FlowStep::Start {
                query: walk.query.at_flow(at, mode),
                waiting: Continuation::TagCastAntecedent { walk, cast },
            }
        },
    }
}

pub open spec fn node_condition(kind: FlowNodeKind) -> Option<InferConditionFlow> {
    match kind {
        FlowNodeKind::TrueCondition(_) => Some(InferConditionFlow::TrueCondition),
        FlowNodeKind::FalseCondition(_) => Some(InferConditionFlow::FalseCondition),
        _ => None,
    }
}

/// A place that is no condition, with what is known of the node it stands for.
pub open spec fn place_step(
    db: DbTy,
    tree: TreeTy,
    walk: WalkTy,
    node: FlowNode,
    facts: NodeFacts,
) -> StepTy {
    let antecedent = tree::single_of(node);
    match node.kind {
        FlowNodeKind::Start | FlowNodeKind::Unreachable => origin_step(walk, facts_answer(facts)),
        FlowNodeKind::LoopLabel
        | FlowNodeKind::Break
        | FlowNodeKind::Continue
        | FlowNodeKind::Return => moved_walk(walk, antecedent),
        FlowNodeKind::ForIStat(_) => match facts {
            NodeFacts::Loop { len_matches } => loop_step(walk, antecedent, len_matches),
            _ => StepTy::Broken(InferFailReason::Unsupported),
        },
        FlowNodeKind::CallExprStat(_) => match facts {
            NodeFacts::Call { returns_never } => call_step(walk, antecedent, returns_never),
            _ => moved_walk(walk, antecedent),
        },
        FlowNodeKind::BranchLabel | FlowNodeKind::NamedLabel => branch_step(
            walk,
            label_branches(tree, node),
        ),
        FlowNodeKind::DeclPosition(position) => if position <= walk.query.var_ref_id.position {
            match facts {
                NodeFacts::Variable { answer, is_declared, initializer } => declaration_step(
                    walk,
                    raw::res_ty(answer),
                    is_declared,
                    match initializer {
                        Some(e) => Some(e@),
                        None => None,
                    },
                ),
                _ => StepTy::Broken(InferFailReason::Unsupported),
            }
        } else {
            moved_walk(walk, antecedent)
        },
        FlowNodeKind::Assignment(_) => match facts {
            NodeFacts::Assignment(a) => assignment_step(db, walk, antecedent, a@),
            _ => StepTy::Broken(InferFailReason::Unsupported),
        },
        FlowNodeKind::ImplFunc(_) => match facts {
            NodeFacts::Function { is_same, signature } => function_step(
                walk,
                antecedent,
                is_same,
                types::opt_ty(signature),
            ),
            _ => StepTy::Broken(InferFailReason::Unsupported),
        },
        FlowNodeKind::TagCast(cast) => match facts {
            NodeFacts::Cast { applies } => cast_step(walk, antecedent, cast, applies),
            _ => StepTy::Broken(InferFailReason::Unsupported),
        },
        _ => StepTy::Broken(InferFailReason::Unsupported),
    }
}

fn step_place(
    db: &DbIndex,
    tree: &FlowTree,
    walk: QueryWalk,
    node: &FlowNode,
    facts: NodeFacts,
) -> (r: FlowStep)
    ensures
        r@ == place_step(db@, tree@, walk@, *node, facts),
{
    let antecedent = get_single_antecedent(node);
    match node.kind {
        FlowNodeKind::Start | FlowNodeKind::Unreachable => step_origin(walk, facts),
        FlowNodeKind::LoopLabel
        | FlowNodeKind::Break
        | FlowNodeKind::Continue
        | FlowNodeKind::Return => go_on(walk, antecedent),
        FlowNodeKind::ForIStat(_) => match facts {
            NodeFacts::Loop { len_matches } => {
                if len_matches && walk.query.mode != FlowMode::IgnoreConditions {
                    return go_on(
                        walk.with_pending(
                            PendingConditionNarrow::Truthiness(InferConditionFlow::TrueCondition),
                        ),
                        antecedent,
                    );
                }
                go_on(walk, antecedent)
            },
            _ => FlowStep::Broken(InferFailReason::Unsupported),
        },
        FlowNodeKind::CallExprStat(_) => {
            if let NodeFacts::Call { returns_never } = facts {
                if antecedent.is_some() && walk.query.mode == FlowMode::MergeBranch
                    && returns_never {
                    return FlowStep::Unreachable(walk.query);
                }
            }
            go_on(walk, antecedent)
        },
        FlowNodeKind::BranchLabel | FlowNodeKind::NamedLabel => step_branches(tree, walk, node),
        FlowNodeKind::DeclPosition(position) => {
            if position > walk.query.var_ref_id.position {
                return go_on(walk, antecedent);
            }
            match facts {
                NodeFacts::Variable { answer, is_declared, initializer } => step_declaration(
                    walk,
                    answer,
                    is_declared,
                    initializer,
                ),
                _ => FlowStep::Broken(InferFailReason::Unsupported),
            }
        },
        FlowNodeKind::Assignment(_) => match facts {
            NodeFacts::Assignment(a) => step_assignment(db, walk, antecedent, a),
            _ => FlowStep::Broken(InferFailReason::Unsupported),
        },
        FlowNodeKind::ImplFunc(_) => match facts {
            NodeFacts::Function { is_same, signature } => {
                if !is_same {
                    return go_on(walk, antecedent);
                }
                match signature {
                    Some(found) => FlowStep::Finish { walk, found },
                    None => FlowStep::Fail {
                        query: walk.query,
                        reason: InferFailReason::Unsupported,
                    },
                }
            },
            _ => FlowStep::Broken(InferFailReason::Unsupported),
        },
        FlowNodeKind::TagCast(cast) => match facts {
            NodeFacts::Cast { applies } => step_tag_cast(walk, antecedent, cast, applies),
            _ => FlowStep::Broken(InferFailReason::Unsupported),
        },
        _ => FlowStep::Broken(InferFailReason::Unsupported),
    }
}

pub open spec fn condition_facts_step(
    walk: WalkTy,
    key: ConditionKey,
    facts: NodeFacts,
) -> StepTy {
    match facts {
        NodeFacts::Condition { said, field_key } => match said {
            Ok(action) => engine::action_step(
                walk,
                key,
                action@,
                match field_key {
                    Some(e) => Some(e@),
                    None => None,
                },
            ),
            Err(reason) => StepTy::FailCondition { query: walk.query, key, reason },
        },
        _ => StepTy::FailCondition {
            query: walk.query,
            key,
            reason: InferFailReason::Unsupported,
        },
    }
}

pub open spec fn condition_facts_record(facts: NodeFacts) -> Option<SettledTy> {
    match facts {
        NodeFacts::Condition { said, field_key } => match said {
            Ok(action) => engine::action_record(
                action@,
                match field_key {
                    Some(e) => Some(e@),
                    None => None,
                },
            ),
            Err(_) => None,
        },
        _ => None,
    }
}

fn step_condition_facts(
    conditions: &mut ConditionCache,
    walk: QueryWalk,
    key: ConditionKey,
    facts: NodeFacts,
) -> (r: FlowStep)
    ensures
        r@ == condition_facts_step(walk@, key, facts),
        final(conditions)@ == engine::with_record(
            old(conditions)@,
            key,
            condition_facts_record(facts),
        ),
{
    match facts {
        NodeFacts::Condition { said, field_key } => match said {
            Ok(action) => {
                let expr = match &field_key {
                    Some(e) => Some(e),
                    None => None,
                };
                apply_condition_action(conditions, walk, key, action, expr)
            },
            Err(reason) => FlowStep::FailCondition { query: walk.query, key, reason },
        },
        _ => FlowStep::FailCondition {
            query: walk.query,
            key,
            reason: InferFailReason::Unsupported,
        },
    }
}

pub open spec fn opt_visited(v: Option<FlowIdSet>) -> Option<Set<FlowId>> {
    match v {
        Some(ids) => Some(ids@),
        None => None,
    }
}

/// The places of a loop that were met.
pub open spec fn with_visit(visited: Option<Set<FlowId>>, at: FlowId, kind: Option<FlowNodeKind>) ->
    Option<Set<FlowId>> {
    match visited {
        Some(ids) => Some(ids.insert(at)),
        None => if kind == Some(FlowNodeKind::LoopLabel) || kind == Some(FlowNodeKind::Continue) {
            Some(Set::<FlowId>::empty().insert(at))
        } else {
            None
        },
    }
}

/// The step and what is then known of conditions and of the places met.
pub struct VisitTy {
    pub step: StepTy,
    pub conditions: Map<ConditionKey, ConditionTy>,
    pub visited: Option<Set<FlowId>>,
}

/// One place on the way back of a question. A loop is followed once; an answer that is known for the
/// place is taken; otherwise the place says what comes next.
pub open spec fn visit(
    db: DbTy,
    tree: TreeTy,
    cache: Map<FlowQuery, EntryStateTy>,
    conditions: Map<ConditionKey, ConditionTy>,
    visited: Option<Set<FlowId>>,
    walk: WalkTy,
    facts: NodeFacts,
) -> VisitTy {
    let seen = match visited {
        Some(ids) => ids.contains(walk.at),
        None => false,
    };
    let here = query::known(
        cache,
        FlowQuery { var_ref_id: walk.query.var_ref_id, flow_id: walk.at, mode: walk.query.mode },
    );
    let node = tree::node_at(tree, walk.at);
    if seen {
        VisitTy { step: origin_step(walk, facts_answer(facts)), conditions, visited }
    } else if walk.at != walk.query.flow_id && here is Some && here.unwrap() is Cache {
        VisitTy {
            step: match here.unwrap()->Cache_0 {
                ResultTy::Type(found) => StepTy::Finish { walk, found },
                ResultTy::Unreachable => StepTy::Unreachable(walk.query),
            },
            conditions,
            visited: with_visit(visited, walk.at, None),
        }
    } else {
        match node {
            None => VisitTy {
                step: StepTy::Broken(InferFailReason::Unsupported),
                conditions,
                visited: with_visit(visited, walk.at, None),
            },
            Some(node) => {
                let after = with_visit(visited, walk.at, Some(node.kind));
                match node_condition(node.kind) {
                    None => VisitTy {
                        step: place_step(db, tree, walk, node, facts),
                        conditions,
                        visited: after,
                    },
                    Some(flow) => match tree::single_of(node) {
                        None => VisitTy {
                            step: StepTy::Broken(InferFailReason::Unsupported),
                            conditions,
                            visited: after,
                        },
                        Some(at) => {
                            let moved = WalkTy { at, ..walk };
                            let key = ConditionKey {
                                var_ref_id: walk.query.var_ref_id,
                                flow_id: walk.at,
                                condition_flow: flow,
                            };
                            if walk.query.mode == FlowMode::IgnoreConditions {
                                VisitTy {
                                    step: StepTy::Walk(moved),
                                    conditions,
                                    visited: after,
                                }
                            } else {
                                match engine::condition_known_step(
                                    moved,
                                    state::known_condition(conditions, key),
                                ) {
                                    Some(step) => VisitTy { step, conditions, visited: after },
                                    None => VisitTy {
                                        step: condition_facts_step(moved, key, facts),
                                        conditions: engine::with_record(
                                            state::recorded_condition(conditions, key, Some(ConditionTy::Ready)),
                                            key,
                                            condition_facts_record(facts),
                                        ),
                                        visited: after,
                                    },
                                }
                            }
                        },
                    },
                }
            },
        }
    }
}

fn note_visit(visited: &mut Option<FlowIdSet>, at: FlowId, starts: bool)
    ensures
        opt_visited(*final(visited)) == (match opt_visited(*old(visited)) {
            Some(ids) => Some(ids.insert(at)),
            None => if starts {
                Some(Set::<FlowId>::empty().insert(at))
            } else {
                None
            },
        }),
{
    match visited.take() {
        Some(ids) => {
            let mut ids = ids;
            ids.insert(at);
            *visited = Some(ids);
        },
        None => {
            if starts {
                let mut ids = FlowIdSet::new();
                ids.insert(at);
                *visited = Some(ids);
            } else {
                *visited = None;
            }
        },
    }
}

fn step_condition_node(
    conditions: &mut ConditionCache,
    walk: QueryWalk,
    node: &FlowNode,
    flow: InferConditionFlow,
    facts: NodeFacts,
) -> (r: FlowStep)
    ensures
        ({
            let key = ConditionKey {
                var_ref_id: walk@.query.var_ref_id,
                flow_id: walk@.at,
                condition_flow: flow,
            };
            match tree::single_of(*node) {
                None => r@ == StepTy::Broken(InferFailReason::Unsupported)
                    && final(conditions)@ == old(conditions)@,
                Some(at) => {
                    let moved = WalkTy { at, ..walk@ };
                    if walk@.query.mode == FlowMode::IgnoreConditions {
                        r@ == StepTy::Walk(moved) && final(conditions)@ == old(conditions)@
                    } else {
                        match engine::condition_known_step(
                            moved,
                            state::known_condition(old(conditions)@, key),
                        ) {
                            Some(step) => r@ == step && final(conditions)@ == old(conditions)@,
                            None => r@ == condition_facts_step(moved, key, facts) && final(conditions)@ == engine::with_record(
                                state::recorded_condition(old(conditions)@, key, Some(ConditionTy::Ready)),
                                key,
                                condition_facts_record(facts),
                            ),
                        }
                    }
                },
            }
        }),
{
    let key = ConditionKey {
        var_ref_id: walk.query.var_ref_id,
        flow_id: walk.antecedent_flow_id,
        condition_flow: flow,
    };
    let at = match get_single_antecedent(node) {
        Some(at) => at,
        None => {
            return FlowStep::Broken(InferFailReason::Unsupported);
        },
    };
    let walk = walk.moved_to(at);
    if walk.query.mode == FlowMode::IgnoreConditions {
        return FlowStep::Walk(walk);
    }
    match step_condition(conditions, walk, key) {
        Ok(step) => step,
        Err(walk) => step_condition_facts(conditions, walk, key, facts),
    }
}

/// Follows a question through one place.
pub fn evaluate_walk(
    db: &DbIndex,
    tree: &FlowTree,
    cache: &TypeCache,
    conditions: &mut ConditionCache,
    visited: &mut Option<FlowIdSet>,
    walk: QueryWalk,
    facts: NodeFacts,
) -> (r: FlowStep)
    ensures
        ({
            let v = visit(
                db@,
                tree@,
                cache@,
                old(conditions)@,
                opt_visited(*old(visited)),
                walk@,
                facts,
            );
            &&& r@ == v.step
            &&& final(conditions)@ == v.conditions
            &&& opt_visited(*final(visited)) == v.visited
        }),
{
    let at = walk.antecedent_flow_id;
    let seen = match &*visited {
        Some(ids) => ids.contains(at),
        None => false,
    };
    if seen {
        return step_origin(walk, facts);
    }
    if at != walk.query.flow_id {
        let here = FlowQuery { var_ref_id: walk.query.var_ref_id, flow_id: at, mode: walk.query.mode };
        if let Some(CacheEntry::Cache(result)) = cache.get(here) {
            note_visit(visited, at, false);
            return match result {
                FlowQueryResult::Type(found) => FlowStep::Finish { walk, found },
                FlowQueryResult::Unreachable => FlowStep::Unreachable(walk.query),
            };
        }
    }
    let node = match tree.get_flow_node(at) {
        Some(node) => node,
        None => {
            note_visit(visited, at, false);
            return FlowStep::Broken(InferFailReason::Unsupported);
        },
    };
    let starts = matches!(node.kind, FlowNodeKind::LoopLabel | FlowNodeKind::Continue);
    note_visit(visited, at, starts);
    match node.kind {
        FlowNodeKind::TrueCondition(_) => step_condition_node(
            conditions,
            walk,
            &node,
            InferConditionFlow::TrueCondition,
            facts,
        ),
        FlowNodeKind::FalseCondition(_) => step_condition_node(
            conditions,
            walk,
            &node,
            InferConditionFlow::FalseCondition,
            facts,
        ),
        _ => step_place(db, tree, walk, &node, facts),
    }
}

} // verus!
