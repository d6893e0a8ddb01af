//! Questions on their way, what waits for answers, and the steps in between.

use vstd::prelude::*;

use crate::{tables, types};
use crate::flow::query::{CacheEntry, FlowId, FlowQuery, SyntaxId, VarRefId};
use crate::flow::replay::{FlowReplayQuery, ReplayTy};
use crate::flow::tree::{ExprTy, FlowExpr};
use crate::member::raw;
use crate::member::raw::InferFailReason;
use crate::tables::{SlotKey, SlotTable, find_slot, get_variable_kind, insert_slot, new_slots};
use crate::types::{LuaType, Ty};
use crate::types::complex::clone_opt_type;

verus! {

/// Which way a condition goes.
#[derive(Debug, Clone, Copy, PartialEq, Eq, Structural)]
pub enum InferConditionFlow {
    TrueCondition,
    FalseCondition,
}

/// What a condition on the way says of the type that is found behind it.
#[derive(Debug)]
pub enum PendingConditionNarrow {
    Truthiness(InferConditionFlow),
    Guard(u32),
    /// A condition on a field, with the type of the expression that is its key.
    Field { field: u32, key_type: Option<LuaType> },
}

pub enum PendingTy {
    Truthiness(InferConditionFlow),
    Guard(u32),
    Field { field: u32, key_type: Option<Ty> },
}

impl View for PendingConditionNarrow {
    type V = PendingTy;

    open spec fn view(&self) -> PendingTy {
        match self {
            PendingConditionNarrow::Truthiness(flow) => PendingTy::Truthiness(*flow),
            PendingConditionNarrow::Guard(guard) => PendingTy::Guard(*guard),
            PendingConditionNarrow::Field { field, key_type } => PendingTy::Field {
                field: *field,
                key_type: types::opt_ty(*key_type),
            },
        }
    }
}

impl PendingConditionNarrow {
    pub fn duplicate(&self) -> (r: Self)
        ensures
            r@ == self@,
    {
        match self {
            PendingConditionNarrow::Truthiness(flow) => PendingConditionNarrow::Truthiness(*flow),
            PendingConditionNarrow::Guard(guard) => PendingConditionNarrow::Guard(*guard),
            PendingConditionNarrow::Field { field, key_type } => PendingConditionNarrow::Field {
                field: *field,
                key_type: clone_opt_type(key_type),
            },
        }
    }
}

pub open spec fn pending_tys(s: Seq<PendingConditionNarrow>) -> Seq<PendingTy> {
    Seq::new(s.len(), |i: int| s[i]@)
}

/// A question that is followed back through the flow of control, with the conditions met on the way.
#[derive(Debug)]
pub struct QueryWalk {
    pub query: FlowQuery,
    pub antecedent_flow_id: FlowId,
    pub pending_condition_narrows: Vec<PendingConditionNarrow>,
}

pub struct WalkTy {
    pub query: FlowQuery,
    pub at: FlowId,
    pub pending: Seq<PendingTy>,
}

impl View for QueryWalk {
    type V = WalkTy;

    open spec fn view(&self) -> WalkTy {
        WalkTy {
            query: self.query,
            at: self.antecedent_flow_id,
            pending: pending_tys(self.pending_condition_narrows@),
        }
    }
}

impl QueryWalk {
    /// Starts to follow a question.
    pub fn new(query: FlowQuery) -> (r: Self)
        ensures
            r@ == (WalkTy { query, at: query.flow_id, pending: Seq::empty() }),
    {
        let r = QueryWalk {
            query,
            antecedent_flow_id: query.flow_id,
            pending_condition_narrows: Vec::new(),
        };
        assert(r@.pending =~= Seq::empty());
        r
    }

    pub fn moved_to(self, at: FlowId) -> (r: Self)
        ensures
            r@ == (WalkTy { at, ..self@ }),
    {
        QueryWalk {
            query: self.query,
            antecedent_flow_id: at,
            pending_condition_narrows: self.pending_condition_narrows,
        }
    }

    pub fn with_pending(self, pending: PendingConditionNarrow) -> (r: Self)
        ensures
            r@ == (WalkTy { pending: self@.pending.push(pending@), ..self@ }),
    {
        let ghost before = self.pending_condition_narrows@;
        let mut all = self.pending_condition_narrows;
        all.push(pending);
        assert(pending_tys(all@) =~= pending_tys(before).push(pending@));
        QueryWalk {
            query: self.query,
            antecedent_flow_id: self.antecedent_flow_id,
            pending_condition_narrows: all,
        }
    }
}

/// What a condition asks for.
#[derive(Debug)]
pub enum ConditionFlowAction {
    Continue,
    Unreachable,
    Result(LuaType),
    Pending(PendingConditionNarrow),
    /// The expression has to be typed first.
    NeedExprType { flow_id: FlowId, expr: FlowExpr, resume: u32 },
    /// Another variable has to be known first.
    NeedSubquery { subquery: u32, var_ref_id: VarRefId, flow_id: FlowId },
    NeedFieldLiteralSibling { sibling: u32, var_ref_id: VarRefId, flow_id: FlowId },
    NeedCorrelated { correlated: u32, root: FlowId },
}

pub enum ActionTy {
    Continue,
    Unreachable,
    Result(Ty),
    Pending(PendingTy),
    NeedExprType { flow_id: FlowId, expr: ExprTy, resume: u32 },
    NeedSubquery { subquery: u32, var_ref_id: VarRefId, flow_id: FlowId },
    NeedFieldLiteralSibling { sibling: u32, var_ref_id: VarRefId, flow_id: FlowId },
    NeedCorrelated { correlated: u32, root: FlowId },
}

impl View for ConditionFlowAction {
    type V = ActionTy;

    open spec fn view(&self) -> ActionTy {
        match self {
            ConditionFlowAction::Continue => ActionTy::Continue,
            ConditionFlowAction::Unreachable => ActionTy::Unreachable,
            ConditionFlowAction::Result(t) => ActionTy::Result(t@),
            ConditionFlowAction::Pending(p) => ActionTy::Pending(p@),
            ConditionFlowAction::NeedExprType { flow_id, expr, resume } => ActionTy::NeedExprType {
                flow_id: *flow_id,
                expr: expr@,
                resume: *resume,
            },
            ConditionFlowAction::NeedSubquery { subquery, var_ref_id, flow_id } =>
                ActionTy::NeedSubquery {
                subquery: *subquery,
                var_ref_id: *var_ref_id,
                flow_id: *flow_id,
            },
            ConditionFlowAction::NeedFieldLiteralSibling { sibling, var_ref_id, flow_id } =>
                ActionTy::NeedFieldLiteralSibling {
                sibling: *sibling,
                var_ref_id: *var_ref_id,
                flow_id: *flow_id,
            },
            ConditionFlowAction::NeedCorrelated { correlated, root } => ActionTy::NeedCorrelated {
                correlated: *correlated,
                root: *root,
            },
        }
    }
}

/// What a condition was found to say.
#[derive(Debug)]
pub enum SettledAction {
    Continue,
    Unreachable,
    Result(LuaType),
    Pending(PendingConditionNarrow),
}

pub enum SettledTy {
    Continue,
    Unreachable,
    Result(Ty),
    Pending(PendingTy),
}

impl View for SettledAction {
    type V = SettledTy;

    open spec fn view(&self) -> SettledTy {
        match self {
            SettledAction::Continue => SettledTy::Continue,
            SettledAction::Unreachable => SettledTy::Unreachable,
            SettledAction::Result(t) => SettledTy::Result(t@),
            SettledAction::Pending(p) => SettledTy::Pending(p@),
        }
    }
}

impl SettledAction {
    pub fn duplicate(&self) -> (r: Self)
        ensures
            r@ == self@,
    {
        match self {
            SettledAction::Continue => SettledAction::Continue,
            SettledAction::Unreachable => SettledAction::Unreachable,
            SettledAction::Result(t) => SettledAction::Result(t.clone()),
            SettledAction::Pending(p) => SettledAction::Pending(p.duplicate()),
        }
    }
}

/// One condition for one variable.
#[derive(Debug, Clone, Copy, PartialEq, Eq, Structural)]
pub struct ConditionKey {
    pub var_ref_id: VarRefId,
    pub flow_id: FlowId,
    pub condition_flow: InferConditionFlow,
}

pub enum ConditionTy {
    Ready,
    Cache(SettledTy),
}

pub open spec fn opt_condition(e: Option<CacheEntry<SettledAction>>) -> Option<ConditionTy> {
    match e {
        Some(CacheEntry::Ready) => Some(ConditionTy::Ready),
        Some(CacheEntry::Cache(a)) => Some(ConditionTy::Cache(a@)),
        None => None,
    }
}

/// What conditions were found to say: a table from conditions to slots, and what the slots hold. A
/// slot belongs to the condition that is written in it.
#[derive(Debug)]
pub struct ConditionCache {
    slots: SlotTable,
    entries: Vec<(ConditionKey, Option<CacheEntry<SettledAction>>)>,
}

/// The key under which the slot of a condition is found.
pub open spec fn condition_slot_key(key: ConditionKey) -> SlotKey {
    (
        key.var_ref_id.id,
        key.var_ref_id.position,
        tables::variable_kind(key.var_ref_id),
        key.flow_id.id,
        if key.condition_flow == InferConditionFlow::TrueCondition {
            1u8
        } else {
            0u8
        },
    )
}

proof fn lemma_slot_key_tells_conditions_apart(a: ConditionKey, b: ConditionKey)
    ensures
        condition_slot_key(a) == condition_slot_key(b) ==> a == b,
{
}

fn get_condition_slot_key(key: ConditionKey) -> (r: SlotKey)
    ensures
        r == condition_slot_key(key),
{
    let flow: u8 = match key.condition_flow {
        InferConditionFlow::TrueCondition => 1,
        InferConditionFlow::FalseCondition => 0,
    };
    (
        key.var_ref_id.id,
        key.var_ref_id.position,
        get_variable_kind(key.var_ref_id),
        key.flow_id.id,
        flow,
    )
}

impl ConditionCache {
    /// What the slot of a condition holds.
    pub closed spec fn slot_entry(&self, key: ConditionKey) -> Option<ConditionTy> {
        match tables::slot_of(self.slots, condition_slot_key(key)) {
            Some(slot) => if slot < self.entries@.len() && self.entries@[slot as int].0 == key {
                opt_condition(self.entries@[slot as int].1)
            } else {
                None
            },
            None => None,
        }
    }
}

impl View for ConditionCache {
    type V = Map<ConditionKey, ConditionTy>;

    open spec fn view(&self) -> Map<ConditionKey, ConditionTy> {
        Map::new(
            |key: ConditionKey| self.slot_entry(key) is Some,
            |key: ConditionKey| self.slot_entry(key).unwrap(),
        )
    }
}

/// What is known of a condition.
pub open spec fn known_condition(
    cache: Map<ConditionKey, ConditionTy>,
    key: ConditionKey,
) -> Option<ConditionTy> {
    if cache.dom().contains(key) {
        Some(cache[key])
    } else {
        None
    }
}

/// What is known once something new is known of a condition, or nothing any more.
pub open spec fn recorded_condition(
    cache: Map<ConditionKey, ConditionTy>,
    key: ConditionKey,
    entry: Option<ConditionTy>,
) -> Map<ConditionKey, ConditionTy> {
    match entry {
        Some(entry) => cache.insert(key, entry),
        None => cache.remove(key),
    }
}

impl ConditionCache {
    pub fn new() -> (r: Self)
        ensures
            r@ == Map::<ConditionKey, ConditionTy>::empty(),
    {
        let r = ConditionCache { slots: new_slots(), entries: Vec::new() };
        assert(r@ =~= Map::<ConditionKey, ConditionTy>::empty());
        r
    }

    pub fn get(&self, key: ConditionKey) -> (r: Option<CacheEntry<SettledAction>>)
        ensures
            opt_condition(r) == known_condition(self@, key),
    {
        match find_slot(&self.slots, get_condition_slot_key(key)) {
            Some(slot) => {
                if slot < self.entries.len() && self.entries[slot].0 == key {
                    match &self.entries[slot].1 {
                        Some(CacheEntry::Ready) => Some(CacheEntry::Ready),
                        Some(CacheEntry::Cache(a)) => Some(CacheEntry::Cache(a.duplicate())),
                        None => None,
                    }
                } else {
                    None
                }
            },
            None => None,
        }
    }

    pub fn put(&mut self, key: ConditionKey, entry: Option<CacheEntry<SettledAction>>)
        ensures
            final(self)@ == recorded_condition(old(self)@, key, opt_condition(entry)),
    {
        let ghost before = *self;
        let ghost said = opt_condition(entry);
        let slot_key = get_condition_slot_key(key);
        match find_slot(&self.slots, slot_key) {
            Some(slot) if slot < self.entries.len() && self.entries[slot].0 == key => {
                self.entries.set(slot, (key, entry));
            },
            _ => {
                let slot = self.entries.len();
                self.entries.push((key, entry));
                insert_slot(&mut self.slots, slot_key, slot);
            },
        }
        assert forall|other: ConditionKey|
            self.slot_entry(other) == (if other == key {
                said
            } else {
                before.slot_entry(other)
            }) by {
            lemma_slot_key_tells_conditions_apart(other, key);
        }
        assert(self@ =~= recorded_condition(before@, key, said));
    }
}

/// What an expression is typed for.
#[derive(Debug)]
pub enum FlowExprReplay {
    Assignment { antecedent: FlowId, explicit: Option<LuaType>, result_slot: usize },
    DeclInitializer { fail_reason: InferFailReason },
    Condition { key: ConditionKey, resume: u32 },
    FieldConditionKey { key: ConditionKey, field: u32 },
}

pub enum PurposeTy {
    Assignment { antecedent: FlowId, explicit: Option<Ty>, result_slot: usize },
    DeclInitializer { fail_reason: InferFailReason },
    Condition { key: ConditionKey, resume: u32 },
    FieldConditionKey { key: ConditionKey, field: u32 },
}

impl View for FlowExprReplay {
    type V = PurposeTy;

    open spec fn view(&self) -> PurposeTy {
        match self {
            FlowExprReplay::Assignment { antecedent, explicit, result_slot } =>
                PurposeTy::Assignment {
                antecedent: *antecedent,
                explicit: types::opt_ty(*explicit),
                result_slot: *result_slot,
            },
            FlowExprReplay::DeclInitializer { fail_reason } => PurposeTy::DeclInitializer {
                fail_reason: *fail_reason,
            },
            FlowExprReplay::Condition { key, resume } => PurposeTy::Condition {
                key: *key,
                resume: *resume,
            },
            FlowExprReplay::FieldConditionKey { key, field } => PurposeTy::FieldConditionKey {
                key: *key,
                field: *field,
            },
        }
    }
}

/// A question that waits for the answer to another one.
#[derive(Debug)]
pub enum Continuation {
    Merge { walk: QueryWalk, branches: Vec<FlowId>, next_pending: usize, merged: LuaType },
    AssignmentAntecedent { walk: QueryWalk, antecedent: FlowId, expr_type: LuaType, reuse: bool },
    AssignmentReachability { walk: QueryWalk, result_type: LuaType },
    ExprReplay { walk: QueryWalk, purpose: FlowExprReplay, replay: FlowReplayQuery },
    TagCastAntecedent { walk: QueryWalk, cast: SyntaxId },
    ConditionDependency { walk: QueryWalk, key: ConditionKey, subquery: u32 },
    FieldLiteralSiblingDependency { walk: QueryWalk, key: ConditionKey, sibling: u32 },
    CorrelatedSearchRoot { walk: QueryWalk, key: ConditionKey, correlated: u32 },
}

pub enum ContinuationTy {
    Merge { walk: WalkTy, branches: Seq<FlowId>, next_pending: usize, merged: Ty },
    AssignmentAntecedent { walk: WalkTy, antecedent: FlowId, expr_type: Ty, reuse: bool },
    AssignmentReachability { walk: WalkTy, result_type: Ty },
    ExprReplay { walk: WalkTy, purpose: PurposeTy, replay: ReplayTy },
    TagCastAntecedent { walk: WalkTy, cast: SyntaxId },
    ConditionDependency { walk: WalkTy, key: ConditionKey, subquery: u32 },
    FieldLiteralSiblingDependency { walk: WalkTy, key: ConditionKey, sibling: u32 },
    CorrelatedSearchRoot { walk: WalkTy, key: ConditionKey, correlated: u32 },
}

impl View for Continuation {
    type V = ContinuationTy;

    open spec fn view(&self) -> ContinuationTy {
        match self {
            Continuation::Merge { walk, branches, next_pending, merged } => ContinuationTy::Merge {
                walk: walk@,
                branches: branches@,
                next_pending: *next_pending,
                merged: merged@,
            },
            Continuation::AssignmentAntecedent { walk, antecedent, expr_type, reuse } =>
                ContinuationTy::AssignmentAntecedent {
                walk: walk@,
                antecedent: *antecedent,
                expr_type: expr_type@,
                reuse: *reuse,
            },
            Continuation::AssignmentReachability { walk, result_type } =>
                ContinuationTy::AssignmentReachability {
                walk: walk@,
                result_type: result_type@,
            },
            Continuation::ExprReplay { walk, purpose, replay } => ContinuationTy::ExprReplay {
                walk: walk@,
                purpose: purpose@,
                replay: replay@,
            },
            Continuation::TagCastAntecedent { walk, cast } => ContinuationTy::TagCastAntecedent {
                walk: walk@,
                cast: *cast,
            },
            Continuation::ConditionDependency { walk, key, subquery } =>
                ContinuationTy::ConditionDependency {
                walk: walk@,
                key: *key,
                subquery: *subquery,
            },
            Continuation::FieldLiteralSiblingDependency { walk, key, sibling } =>
                ContinuationTy::FieldLiteralSiblingDependency {
                walk: walk@,
                key: *key,
                sibling: *sibling,
            },
            Continuation::CorrelatedSearchRoot { walk, key, correlated } =>
                ContinuationTy::CorrelatedSearchRoot {
                walk: walk@,
                key: *key,
                correlated: *correlated,
            },
        }
    }
}

/// What is to be done next.
#[derive(Debug)]
pub enum FlowStep {
    /// Ask a question, while another one waits for the answer.
    Start { query: FlowQuery, waiting: Continuation },
    /// Go on following a question.
    Walk(QueryWalk),
    /// Answer a question with a type, after the conditions met on the way have narrowed it.
    Finish { walk: QueryWalk, found: LuaType },
    /// Answer a question with what cannot be reached.
    Unreachable(FlowQuery),
    /// Give a question up.
    Fail { query: FlowQuery, reason: InferFailReason },
    /// Give a question up, and forget what a condition was to say.
    FailCondition { query: FlowQuery, key: ConditionKey, reason: InferFailReason },
    /// Report that the way back is broken.
    Broken(InferFailReason),
    /// Type an expression.
    Replay { walk: QueryWalk, purpose: FlowExprReplay, replay: FlowReplayQuery },
    /// Ask what a condition says once an expression is typed.
    ResolveExprType {
        walk: QueryWalk,
        key: ConditionKey,
        resume: u32,
        flow_id: FlowId,
        expr_type: LuaType,
    },
    /// Ask what a condition says once another variable is known.
    ResolveSubquery {
        walk: QueryWalk,
        key: ConditionKey,
        subquery: u32,
        answer: Result<LuaType, InferFailReason>,
    },
    ResolveSibling { walk: QueryWalk, key: ConditionKey, sibling: u32, sibling_type: LuaType },
    ResolveCorrelated {
        walk: QueryWalk,
        key: ConditionKey,
        correlated: u32,
        answer: Result<LuaType, InferFailReason>,
    },
    /// Apply a cast to a type.
    Cast { walk: QueryWalk, cast: SyntaxId, input: LuaType },
}

pub enum StepTy {
    Start { query: FlowQuery, waiting: ContinuationTy },
    Walk(WalkTy),
    Finish { walk: WalkTy, found: Ty },
    Unreachable(FlowQuery),
    Fail { query: FlowQuery, reason: InferFailReason },
    FailCondition { query: FlowQuery, key: ConditionKey, reason: InferFailReason },
    Broken(InferFailReason),
    Replay { walk: WalkTy, purpose: PurposeTy, replay: ReplayTy },
    ResolveExprType {
        walk: WalkTy,
        key: ConditionKey,
        resume: u32,
        flow_id: FlowId,
        expr_type: Ty,
    },
    ResolveSubquery {
        walk: WalkTy,
        key: ConditionKey,
        subquery: u32,
        answer: Result<Ty, InferFailReason>,
    },
    ResolveSibling { walk: WalkTy, key: ConditionKey, sibling: u32, sibling_type: Ty },
    ResolveCorrelated {
        walk: WalkTy,
        key: ConditionKey,
        correlated: u32,
        answer: Result<Ty, InferFailReason>,
    },
    Cast { walk: WalkTy, cast: SyntaxId, input: Ty },
}

impl View for FlowStep {
    type V = StepTy;

    open spec fn view(&self) -> StepTy {
        match self {
            FlowStep::Start { query, waiting } => StepTy::Start {
                query: *query,
                waiting: waiting@,
            },
            FlowStep::Walk(walk) => StepTy::Walk(walk@),
            FlowStep::Finish { walk, found } => StepTy::Finish { walk: walk@, found: found@ },
            FlowStep::Unreachable(query) => StepTy::Unreachable(*query),
            FlowStep::Fail { query, reason } => StepTy::Fail { query: *query, reason: *reason },
            FlowStep::FailCondition { query, key, reason } => StepTy::FailCondition {
                query: *query,
                key: *key,
                reason: *reason,
            },
            FlowStep::Broken(reason) => StepTy::Broken(*reason),
            FlowStep::Replay { walk, purpose, replay } => StepTy::Replay {
                walk: walk@,
                purpose: purpose@,
                replay: replay@,
            },
            FlowStep::ResolveExprType { walk, key, resume, flow_id, expr_type } =>
                StepTy::ResolveExprType {
                walk: walk@,
                key: *key,
                resume: *resume,
                flow_id: *flow_id,
                expr_type: expr_type@,
            },
            FlowStep::ResolveSubquery { walk, key, subquery, answer } => StepTy::ResolveSubquery {
                walk: walk@,
                key: *key,
                subquery: *subquery,
                answer: raw::res_ty(*answer),
            },
            FlowStep::ResolveSibling { walk, key, sibling, sibling_type } => StepTy::ResolveSibling {
                walk: walk@,
                key: *key,
                sibling: *sibling,
                sibling_type: sibling_type@,
            },
            FlowStep::ResolveCorrelated { walk, key, correlated, answer } =>
                StepTy::ResolveCorrelated {
                walk: walk@,
                key: *key,
                correlated: *correlated,
                answer: raw::res_ty(*answer),
            },
            FlowStep::Cast { walk, cast, input } => StepTy::Cast {
                walk: walk@,
                cast: *cast,
                input: input@,
            },
        }
    }
}

} // verus!
