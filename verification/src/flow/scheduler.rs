//! The engine that runs questions, those they depend on first.

use vstd::prelude::*;

use crate::types;
use crate::db::DbIndex;
use crate::flow::{engine, query, resume, state};
use crate::flow::engine::{
    fail_condition_query, fail_query, finish_unreachable_branch, finish_walk, start_query,
};
use crate::flow::query::{EntryStateTy, FlowQuery, FlowQueryResult, ResultTy, TypeCache};
use crate::flow::resume::{TypeFacts, into_type_answer, resume_next};
use crate::flow::state::{
    ConditionCache, ConditionKey, ConditionTy, Continuation, ContinuationTy, FlowStep, QueryWalk,
    StepTy, WalkTy,
};
use crate::member::raw;
use crate::member::raw::InferFailReason;
use crate::types::LuaType;

verus! {

/// The questions that are being answered: what is known already, and who waits for an answer, the
/// last one first.
#[derive(Debug)]
pub struct FlowTypeEngine {
    pub cache: TypeCache,
    pub conditions: ConditionCache,
    pub stack: Vec<Continuation>,
}

pub struct EngineTy {
    pub cache: Map<FlowQuery, EntryStateTy>,
    pub conditions: Map<ConditionKey, ConditionTy>,
    pub stack: Seq<ContinuationTy>,
}

pub open spec fn continuation_tys(s: Seq<Continuation>) -> Seq<ContinuationTy> {
    Seq::new(s.len(), |i: int| s[i]@)
}

impl View for FlowTypeEngine {
    type V = EngineTy;

    open spec fn view(&self) -> EngineTy {
        EngineTy {
            cache: self.cache@,
            conditions: self.conditions@,
            stack: continuation_tys(self.stack@),
        }
    }
}

/// What the engine has to be given next.
#[derive(Debug)]
pub enum EngineState {
    /// What stands at the next place of a walk. A walk that was not left since its question began
    /// is fresh: the question is given up where the way back is broken.
    Evaluate { walk: QueryWalk, fresh: Option<FlowQuery> },
    /// What the one who waits makes of an answer.
    Answered(Result<FlowQueryResult, InferFailReason>),
    /// What only the syntax tree can tell.
    Outside(FlowStep),
}

pub enum EngineStateTy {
    Evaluate { walk: WalkTy, fresh: Option<FlowQuery> },
    Answered(Result<ResultTy, InferFailReason>),
    Outside(StepTy),
}

impl View for EngineState {
    type V = EngineStateTy;

    open spec fn view(&self) -> EngineStateTy {
        match self {
            EngineState::Evaluate { walk, fresh } => EngineStateTy::Evaluate {
                walk: walk@,
                fresh: *fresh,
            },
            EngineState::Answered(answer) => EngineStateTy::Answered(resume::res_result(*answer)),
            EngineState::Outside(step) => EngineStateTy::Outside(step@),
        }
    }
}

/// How a question begins: with what is known of it, with the failure of the global variable that it
/// is about, or at its place.
pub open spec fn started(
    engine: EngineTy,
    query: FlowQuery,
    unresolved: Option<InferFailReason>,
) -> (EngineTy, EngineStateTy) {
    match engine::begun(engine.cache, query) {
        Some(answer) => (engine, EngineStateTy::Answered(answer)),
        None => match unresolved {
            Some(reason) if query.var_ref_id.is_global => (
                engine,
                EngineStateTy::Answered(Err(reason)),
            ),
            _ => (
                EngineTy {
                    cache: query::recorded(engine.cache, query, Some(EntryStateTy::Ready)),
                    ..engine
                },
                EngineStateTy::Evaluate {
                    walk: WalkTy { query, at: query.flow_id, pending: Seq::empty() },
                    fresh: Some(query),
                },
            ),
        },
    }
}

/// What a step of a walk leads to.
pub open spec fn advanced(
    engine: EngineTy,
    step: StepTy,
    fresh: Option<FlowQuery>,
    unresolved: Option<InferFailReason>,
) -> (EngineTy, EngineStateTy) {
    match step {
        StepTy::Start { query, waiting } => started(
            EngineTy { stack: engine.stack.push(waiting), ..engine },
            query,
            unresolved,
        ),
        StepTy::Walk(walk) => (engine, EngineStateTy::Evaluate { walk, fresh }),
        StepTy::Unreachable(query) => (
            EngineTy {
                cache: query::recorded(
                    engine.cache,
                    query,
                    Some(EntryStateTy::Cache(ResultTy::Unreachable)),
                ),
                ..engine
            },
            EngineStateTy::Answered(Ok(ResultTy::Unreachable)),
        ),
        StepTy::Fail { query, reason } => (
            EngineTy { cache: query::recorded(engine.cache, query, None), ..engine },
            EngineStateTy::Answered(Err(reason)),
        ),
        StepTy::FailCondition { query, key, reason } => (
            EngineTy {
                cache: query::recorded(engine.cache, query, None),
                conditions: state::recorded_condition(engine.conditions, key, None),
                ..engine
            },
            EngineStateTy::Answered(Err(reason)),
        ),
        StepTy::Broken(reason) => match fresh {
            Some(query) => (
                EngineTy { cache: query::recorded(engine.cache, query, None), ..engine },
                EngineStateTy::Answered(Err(reason)),
            ),
            None => (engine, EngineStateTy::Answered(Err(reason))),
        },
        other => (engine, EngineStateTy::Outside(other)),
    }
}

impl FlowTypeEngine {
    pub fn new() -> (r: Self)
        ensures
            r@.cache == Map::<FlowQuery, EntryStateTy>::empty(),
            r@.conditions == Map::<ConditionKey, ConditionTy>::empty(),
            r@.stack == Seq::<ContinuationTy>::empty(),
    {
        let r = FlowTypeEngine {
            cache: TypeCache::new(),
            conditions: ConditionCache::new(),
            stack: Vec::new(),
        };
        assert(r@.stack =~= Seq::<ContinuationTy>::empty());
        r
    }

    /// Begins a question. For a global variable that is not known yet, `unresolved` says why.
    pub fn start(&mut self, query: FlowQuery, unresolved: Option<InferFailReason>) -> (r:
        EngineState)
        ensures
            (final(self)@, r@) == started(old(self)@, query, unresolved),
    {
        if query.var_ref_id.is_global && self.cache.get(query).is_none() {
            if let Some(reason) = unresolved {
                return EngineState::Answered(Err(reason));
            }
        }
        match start_query(&mut self.cache, query) {
            Some(answer) => EngineState::Answered(answer),
            None => {
                let walk = QueryWalk {
                    query,
                    antecedent_flow_id: query.flow_id,
                    pending_condition_narrows: Vec::new(),
                };
                assert(walk@.pending =~= Seq::empty());
                EngineState::Evaluate { walk, fresh: Some(query) }
            },
        }
    }

    /// Takes a step of a walk as far as the engine alone can.
    pub fn advance(
        &mut self,
        step: FlowStep,
        fresh: Option<FlowQuery>,
        unresolved: Option<InferFailReason>,
    ) -> (r: EngineState)
        ensures
            (final(self)@, r@) == advanced(old(self)@, step@, fresh, unresolved),
    {
        match step {
            FlowStep::Start { query, waiting } => {
                let ghost before = self.stack@;
                self.stack.push(waiting);
                assert(continuation_tys(self.stack@) =~= continuation_tys(before).push(waiting@));
                self.start(query, unresolved)
            },
            FlowStep::Walk(walk) => EngineState::Evaluate { walk, fresh },
            FlowStep::Unreachable(query) => {
                let result = finish_unreachable_branch(&mut self.cache, query);
                EngineState::Answered(Ok(result))
            },
            FlowStep::Fail { query, reason } => {
                fail_query(&mut self.cache, query);
                EngineState::Answered(Err(reason))
            },
            FlowStep::FailCondition { query, key, reason } => {
                fail_condition_query(&mut self.cache, &mut self.conditions, query, key);
                EngineState::Answered(Err(reason))
            },
            FlowStep::Broken(reason) => {
                if let Some(query) = fresh {
                    fail_query(&mut self.cache, query);
                }
                EngineState::Answered(Err(reason))
            },
            other => EngineState::Outside(other),
        }
    }

    /// Answers a question with the types from what was found to what the last condition left of it.
    pub fn finish(&mut self, query: FlowQuery, types: &Vec<LuaType>) -> (r: EngineState)
        requires
            types@.len() > 0,
        ensures
            r@ == EngineStateTy::Answered(Ok(engine::answered(query, types::tys(types@)))),
            final(self)@ == (EngineTy {
                cache: query::recorded(
                    old(self)@.cache,
                    query,
                    Some(EntryStateTy::Cache(engine::answered(query, types::tys(types@)))),
                ),
                ..old(self)@
            }),
    {
        let result = finish_walk(&mut self.cache, query, types);
        EngineState::Answered(Ok(result))
    }

    /// Hands an answer to the one who waits for it, whose next step is returned. Where nobody waits, it
    /// is the answer to the question that was asked first.
    pub fn resume(
        &mut self,
        db: &DbIndex,
        answer: Result<FlowQueryResult, InferFailReason>,
        facts: &TypeFacts,
    ) -> (r: Result<FlowStep, Result<LuaType, InferFailReason>>)
        ensures
            old(self)@.stack.len() == 0 ==> final(self)@ == old(self)@ && (r matches Err(last)
                && raw::res_ty(last) == resume::type_answer(resume::res_result(answer))),
            old(self)@.stack.len() > 0 ==> final(self)@ == (EngineTy {
                stack: old(self)@.stack.drop_last(),
                ..old(self)@
            }) && (r matches Ok(step) && step@ == resume::resumed(
                db@,
                old(self)@.stack.last(),
                resume::res_result(answer),
                facts@,
            )),
    {
        let ghost before = self.stack@;
        match self.stack.pop() {
            Some(waiting) => {
                assert(continuation_tys(self.stack@) =~= continuation_tys(before).drop_last());
                Ok(resume_next(db, waiting, answer, facts))
            },
            None => Err(into_type_answer(answer)),
        }
    }
}

/// Who asks a question whose answer is known gets just that answer, and nobody else who waits is
/// touched.
pub proof fn known_answer_goes_to_who_asked(
    engine: EngineTy,
    query: FlowQuery,
    waiting: ContinuationTy,
    unresolved: Option<InferFailReason>,
    result: ResultTy,
)
    requires
        query::known(engine.cache, query) == Some(EntryStateTy::Cache(result)),
    ensures
        ({
            let step = StepTy::Start { query, waiting };
            let (next, state) = advanced(engine, step, None, unresolved);
            &&& state == EngineStateTy::Answered(Ok(result))
            &&& next.stack.last() == waiting
            &&& next.stack.drop_last() == engine.stack
            &&& next.cache == engine.cache
        }),
{
    assert(engine.stack.push(waiting).drop_last() =~= engine.stack);
}

/// A question that is asked while it is being answered fails, and the failure leaves no record.
pub proof fn question_that_asks_itself_fails(
    engine: EngineTy,
    query: FlowQuery,
    waiting: ContinuationTy,
)
    requires
        query::known(engine.cache, query) == Some(EntryStateTy::Ready),
    ensures
        ({
            let (next, state) = advanced(engine, StepTy::Start { query, waiting }, None, None);
            &&& state == EngineStateTy::Answered(Err(InferFailReason::RecursiveInfer))
            &&& next.cache == engine.cache
        }),
{
}

} // verus!
