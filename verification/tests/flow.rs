use emmylua_code_analysis::db::{DbIndex, TypeOps};
use emmylua_code_analysis::flow::assign::{
    finish_assignment_result, is_exact_assignment_expr_type, preserves_assignment_expr_type,
};
use emmylua_code_analysis::flow::infer_cache::LuaInferCache;
use emmylua_code_analysis::flow::query::{
    CacheEntry, FlowId, FlowMode, FlowQuery, FlowQueryResult, SyntaxId, TypeCache, VarRefId,
};
use emmylua_code_analysis::flow::resume::{finish_expr_replay, TypeFacts};
use emmylua_code_analysis::flow::scheduler::{EngineState, FlowTypeEngine};
use emmylua_code_analysis::flow::state::{
    ConditionCache, ConditionFlowAction, ConditionKey, FlowExprReplay, FlowStep, InferConditionFlow,
    PendingConditionNarrow, QueryWalk, SettledAction,
};
use emmylua_code_analysis::tables::FlowIdSet;
use emmylua_code_analysis::flow::tree::{
    get_branch_label_flow_ids, FlowAntecedent, FlowNode, FlowNodeKind, FlowTree,
};
use emmylua_code_analysis::flow::walk::{evaluate_walk, NodeFacts};
use emmylua_code_analysis::member::raw::InferFailReason;
use emmylua_code_analysis::types::{FileId, LuaType};

fn variable() -> VarRefId {
    VarRefId { id: 7, position: 10, is_index_ref: false, is_global: false }
}

fn flow(id: u32) -> FlowId {
    FlowId { id }
}

fn node(kind: FlowNodeKind, antecedent: Option<u32>) -> FlowNode {
    FlowNode { kind, antecedent: antecedent.map(|id| FlowAntecedent::Single(flow(id))) }
}

/// Two branches behind a start, one for each outcome of a condition, which meet at a label.
fn two_branches() -> FlowTree {
    FlowTree {
        nodes: vec![
            node(FlowNodeKind::Start, None),
            node(FlowNodeKind::TrueCondition(SyntaxId { id: 1 }), Some(0)),
            node(FlowNodeKind::FalseCondition(SyntaxId { id: 1 }), Some(0)),
            FlowNode {
                kind: FlowNodeKind::BranchLabel,
                antecedent: Some(FlowAntecedent::Multiple(0)),
            },
        ],
        multi_antecedents: vec![vec![flow(1), flow(2)]],
    }
}

fn without_false_and_nil(typ: LuaType) -> LuaType {
    TypeOps::remove(&typ, &LuaType::Nil)
}

fn run(
    tree: &FlowTree,
    engine: &mut FlowTypeEngine,
    query: FlowQuery,
    facts: &dyn Fn(FlowId) -> NodeFacts,
) -> Result<LuaType, InferFailReason> {
    let db = DbIndex::new();
    let types = TypeFacts { origin: None, slot: None, narrowed: None, narrowed_alone: None };
    let mut visited: Option<FlowIdSet> = None;
    let mut state = engine.start(query, None);
    loop {
        state = match state {
            EngineState::Evaluate { walk, fresh } => {
                let at = walk.antecedent_flow_id;
                let step = evaluate_walk(
                    &db,
                    tree,
                    &engine.cache,
                    &mut engine.conditions,
                    &mut visited,
                    walk,
                    facts(at),
                );
                engine.advance(step, fresh, None)
            }
            EngineState::Answered(answer) => {
                visited = None;
                match engine.resume(&db, answer, &types) {
                    Ok(step) => engine.advance(step, None, None),
                    Err(last) => return last,
                }
            }
            EngineState::Outside(FlowStep::Finish { walk, found }) => {
                let mut steps = vec![found];
                for narrow in walk.pending_condition_narrows.iter().rev() {
                    let last = steps[steps.len() - 1].clone();
                    steps.push(match narrow {
                        PendingConditionNarrow::Truthiness(InferConditionFlow::TrueCondition) => {
                            without_false_and_nil(last)
                        }
                        _ => last,
                    });
                }
                engine.finish(walk.query, &steps)
            }
            EngineState::Outside(step) => panic!("unexpected step: {step:?}"),
        };
    }
}

fn variable_of(typ: LuaType) -> NodeFacts {
    NodeFacts::Variable { answer: Ok(typ), is_declared: true, initializer: None }
}

fn condition(action: ConditionFlowAction) -> NodeFacts {
    NodeFacts::Condition { said: Ok(action), field_key: None }
}

#[test]
fn branches_are_united_where_they_meet() {
    let mut engine = FlowTypeEngine::new();
    let query = FlowQuery::new(variable(), flow(3));
    let answer = run(&two_branches(), &mut engine, query, &|at| match at.id {
        1 => condition(ConditionFlowAction::Result(LuaType::String)),
        2 => condition(ConditionFlowAction::Result(LuaType::Number)),
        _ => variable_of(LuaType::Any),
    });
    assert_eq!(answer, Ok(TypeOps::union(&LuaType::String, &LuaType::Number)));
    assert!(engine.stack.is_empty());
}

#[test]
fn impossible_branch_contributes_nothing() {
    let mut engine = FlowTypeEngine::new();
    let query = FlowQuery::new(variable(), flow(3));
    let answer = run(&two_branches(), &mut engine, query, &|at| match at.id {
        1 => condition(ConditionFlowAction::Result(LuaType::String)),
        2 => condition(ConditionFlowAction::Unreachable),
        _ => variable_of(LuaType::Any),
    });
    assert_eq!(answer, Ok(LuaType::String));
}

#[test]
fn condition_narrows_what_is_found_behind_it() {
    let mut engine = FlowTypeEngine::new();
    let query = FlowQuery::new(variable(), flow(1));
    let optional = TypeOps::union(&LuaType::String, &LuaType::Nil);
    let truthy =
        || PendingConditionNarrow::Truthiness(InferConditionFlow::TrueCondition);
    let answer = run(&two_branches(), &mut engine, query, &|at| match at.id {
        1 => condition(ConditionFlowAction::Pending(truthy())),
        _ => variable_of(optional.clone()),
    });
    assert_eq!(answer, Ok(LuaType::String));
    let again = run(&two_branches(), &mut engine, query, &|_| NodeFacts::Nothing);
    assert_eq!(again, Ok(LuaType::String));
    let plain = FlowQuery { mode: FlowMode::IgnoreConditions, ..query };
    let answer = run(&two_branches(), &mut engine, plain, &|_| variable_of(optional.clone()));
    assert_eq!(answer, Ok(optional));
}

#[test]
fn failed_question_may_be_asked_again() {
    let mut engine = FlowTypeEngine::new();
    let query = FlowQuery::new(variable(), flow(0));
    let failing = |_: FlowId| NodeFacts::Variable {
        answer: Err(InferFailReason::NeedResolve(3)),
        is_declared: false,
        initializer: None,
    };
    let tree = two_branches();
    assert_eq!(
        run(&tree, &mut engine, query, &failing),
        Err(InferFailReason::NeedResolve(3))
    );
    assert_eq!(
        run(&tree, &mut engine, query, &|_| variable_of(LuaType::Boolean)),
        Ok(LuaType::Boolean)
    );
}

#[test]
fn broken_way_back_is_reported() {
    let mut engine = FlowTypeEngine::new();
    let query = FlowQuery::new(variable(), flow(9));
    assert_eq!(
        run(&two_branches(), &mut engine, query, &|_| NodeFacts::Nothing),
        Err(InferFailReason::Unsupported)
    );
    assert!(engine.cache.get(query).is_none());
}

#[test]
fn question_that_asks_itself_is_refused() {
    let mut engine = FlowTypeEngine::new();
    let query = FlowQuery::new(variable(), flow(0));
    assert!(matches!(engine.start(query, None), EngineState::Evaluate { .. }));
    assert!(matches!(
        engine.start(query, None),
        EngineState::Answered(Err(InferFailReason::RecursiveInfer))
    ));
}

#[test]
fn unresolved_global_fails_before_it_is_followed() {
    let mut engine = FlowTypeEngine::new();
    let global = VarRefId { is_global: true, ..variable() };
    let query = FlowQuery::new(global, flow(0));
    let state = engine.start(query, Some(InferFailReason::NeedResolve(4)));
    assert!(matches!(state, EngineState::Answered(Err(InferFailReason::NeedResolve(4)))));
    assert!(engine.cache.get(query).is_none());
    assert!(matches!(engine.start(query, None), EngineState::Evaluate { .. }));
}

#[test]
fn answers_are_kept_for_one_question_each() {
    let mut cache = TypeCache::new();
    let query = FlowQuery::new(variable(), flow(2));
    let others = [
        FlowQuery { mode: FlowMode::MergeBranch, ..query },
        FlowQuery { flow_id: flow(3), ..query },
        FlowQuery { var_ref_id: VarRefId { is_global: true, ..variable() }, ..query },
        FlowQuery { var_ref_id: VarRefId { is_index_ref: true, ..variable() }, ..query },
    ];
    cache.put(query, Some(CacheEntry::Ready));
    assert!(matches!(cache.get(query), Some(CacheEntry::Ready)));
    cache.put(query, Some(CacheEntry::Cache(FlowQueryResult::Type(LuaType::String))));
    for other in others {
        assert!(cache.get(other).is_none());
        cache.put(other, Some(CacheEntry::Cache(FlowQueryResult::Unreachable)));
    }
    match cache.get(query) {
        Some(CacheEntry::Cache(result)) => assert_eq!(result.into_type(), LuaType::String),
        other => panic!("{other:?}"),
    }
    cache.put(query, None);
    assert!(cache.get(query).is_none());
    match cache.get(others[1]) {
        Some(CacheEntry::Cache(result)) => assert_eq!(result.into_type(), LuaType::Never),
        other => panic!("{other:?}"),
    }
}

#[test]
fn conditions_are_kept_for_one_outcome_each() {
    let mut cache = ConditionCache::new();
    let key = ConditionKey {
        var_ref_id: variable(),
        flow_id: flow(1),
        condition_flow: InferConditionFlow::TrueCondition,
    };
    let other = ConditionKey { condition_flow: InferConditionFlow::FalseCondition, ..key };
    cache.put(key, Some(CacheEntry::Cache(SettledAction::Unreachable)));
    assert!(matches!(cache.get(key), Some(CacheEntry::Cache(SettledAction::Unreachable))));
    assert!(cache.get(other).is_none());
    cache.put(key, None);
    assert!(cache.get(key).is_none());
}

#[test]
fn places_are_in_a_set_once() {
    let mut set = FlowIdSet::new();
    assert!(!set.contains(flow(4)));
    assert!(set.insert(flow(4)));
    assert!(!set.insert(flow(4)));
    assert!(set.contains(flow(4)));
    assert!(!set.contains(flow(5)));
}

#[test]
fn branches_behind_other_labels_are_listed_once() {
    let mut tree = two_branches();
    tree.nodes.push(FlowNode {
        kind: FlowNodeKind::BranchLabel,
        antecedent: Some(FlowAntecedent::Multiple(1)),
    });
    tree.multi_antecedents.push(vec![flow(3), flow(3), flow(0)]);
    let label = tree.nodes[4];
    let mut found = get_branch_label_flow_ids(&tree, &label).unwrap();
    found.sort_by_key(|id| id.id);
    assert_eq!(found, vec![flow(0), flow(1), flow(2)]);
}

#[test]
fn modes_are_kept_on_the_way() {
    assert_eq!(FlowMode::Normal.for_merge_contribution(), FlowMode::MergeBranch);
    assert_eq!(
        FlowMode::IgnoreConditions.for_merge_contribution(),
        FlowMode::IgnoreConditions
    );
    assert_eq!(FlowMode::IgnoreConditions.for_point_dependency(), FlowMode::Normal);
    assert_eq!(FlowMode::MergeBranch.for_point_dependency(), FlowMode::MergeBranch);
}

#[test]
fn assigned_literals_are_exact() {
    assert!(is_exact_assignment_expr_type(&LuaType::Nil));
    assert!(is_exact_assignment_expr_type(&LuaType::IntegerConst(1)));
    assert!(!is_exact_assignment_expr_type(&LuaType::Integer));
    assert!(preserves_assignment_expr_type(&LuaType::StringConst("a".to_string())));
    let source = LuaType::String;
    assert_eq!(
        finish_assignment_result(&source, &LuaType::Unknown, &None, &None, true, &None),
        LuaType::String
    );
}

#[test]
fn replay_is_laid_over_and_taken_off_again() {
    let mut cache = LuaInferCache::new(FileId::new(1));
    let expr = SyntaxId { id: 1 };
    let table = SyntaxId { id: 2 };
    cache.expr_no_flow_cache.put(expr, CacheEntry::Cache(Some(LuaType::String)));
    let outer = cache.begin_replay_overlay(&vec![(expr, LuaType::Number)], &vec![table, table]);
    assert!(outer.is_some());
    assert_eq!(cache.replay_expr_type(expr), Some(&LuaType::Number));
    assert!(cache.is_no_flow_table_expr(table));
    assert!(cache.expr_no_flow_cache.get(expr).is_none());
    let inner = cache.begin_replay_overlay(&vec![(expr, LuaType::Boolean)], &vec![table]);
    assert_eq!(cache.replay_expr_type(expr), Some(&LuaType::Boolean));
    cache.expr_no_flow_cache.put(expr, CacheEntry::Ready);
    cache.end_replay_overlay(inner);
    assert_eq!(cache.replay_expr_type(expr), Some(&LuaType::Number));
    assert!(cache.is_no_flow_table_expr(table));
    cache.end_replay_overlay(outer);
    assert_eq!(cache.replay_expr_type(expr), None);
    assert!(!cache.is_no_flow_table_expr(table));
    match cache.expr_no_flow_cache.get(expr) {
        Some(CacheEntry::Cache(Some(typ))) => assert_eq!(typ, LuaType::String),
        other => panic!("{other:?}"),
    }
    let nothing = cache.begin_replay_overlay(&Vec::new(), &Vec::new());
    assert!(nothing.is_none());
    assert!(cache.expr_no_flow_cache.get(expr).is_some());
}

#[test]
fn forked_cache_keeps_the_mode_alone() {
    let mut cache = LuaInferCache::new(FileId::new(1));
    assert!(!cache.set_no_flow(true));
    let fork = cache.fork_for_file(FileId::new(2));
    assert!(fork.is_no_flow());
    assert_eq!(fork.get_file_id(), FileId::new(2));
    assert!(cache.set_no_flow(false));
    assert!(!cache.is_no_flow());
}

#[test]
fn typed_key_completes_a_condition_on_a_field() {
    let db = DbIndex::new();
    let mut conditions = ConditionCache::new();
    let key = ConditionKey {
        var_ref_id: variable(),
        flow_id: flow(1),
        condition_flow: InferConditionFlow::TrueCondition,
    };
    let facts = TypeFacts { origin: None, slot: None, narrowed: None, narrowed_alone: None };
    let walk = QueryWalk::new(FlowQuery::new(variable(), flow(1)));
    let purpose = FlowExprReplay::FieldConditionKey { key, field: 8 };
    let typed = Ok(Some(LuaType::String));
    match finish_expr_replay(&db, &mut conditions, walk, purpose, flow(0), typed, &facts) {
        FlowStep::Walk(walk) => assert!(matches!(
            &walk.pending_condition_narrows[..],
            [PendingConditionNarrow::Field { field: 8, key_type: Some(LuaType::String) }]
        )),
        other => panic!("{other:?}"),
    }
    assert!(matches!(
        conditions.get(key),
        Some(CacheEntry::Cache(SettledAction::Pending(PendingConditionNarrow::Field {
            field: 8,
            key_type: Some(LuaType::String)
        })))
    ));
}
