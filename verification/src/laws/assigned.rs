//! What a variable is known to be behind assignments, branches and conditions.

use vstd::prelude::*;

use crate::db;
use crate::db::{DbTy, DeclTy, OwnerTy};
use crate::flow::{assign, engine, replay, resume, walk};
use crate::flow::query::{EntryStateTy, FlowId, FlowMode, FlowQuery, ResultTy, SyntaxId, VarRefId};
use crate::flow::replay::ReplayTy;
use crate::flow::resume::FactsTy;
use crate::flow::state::{
    ConditionFlowAction, ConditionKey, ConditionTy, ContinuationTy, InferConditionFlow, PendingTy,
    PurposeTy, SettledTy, StepTy, WalkTy,
};
use crate::flow::tree::{DependencyTy, ExprTy, FlowAntecedent, FlowNode, FlowNodeKind, TreeTy};
use crate::flow::walk::{AssignmentTy, NodeFacts};
use crate::laws::joining;
use crate::member::collect;
use crate::member::raw::InferFailReason;
use crate::type_check::assignable;
use crate::type_check::structured::declared;
use crate::types::{
    InFiled, LuaType, ObjectTy, Ty, UnionTy, VariadicTy, basic, equality, equivalence, predicates,
};

verus! {

/// A type that says what kind of value there is, and nothing of the value itself.
pub open spec fn is_broad(t: Ty) -> bool {
    match t {
        Ty::Boolean | Ty::String | Ty::Integer | Ty::Number | Ty::Table | Ty::Function => true,
        Ty::Thread | Ty::Userdata | Ty::Io | Ty::Any => true,
        Ty::Ref(_) | Ty::Def(_) | Ty::Array(_) | Ty::Tuple(_) | Ty::Generic(_) => true,
        Ty::DocFunction(_) | Ty::Signature(_) | Ty::TableGeneric(_) | Ty::Intersection(_) => true,
        _ => false,
    }
}

/// A type that tells its only value.
pub open spec fn is_literal(t: Ty) -> bool {
    match t {
        Ty::BooleanConst(_) | Ty::StringConst(_) | Ty::IntegerConst(_) | Ty::FloatConst(_) => true,
        Ty::DocBooleanConst(_) | Ty::DocStringConst(_) | Ty::DocIntegerConst(_) | Ty::Nil => true,
        _ => false,
    }
}

/// The run of values of the given types.
pub open spec fn run_of_types(types: Seq<Ty>) -> Ty {
    Ty::Variadic(Box::new(VariadicTy::Multi(types)))
}

/// The values that a call yields are there in order: at each place the one of that place, and none
/// behind the last.
pub proof fn run_yields_each_value_at_its_place(types: Seq<Ty>, k: nat)
    requires
        forall|i: int| 0 <= i < types.len() ==> is_broad(#[trigger] types[i]) || is_literal(types[i]),
    ensures
        k < types.len() ==> predicates::result_slot(run_of_types(types), k) == Some(types[k as int]),
        k >= types.len() ==> predicates::result_slot(run_of_types(types), k) is None,
{
    reveal_with_fuel(predicates::result_slot, 3);
    if k < types.len() {
        assert(is_broad(types[k as int]) || is_literal(types[k as int]));
    }
    if types.len() > 0 {
        assert(is_broad(types[types.len() - 1]) || is_literal(types[types.len() - 1]));
    }
}

/// A single value is there at the first place only; a value that is repeated, at every place.
pub proof fn single_and_repeated_values(t: Ty, k: nat)
    requires
        is_broad(t) || is_literal(t),
    ensures
        predicates::result_slot(t, 0) == Some(t),
        k > 0 ==> predicates::result_slot(t, k) is None,
        predicates::result_slot(Ty::Variadic(Box::new(VariadicTy::Base(t))), k) == Some(t),
{
    reveal_with_fuel(predicates::result_slot, 2);
}

/// Where several variables are assigned what one call yields, each gets the value of its own place.
pub proof fn assigned_run_gives_each_variable_its_value(
    db: DbTy,
    walk: WalkTy,
    antecedent: FlowId,
    flow_id: FlowId,
    types: Seq<Ty>,
    k: usize,
    facts: FactsTy,
)
    requires
        forall|i: int| 0 <= i < types.len() ==> is_broad(#[trigger] types[i]) || is_literal(types[i]),
        k < types.len(),
        is_broad(types[k as int]),
        facts.origin is None || !(types[k as int] is Integer),
        walk.query.mode != FlowMode::MergeBranch,
    ensures
        resume::replayed_step(
            db,
            walk,
            PurposeTy::Assignment { antecedent, explicit: None, result_slot: k },
            flow_id,
            Ok(Some(run_of_types(types))),
            facts,
        ) == (StepTy::Finish { walk, found: types[k as int] }),
{
    run_yields_each_value_at_its_place(types, k as nat);
}

/// A variable behind the last value of a call is assigned nil: what it was before is asked for, to be
/// narrowed to nil.
pub proof fn variable_behind_the_last_value_is_nil(
    db: DbTy,
    walk: WalkTy,
    antecedent: FlowId,
    flow_id: FlowId,
    types: Seq<Ty>,
    k: usize,
    facts: FactsTy,
)
    requires
        forall|i: int| 0 <= i < types.len() ==> is_broad(#[trigger] types[i]) || is_literal(types[i]),
        k >= types.len(),
        walk.query.mode == FlowMode::Normal,
    ensures
        resume::replayed_step(
            db,
            walk,
            PurposeTy::Assignment { antecedent, explicit: None, result_slot: k },
            flow_id,
            Ok(Some(run_of_types(types))),
            facts,
        ) == (StepTy::Start {
            query: FlowQuery {
                var_ref_id: walk.query.var_ref_id,
                flow_id: antecedent,
                mode: FlowMode::Normal,
            },
            waiting: ContinuationTy::AssignmentAntecedent {
                walk,
                antecedent,
                expr_type: Ty::Nil,
                reuse: true,
            },
        }),
{
    run_yields_each_value_at_its_place(types, k as nat);
}

/// What a single expression is assigned to has the type of the expression.
pub proof fn assigned_broad_type_is_found(
    db: DbTy,
    walk: WalkTy,
    antecedent: FlowId,
    flow_id: FlowId,
    t: Ty,
    facts: FactsTy,
)
    requires
        is_broad(t),
        facts.origin is None || !(t is Integer),
        walk.query.mode != FlowMode::MergeBranch,
    ensures
        resume::replayed_step(
            db,
            walk,
            PurposeTy::Assignment { antecedent, explicit: None, result_slot: 0 },
            flow_id,
            Ok(Some(t)),
            facts,
        ) == (StepTy::Finish { walk, found: t }),
{
    single_and_repeated_values(t, 0);
}

/// A variable that starts with an expression has its first value.
pub proof fn initializer_gives_its_first_value(
    db: DbTy,
    walk: WalkTy,
    fail_reason: InferFailReason,
    flow_id: FlowId,
    types: Seq<Ty>,
    t: Ty,
    facts: FactsTy,
)
    requires
        types.len() > 0,
        forall|i: int| 0 <= i < types.len() ==> is_broad(#[trigger] types[i]) || is_literal(types[i]),
        is_broad(t) || is_literal(t),
    ensures
        resume::replayed_step(
            db,
            walk,
            PurposeTy::DeclInitializer { fail_reason },
            flow_id,
            Ok(Some(run_of_types(types))),
            facts,
        ) == (StepTy::Finish { walk, found: types[0] }),
        resume::replayed_step(
            db,
            walk,
            PurposeTy::DeclInitializer { fail_reason },
            flow_id,
            Ok(Some(t)),
            facts,
        ) == (StepTy::Finish { walk, found: t }),
        resume::replayed_step(
            db,
            walk,
            PurposeTy::DeclInitializer { fail_reason },
            flow_id,
            Ok(Some(run_of_types(Seq::empty()))),
            facts,
        ) == (StepTy::Fail { query: walk.query, reason: fail_reason }),
{
    run_yields_each_value_at_its_place(types, 0);
    run_yields_each_value_at_its_place(Seq::empty(), 0);
    single_and_repeated_values(t, 0);
}

/// In a branch, what is assigned counts only if the assignment can be reached: that is asked first,
/// and then decides.
pub proof fn assignment_in_a_branch_counts_if_reached(
    db: DbTy,
    walk: WalkTy,
    antecedent: FlowId,
    t: Ty,
    before: Ty,
    facts: FactsTy,
)
    requires
        walk.query.mode == FlowMode::MergeBranch,
    ensures
        resume::assigned_step(walk, antecedent, t) matches StepTy::Start { query, waiting } && {
            &&& query == (FlowQuery {
                var_ref_id: walk.query.var_ref_id,
                flow_id: antecedent,
                mode: FlowMode::MergeBranch,
            })
            &&& resume::resumed(db, waiting, Ok(ResultTy::Type(before)), facts) == (StepTy::Finish {
                walk,
                found: t,
            })
            &&& resume::resumed(db, waiting, Ok(ResultTy::Unreachable), facts) == StepTy::Unreachable(
                walk.query,
            )
        },
{
}

/// A literal narrows what the variable was before, where it is one of the values of that; with
/// nothing to narrow, the literal itself is known.
pub proof fn assigned_literal_narrows_what_was_before(
    db: DbTy,
    walk: WalkTy,
    antecedent: FlowId,
    literal: Ty,
    before: Ty,
    facts: FactsTy,
)
    requires
        is_literal(literal),
        literal matches Ty::FloatConst(bits) ==> !basic::float_is_nan(bits),
        facts.origin is None || !(literal is Integer),
        walk.query.mode == FlowMode::Normal,
        !(before is Nil),
    ensures
        resume::expr_type_step(db, walk, antecedent, None, literal, facts) matches StepTy::Start {
            query,
            waiting,
        } && {
            &&& query == (FlowQuery {
                var_ref_id: walk.query.var_ref_id,
                flow_id: antecedent,
                mode: FlowMode::Normal,
            })
            &&& facts.narrowed_alone == Some(literal) && facts.narrowed == Some(literal) ==> resume::resumed(
                db,
                waiting,
                Ok(ResultTy::Type(before)),
                facts,
            ) == (StepTy::Finish { walk, found: literal })
            &&& facts.narrowed_alone is None && facts.narrowed is None ==> resume::resumed(
                db,
                waiting,
                Ok(ResultTy::Type(before)),
                facts,
            ) == (StepTy::Finish { walk, found: literal })
        },
{
    if literal is FloatConst {
        equivalence::equality_is_reflexive(literal);
    }
}

/// A literal that what was before has no place for is asked for again, without the conditions that
/// narrowed what was before.
pub proof fn literal_out_of_place_is_asked_for_again(
    db: DbTy,
    walk: WalkTy,
    antecedent: FlowId,
    literal: Ty,
    before: Ty,
    facts: FactsTy,
)
    requires
        is_literal(literal),
        facts.narrowed_alone matches Some(t) && !equality::ty_eq(t, literal),
    ensures
        resume::resumed(
            db,
            ContinuationTy::AssignmentAntecedent {
                walk,
                antecedent,
                expr_type: literal,
                reuse: true,
            },
            Ok(ResultTy::Type(before)),
            facts,
        ) == (StepTy::Start {
            query: FlowQuery {
                var_ref_id: walk.query.var_ref_id,
                flow_id: antecedent,
                mode: FlowMode::IgnoreConditions,
            },
            waiting: ContinuationTy::AssignmentAntecedent {
                walk,
                antecedent,
                expr_type: literal,
                reuse: false,
            },
        }),
{
}

/// A variable of a declared type is what the assigned type leaves of it; where that leaves nothing,
/// it is of its declared type. Where the assigned type is not known it stays declared.
pub proof fn declared_variable_is_narrowed(
    db: DbTy,
    walk: WalkTy,
    antecedent: FlowId,
    declared: Ty,
    expr: Ty,
    facts: FactsTy,
)
    requires
        !(declared is Nil),
        walk.query.mode != FlowMode::MergeBranch,
    ensures
        resume::expr_type_step(db, walk, antecedent, Some(declared), expr, facts) == (StepTy::Finish {
            walk,
            found: if expr is Unknown || facts.narrowed is None {
                declared
            } else {
                facts.narrowed.unwrap()
            },
        }),
{
}

/// The type of an assignment that is not known is what was before.
pub proof fn unknown_assignment_asks_what_was_before(
    db: DbTy,
    walk: WalkTy,
    antecedent: FlowId,
    before: Ty,
    facts: FactsTy,
)
    requires
        walk.query.mode == FlowMode::Normal,
    ensures
        resume::expr_type_step(db, walk, antecedent, None, Ty::Unknown, facts) matches StepTy::Start {
            query,
            waiting,
        } && {
            &&& query == (FlowQuery {
                var_ref_id: walk.query.var_ref_id,
                flow_id: antecedent,
                mode: FlowMode::IgnoreConditions,
            })
            &&& resume::resumed(db, waiting, Ok(ResultTy::Type(before)), facts) == (StepTy::Finish {
                walk,
                found: before,
            })
        },
{
}

/// A variable of an enumeration of integers stays of it when an integer is assigned.
pub proof fn flags_stay_in_their_enumeration(
    db: DbTy,
    walk: WalkTy,
    antecedent: FlowId,
    id: Seq<char>,
    decl: DeclTy,
    values: Seq<Ty>,
    facts: FactsTy,
)
    requires
        db::decl_of(db, id) == Some(decl),
        decl.kind is Enum,
        decl.enum_fields == Some(Ty::Union(Box::new(UnionTy::Multi(values)))),
        forall|i: int|
            0 <= i < values.len() ==> (#[trigger] values[i]) is DocIntegerConst
                || values[i] is IntegerConst,
        facts.origin == Some(Ty::Ref(id)),
    ensures
        resume::expr_type_step(db, walk, antecedent, None, Ty::Integer, facts) == (StepTy::Finish {
            walk,
            found: Ty::Ref(id),
        }),
        walk.query.mode != FlowMode::MergeBranch ==> resume::expr_type_step(
            db,
            walk,
            antecedent,
            None,
            Ty::String,
            facts,
        ) == (StepTy::Finish { walk, found: Ty::String }),
{
    reveal(declared::all_integer_values);
}

/// An expression that has no type: a field keeps the type that it has without nil, what is not there
/// is nil, and otherwise the way back is followed on.
pub proof fn failed_assignment_falls_back(
    db: DbTy,
    walk: WalkTy,
    antecedent: FlowId,
    flow_id: FlowId,
    id: u32,
    t: Ty,
    facts: FactsTy,
)
    requires
        walk.query.mode != FlowMode::MergeBranch,
        is_broad(t),
    ensures
        ({
            let purpose = PurposeTy::Assignment { antecedent, explicit: None, result_slot: 0 };
            &&& walk.query.var_ref_id.is_index_ref && facts.origin == Some(
                Ty::Union(Box::new(UnionTy::Nullable(t))),
            ) ==> forall|reason: InferFailReason| #[trigger]
                resume::replayed_step(db, walk, purpose, flow_id, Err(reason), facts) == (StepTy::Finish {
                    walk,
                    found: t,
                })
            &&& facts.origin is None ==> resume::replayed_step(
                db,
                walk,
                purpose,
                flow_id,
                Err(InferFailReason::FieldNotFound),
                facts,
            ) == (StepTy::Finish { walk, found: Ty::Nil })
            &&& facts.origin is None ==> resume::replayed_step(
                db,
                walk,
                purpose,
                flow_id,
                Err(InferFailReason::NeedResolve(id)),
                facts,
            ) == StepTy::Walk(
                WalkTy { query: walk.query, at: antecedent, pending: walk.pending },
            )
            &&& facts.origin is None ==> resume::replayed_step(
                db,
                walk,
                purpose,
                flow_id,
                Err(InferFailReason::RecursiveInfer),
                facts,
            ) == StepTy::Walk(
                WalkTy { query: walk.query, at: antecedent, pending: walk.pending },
            )
        }),
{
    reveal_with_fuel(db::removed, 3);
    let members = seq![t, Ty::Nil];
    let taken = seq![Ty::Nil];
    assert(predicates::members_of(Ty::Nil) =~= taken);
    assert(members.drop_last() =~= seq![t]);
    assert(members.drop_last().drop_last() =~= Seq::<Ty>::empty());
    assert(equality::holds_ty(taken, Ty::Nil)) by {
        assert(equality::ty_eq(taken[0], Ty::Nil));
    }
    assert(!equality::holds_ty(taken, t));
    assert(db::removed(members, taken) =~= seq![t]);
}

// ----------------------------------------------------------------------------
// Which expression a variable is assigned.

/// What an expression is typed for, and which one it is.
pub open spec fn replay_of(step: StepTy) -> Option<(WalkTy, PurposeTy, SyntaxId)> {
    match step {
        StepTy::Start { query: _, waiting: ContinuationTy::ExprReplay { walk, purpose, replay } } => Some(
            (walk, purpose, replay.expr),
        ),
        StepTy::Replay { walk, purpose, replay } => Some((walk, purpose, replay.expr)),
        _ => None,
    }
}

proof fn lemma_known_keeps_expr(r: ReplayTy)
    ensures
        replay::with_known(r).expr == r.expr,
    decreases replay::queries_left(r),
{
    if let Some(query) = replay::next_of(r) {
        if let Some(t) = query.resolved {
            lemma_known_keeps_expr(replay::with_type(r, t));
        }
    }
}

proof fn lemma_replay_of(walk: WalkTy, purpose: PurposeTy, replay: ReplayTy)
    ensures
        replay_of(engine::replay_step(walk, purpose, replay)) == Some((walk, purpose, replay.expr)),
{
    lemma_known_keeps_expr(replay);
}

proof fn lemma_var_place(vars: Seq<Option<VarRefId>>, var: VarRefId, i: int)
    requires
        0 <= i < vars.len(),
        vars[i] == Some(var),
        forall|j: int| 0 <= j < i ==> #[trigger] vars[j] != Some(var),
    ensures
        walk::var_place(vars, var) == Some(i as nat),
    decreases vars.len(),
{
    let front = vars.drop_last();
    if i < front.len() {
        assert(front[i] == vars[i]);
        assert forall|j: int| 0 <= j < i implies #[trigger] front[j] != Some(var) by {
            assert(front[j] == vars[j]);
        }
        lemma_var_place(front, var, i);
    } else {
        assert forall|j: int| 0 <= j < front.len() implies #[trigger] front[j] != Some(var) by {
            assert(front[j] == vars[j]);
        }
        lemma_no_var_place(front, var);
    }
}

proof fn lemma_no_var_place(vars: Seq<Option<VarRefId>>, var: VarRefId)
    requires
        forall|j: int| 0 <= j < vars.len() ==> #[trigger] vars[j] != Some(var),
    ensures
        walk::var_place(vars, var) is None,
    decreases vars.len(),
{
    if vars.len() > 0 {
        let front = vars.drop_last();
        assert forall|j: int| 0 <= j < front.len() implies #[trigger] front[j] != Some(var) by {
            assert(front[j] == vars[j]);
        }
        assert(vars[vars.len() - 1] != Some(var));
        lemma_no_var_place(front, var);
    }
}

/// A variable is assigned the first value of the expression at its place. The variables from the last
/// expression on share its values in order.
pub proof fn variable_is_assigned_its_expression(
    db: DbTy,
    walk: WalkTy,
    at: FlowId,
    facts: AssignmentTy,
    i: nat,
)
    requires
        i < facts.var_ref_ids.len(),
        facts.var_ref_ids[i as int] == Some(walk.query.var_ref_id),
        forall|j: int|
            0 <= j < i ==> #[trigger] facts.var_ref_ids[j] != Some(walk.query.var_ref_id),
        0 < facts.exprs.len() <= usize::MAX,
        facts.var_ref_ids.len() <= usize::MAX,
    ensures
        i < facts.exprs.len() ==> replay_of(walk::assignment_step(db, walk, Some(at), facts)) == Some(
            (
                walk,
                PurposeTy::Assignment { antecedent: at, explicit: facts.explicit, result_slot: 0 },
                facts.exprs[i as int].syntax_id,
            ),
        ),
        i + 1 >= facts.exprs.len() ==> replay_of(walk::assignment_step(db, walk, Some(at), facts)) == Some(
            (
                walk,
                PurposeTy::Assignment {
                    antecedent: at,
                    explicit: facts.explicit,
                    result_slot: (i + 1 - facts.exprs.len()) as usize,
                },
                facts.exprs[facts.exprs.len() - 1].syntax_id,
            ),
        ),
{
    lemma_var_place(facts.var_ref_ids, walk.query.var_ref_id, i as int);
    let (k, slot) = walk::expr_place(i, facts.exprs.len());
    let is_plain = facts.explicit is None && !(k < facts.short_circuits.len()
        && facts.short_circuits[k as int]);
    lemma_replay_of(
        walk,
        PurposeTy::Assignment { antecedent: at, explicit: facts.explicit, result_slot: slot },
        walk::assigned_replay(facts.exprs[k as int], at, walk.query.var_ref_id, is_plain),
    );
}

/// An assignment of other variables is passed over.
pub proof fn other_assignment_is_passed_over(
    db: DbTy,
    walk: WalkTy,
    at: FlowId,
    facts: AssignmentTy,
)
    requires
        forall|j: int|
            0 <= j < facts.var_ref_ids.len() ==> #[trigger] facts.var_ref_ids[j] != Some(
                walk.query.var_ref_id,
            ),
    ensures
        walk::assignment_step(db, walk, Some(at), facts) == StepTy::Walk(
            WalkTy { query: walk.query, at, pending: walk.pending },
        ),
{
    lemma_no_var_place(facts.var_ref_ids, walk.query.var_ref_id);
}

/// A variable that is declared with a type has it; another one has the type of the expression that it
/// starts with.
pub proof fn declaration_answers_first(
    walk: WalkTy,
    found: Ty,
    reason: InferFailReason,
    expr: ExprTy,
)
    ensures
        walk::declaration_step(walk, Ok(found), true, Some(expr)) == (StepTy::Finish { walk, found }),
        walk::declaration_step(walk, Ok(found), false, None) == (StepTy::Finish { walk, found }),
        replay_of(walk::declaration_step(walk, Err(reason), true, Some(expr))) == Some(
            (walk, PurposeTy::DeclInitializer { fail_reason: reason }, expr.syntax_id),
        ),
        walk::declaration_step(walk, Err(reason), true, None) == (StepTy::Fail {
            query: walk.query,
            reason,
        }),
        walk::declaration_step(walk, Err(reason), false, Some(expr)) == (StepTy::Fail {
            query: walk.query,
            reason,
        }),
{
    lemma_replay_of(
        walk,
        PurposeTy::DeclInitializer { fail_reason: reason },
        engine::fresh_replay(
            expr,
            match expr.flow_id {
                Some(id) => id,
                None => walk.at,
            },
            true,
            false,
        ),
    );
}

// ----------------------------------------------------------------------------
// Branches and conditions.

/// Where branches meet, each of them is asked, from the last one to the first, and a single one is
/// just followed.
pub proof fn every_branch_is_asked(
    db: DbTy,
    walk: WalkTy,
    branches: Seq<FlowId>,
    k: usize,
    merged: Ty,
    t: Ty,
    facts: FactsTy,
)
    requires
        2 <= branches.len() <= usize::MAX,
        0 < k < branches.len(),
        walk.query.mode == FlowMode::Normal,
    ensures
        walk::branch_step(walk, Some(branches)) matches StepTy::Start { query, waiting } && {
            &&& query.flow_id == branches[branches.len() - 1]
            &&& query.var_ref_id == walk.query.var_ref_id
            &&& query.mode == FlowMode::MergeBranch
            &&& waiting == (ContinuationTy::Merge {
                walk,
                branches,
                next_pending: (branches.len() - 1) as usize,
                merged: Ty::Never,
            })
        },
        resume::resumed(
            db,
            ContinuationTy::Merge { walk, branches, next_pending: k, merged },
            Ok(ResultTy::Type(t)),
            facts,
        ) matches StepTy::Start { query, waiting } && {
            &&& query.flow_id == branches[k - 1]
            &&& query.var_ref_id == walk.query.var_ref_id
            &&& query.mode == FlowMode::MergeBranch
            &&& waiting matches ContinuationTy::Merge {
                walk: later,
                branches: all,
                next_pending,
                merged: _,
            } && later == walk && all == branches && next_pending == k - 1
        },
        walk::branch_step(walk, Some(seq![branches[0]])) == StepTy::Walk(
            WalkTy { query: walk.query, at: branches[0], pending: walk.pending },
        ),
        walk::branch_step(walk, Some(Seq::empty())) == StepTy::Unreachable(walk.query),
{
}

/// Behind branches a variable may be what it is in each of them.
pub proof fn branches_are_joined(
    db: DbTy,
    walk: WalkTy,
    branches: Seq<FlowId>,
    merged: Ty,
    t: Ty,
    facts: FactsTy,
)
    requires
        is_broad(merged) || is_literal(merged),
        is_broad(t) || is_literal(t),
        equivalence::is_sound(merged),
        equivalence::is_sound(t),
    ensures
        resume::resumed(
            db,
            ContinuationTy::Merge { walk, branches, next_pending: 0, merged },
            Ok(ResultTy::Type(t)),
            facts,
        ) matches StepTy::Finish { walk: done, found } && {
            &&& done == walk
            &&& merged is Any || t is Any ==> found is Any
            &&& !(merged is Any) && !(t is Any) ==> {
                &&& equality::holds_ty(predicates::members_of(found), merged)
                &&& equality::holds_ty(predicates::members_of(found), t)
                &&& forall|i: int|
                    0 <= i < predicates::members_of(found).len() ==> #[trigger] predicates::members_of(found)[i] == merged
                        || predicates::members_of(found)[i] == t
            }
        },
        resume::resumed(
            db,
            ContinuationTy::Merge { walk, branches, next_pending: 0, merged: Ty::Never },
            Ok(ResultTy::Type(t)),
            facts,
        ) == (StepTy::Finish { walk, found: t }),
{
    joining::union_of_two_holds_both(merged, t);
}

/// What is found is narrowed by the conditions met on the way, in the end by all of them; a question
/// that ignores them is answered with what was found. A branch that a condition empties is not
/// reached.
pub proof fn conditions_narrow_the_answer(query: FlowQuery, types: Seq<Ty>)
    requires
        types.len() > 0,
    ensures
        query.mode == FlowMode::IgnoreConditions ==> engine::answered(query, types) == ResultTy::Type(
            types[0],
        ),
        query.mode == FlowMode::Normal ==> engine::answered(query, types) == ResultTy::Type(
            types[types.len() - 1],
        ),
        query.mode == FlowMode::MergeBranch && types.len() == 2 && !(types[0] is Never)
            && types[1] is Never ==> engine::answered(query, types) is Unreachable,
        query.mode == FlowMode::MergeBranch && !(types[types.len() - 1] is Never) && (forall|
            i: int,
        |
            0 <= i < types.len() ==> !((#[trigger] types[i]) is Never)) ==> engine::answered(query, types)
            == ResultTy::Type(types[types.len() - 1]),
{
    if types.len() == 2 && !(types[0] is Never) && types[1] is Never {
        assert(!(types[0] is Never) && types[1] is Never);
        assert(engine::was_emptied(types));
    }
}

/// What a condition says is kept for the answer, or ends the branch, or answers the question.
pub proof fn condition_takes_its_part(walk: WalkTy, p: PendingTy, t: Ty)
    ensures
        engine::settled_step(walk, SettledTy::Continue) == StepTy::Walk(walk),
        engine::settled_step(walk, SettledTy::Pending(p)) matches StepTy::Walk(next) && {
            &&& next.query == walk.query
            &&& next.at == walk.at
            &&& next.pending.len() == walk.pending.len() + 1
            &&& next.pending[walk.pending.len() as int] == p
            &&& forall|i: int|
                0 <= i < walk.pending.len() ==> #[trigger] next.pending[i] == walk.pending[i]
        },
        walk.query.mode == FlowMode::MergeBranch ==> engine::settled_step(walk, SettledTy::Unreachable)
            == StepTy::Unreachable(walk.query),
        walk.query.mode != FlowMode::MergeBranch ==> engine::settled_step(walk, SettledTy::Unreachable)
            == StepTy::Walk(walk),
        !(t is Never) ==> engine::settled_step(walk, SettledTy::Result(t)) == (StepTy::Finish {
            walk,
            found: t,
        }),
        walk.query.mode == FlowMode::MergeBranch ==> engine::settled_step(
            walk,
            SettledTy::Result(Ty::Never),
        ) == StepTy::Unreachable(walk.query),
{
}

/// A condition is passed over where conditions are ignored; else what is known of it is carried out.
pub proof fn condition_on_the_way(
    db: DbTy,
    tree: TreeTy,
    cache: Map<FlowQuery, EntryStateTy>,
    conditions: Map<ConditionKey, ConditionTy>,
    walk: WalkTy,
    at: FlowId,
    syntax: SyntaxId,
    is_true: bool,
    said: SettledTy,
    facts: NodeFacts,
)
    requires
        walk.at == walk.query.flow_id,
        walk.at.id < tree.nodes.len(),
        tree.nodes[walk.at.id as int] == (FlowNode {
            kind: if is_true {
                FlowNodeKind::TrueCondition(syntax)
            } else {
                FlowNodeKind::FalseCondition(syntax)
            },
            antecedent: Some(FlowAntecedent::Single(at)),
        }),
    ensures
        walk.query.mode == FlowMode::IgnoreConditions ==> walk::visit(
            db,
            tree,
            cache,
            conditions,
            None,
            walk,
            facts,
        ).step == StepTy::Walk(WalkTy { query: walk.query, at, pending: walk.pending }),
        walk.query.mode != FlowMode::IgnoreConditions && ({
            let key = ConditionKey {
                var_ref_id: walk.query.var_ref_id,
                flow_id: walk.at,
                condition_flow: if is_true {
                    InferConditionFlow::TrueCondition
                } else {
                    InferConditionFlow::FalseCondition
                },
            };
            conditions.dom().contains(key) && conditions[key] == ConditionTy::Cache(said)
        }) ==> walk::visit(db, tree, cache, conditions, None, walk, facts).step == engine::settled_step(
            WalkTy { query: walk.query, at, pending: walk.pending },
            said,
        ),
{
}

/// What follows a call that never returns is not reached; other calls are passed over.
pub proof fn call_that_never_returns_ends_the_branch(walk: WalkTy, at: FlowId)
    ensures
        walk.query.mode == FlowMode::MergeBranch ==> walk::call_step(walk, Some(at), true)
            == StepTy::Unreachable(walk.query),
        walk::call_step(walk, Some(at), false) == StepTy::Walk(
            WalkTy { query: walk.query, at, pending: walk.pending },
        ),
{
}

/// Inside a loop over its own length a variable is there.
pub proof fn loop_over_own_length_proves_presence(walk: WalkTy, at: FlowId)
    requires
        walk.query.mode != FlowMode::IgnoreConditions,
    ensures
        walk::loop_step(walk, Some(at), true) matches StepTy::Walk(next) && {
            &&& next.at == at
            &&& next.pending.len() == walk.pending.len() + 1
            &&& next.pending[walk.pending.len() as int] == PendingTy::Truthiness(
                InferConditionFlow::TrueCondition,
            )
        },
        walk::loop_step(walk, Some(at), false) == StepTy::Walk(
            WalkTy { query: walk.query, at, pending: walk.pending },
        ),
{
}

/// A function that is the variable answers with its own type; another one is passed over.
pub proof fn function_is_its_own_variable(walk: WalkTy, at: FlowId, signature: Ty)
    ensures
        walk::function_step(walk, Some(at), true, Some(signature)) == (StepTy::Finish {
            walk,
            found: signature,
        }),
        walk::function_step(walk, Some(at), false, Some(signature)) == StepTy::Walk(
            WalkTy { query: walk.query, at, pending: walk.pending },
        ),
{
}

/// A cast is applied to what was before it.
pub proof fn cast_applies_to_what_was_before(
    db: DbTy,
    walk: WalkTy,
    at: FlowId,
    cast: SyntaxId,
    t: Ty,
    facts: FactsTy,
)
    ensures
        walk::cast_step(walk, Some(at), cast, true) matches StepTy::Start { query, waiting } && {
            &&& query.flow_id == at
            &&& query.var_ref_id == walk.query.var_ref_id
            &&& resume::resumed(db, waiting, Ok(ResultTy::Type(t)), facts) == (StepTy::Cast {
                walk,
                cast,
                input: t,
            })
        },
        walk::cast_step(walk, Some(at), cast, false) == StepTy::Walk(
            WalkTy { query: walk.query, at, pending: walk.pending },
        ),
{
}

/// What is known of a place is the answer there, and a question is followed to the place before.
pub proof fn known_place_answers(
    db: DbTy,
    tree: TreeTy,
    cache: Map<FlowQuery, EntryStateTy>,
    conditions: Map<ConditionKey, ConditionTy>,
    walk: WalkTy,
    t: Ty,
    facts: NodeFacts,
)
    requires
        walk.at != walk.query.flow_id,
        ({
            let here = FlowQuery {
                var_ref_id: walk.query.var_ref_id,
                flow_id: walk.at,
                mode: walk.query.mode,
            };
            cache.dom().contains(here) && cache[here] == EntryStateTy::Cache(ResultTy::Type(t))
        }),
    ensures
        walk::visit(db, tree, cache, conditions, None, walk, facts).step == (StepTy::Finish {
            walk,
            found: t,
        }),
{
}

/// A literal tells its value, and so does a choice of literals; a written table and a literal are kept
/// next to what was known before, another type is not.
pub proof fn types_that_tell_their_value(a: Ty, b: Ty, t: Ty, o: ObjectTy)
    requires
        is_literal(a),
        is_literal(b),
        is_broad(t),
    ensures
        assign::is_exact(a),
        assign::is_exact(Ty::Union(Box::new(UnionTy::Multi(seq![a, b])))),
        !assign::is_exact(Ty::Union(Box::new(UnionTy::Multi(seq![a, t])))),
        !assign::is_exact(t),
        assign::keeps_type(a),
        assign::keeps_type(Ty::Object(Box::new(o))),
        !assign::keeps_type(t),
{
    let room = usize::MAX as nat;
    assert(assign::tells_value(a, room) && assign::tells_value(b, room) && !assign::tells_value(t, room));
    let same = seq![a, b];
    let mixed = seq![a, t];
    assert(assign::all_tell_value(same, room)) by {
        assert forall|i: int| 0 <= i < same.len() implies assign::tells_value(#[trigger] same[i], room) by {
            assert(i == 0 || i == 1);
        }
    }
    assert(!assign::all_tell_value(mixed, room)) by {
        assert(!assign::tells_value(mixed[1], room));
    }
}

/// Where a variable is assigned an expression that names it, the variable is not known yet in it.
pub proof fn assigned_variable_is_unknown_in_its_expression(
    queries: Seq<DependencyTy>,
    var: VarRefId,
    i: int,
)
    requires
        0 <= i < queries.len(),
    ensures
        replay::with_resolved(queries, var, Ty::Unknown).len() == queries.len(),
        queries[i].var_ref_id == var ==> replay::with_resolved(queries, var, Ty::Unknown)[i].resolved
            == Some(Ty::Unknown),
        queries[i].var_ref_id != var ==> replay::with_resolved(queries, var, Ty::Unknown)[i] == queries[i],
{
}

/// A loop is followed once: its places are remembered from its label on.
pub proof fn loops_are_followed_once(visited: Set<FlowId>, at: FlowId, kind: FlowNodeKind)
    ensures
        walk::with_visit(Some(visited), at, Some(kind)) == Some(visited.insert(at)),
        walk::with_visit(None, at, Some(FlowNodeKind::LoopLabel)) == Some(Set::empty().insert(at)),
        walk::with_visit(None, at, Some(FlowNodeKind::BranchLabel)) is None,
{
}

/// A branch that is known is joined with those before it while others are still asked.
pub proof fn branches_are_joined_one_by_one(
    db: DbTy,
    walk: WalkTy,
    branches: Seq<FlowId>,
    k: usize,
    merged: Ty,
    t: Ty,
    facts: FactsTy,
)
    requires
        0 < k < branches.len(),
    ensures
        resume::resumed(
            db,
            ContinuationTy::Merge { walk, branches, next_pending: k, merged },
            Ok(ResultTy::Type(t)),
            facts,
        ) matches StepTy::Start {
            query: _,
            waiting: ContinuationTy::Merge { walk: _, branches: _, next_pending: _, merged: all },
        } && all == db::union_ty(merged, t),
        resume::resumed(
            db,
            ContinuationTy::Merge { walk, branches, next_pending: k, merged },
            Ok(ResultTy::Unreachable),
            facts,
        ) matches StepTy::Start {
            query: _,
            waiting: ContinuationTy::Merge { walk: _, branches: _, next_pending: _, merged: all },
        } && all == merged,
        resume::resumed(
            db,
            ContinuationTy::Merge { walk, branches, next_pending: k, merged },
            Err(InferFailReason::RecursiveInfer),
            facts,
        ) == (StepTy::Fail { query: walk.query, reason: InferFailReason::RecursiveInfer }),
{
    db::union_with_never(merged);
}

/// A branch that is emptied anywhere on the way is not reached.
pub proof fn emptied_branch_is_not_reached(query: FlowQuery, types: Seq<Ty>, i: int)
    requires
        query.mode == FlowMode::MergeBranch,
        0 <= i < types.len() - 1,
        !(types[i] is Never),
        types[i + 1] is Never,
    ensures
        engine::answered(query, types) is Unreachable,
{
    assert(engine::was_emptied(types));
}

/// What is known behind an assignment once what was before it is known: the assigned type where it says
/// no value; what a written table leaves of the declared type where nothing was before; what is left of
/// the type before; and the assigned type where nothing is.
pub proof fn assignment_is_settled_by_what_was_before(
    db: DbTy,
    walk: WalkTy,
    antecedent: FlowId,
    t: Ty,
    literal: Ty,
    o: ObjectTy,
    before: Ty,
    left: Ty,
    facts: FactsTy,
)
    requires
        is_broad(t),
        is_literal(literal),
        !(before is Nil),
    ensures
        ({
            let found = |expr: Ty, was: Ty| resume::resumed(
                db,
                ContinuationTy::AssignmentAntecedent {
                    walk,
                    antecedent,
                    expr_type: expr,
                    reuse: false,
                },
                Ok(ResultTy::Type(was)),
                facts,
            );
            let table = Ty::Object(Box::new(o));
            &&& found(t, before) == (StepTy::Finish { walk, found: t })
            &&& found(Ty::Unknown, before) == (StepTy::Finish { walk, found: before })
            &&& facts.slot == Some(left) ==> found(table, Ty::Nil) == (StepTy::Finish {
                walk,
                found: left,
            })
            &&& facts.slot is None ==> found(table, Ty::Nil) == (StepTy::Finish {
                walk,
                found: table,
            })
            &&& facts.narrowed == Some(left) ==> found(literal, before) == (StepTy::Finish {
                walk,
                found: left,
            })
            &&& facts.narrowed is None ==> found(literal, before) == (StepTy::Finish {
                walk,
                found: literal,
            })
        }),
{
    types_that_tell_their_value(literal, literal, t, o);
}

/// A variable of a declared type whose assigned expression has no type stays of its declared type.
pub proof fn declared_variable_survives_a_failure(
    db: DbTy,
    walk: WalkTy,
    antecedent: FlowId,
    flow_id: FlowId,
    declared: Ty,
    reason: InferFailReason,
    facts: FactsTy,
)
    requires
        walk.query.mode != FlowMode::MergeBranch,
    ensures
        resume::replayed_step(
            db,
            walk,
            PurposeTy::Assignment { antecedent, explicit: Some(declared), result_slot: 0 },
            flow_id,
            Err(reason),
            facts,
        ) == (StepTy::Finish { walk, found: declared }),
{
}

/// Each place is asked what it is: a call whether it returns, a function whether it is the variable, a
/// cast whether it is of the variable, a loop whether it runs over the variable.
pub proof fn places_are_asked_what_they_are(
    db: DbTy,
    tree: TreeTy,
    walk: WalkTy,
    at: FlowId,
    syntax: SyntaxId,
    flag: bool,
    signature: LuaType,
)
    ensures
        ({
            let node = |kind: FlowNodeKind| FlowNode {
                kind,
                antecedent: Some(FlowAntecedent::Single(at)),
            };
            let moved = StepTy::Walk(WalkTy { query: walk.query, at, pending: walk.pending });
            &&& walk::place_step(
                db,
                tree,
                walk,
                node(FlowNodeKind::CallExprStat(syntax)),
                NodeFacts::Call { returns_never: true },
            ) == if walk.query.mode == FlowMode::MergeBranch {
                StepTy::Unreachable(walk.query)
            } else {
                moved
            }
            &&& walk::place_step(
                db,
                tree,
                walk,
                node(FlowNodeKind::CallExprStat(syntax)),
                NodeFacts::Call { returns_never: false },
            ) == moved
            &&& walk::place_step(
                db,
                tree,
                walk,
                node(FlowNodeKind::ImplFunc(syntax)),
                NodeFacts::Function { is_same: true, signature: Some(signature) },
            ) == (StepTy::Finish { walk, found: signature@ })
            &&& walk::place_step(
                db,
                tree,
                walk,
                node(FlowNodeKind::ImplFunc(syntax)),
                NodeFacts::Function { is_same: false, signature: Some(signature) },
            ) == moved
            &&& walk::place_step(
                db,
                tree,
                walk,
                node(FlowNodeKind::TagCast(syntax)),
                NodeFacts::Cast { applies: flag },
            ) == walk::cast_step(walk, Some(at), syntax, flag)
            &&& walk::place_step(
                db,
                tree,
                walk,
                node(FlowNodeKind::ForIStat(syntax)),
                NodeFacts::Loop { len_matches: flag },
            ) == walk::loop_step(walk, Some(at), flag)
        }),
{
}

/// What a condition says is carried out and kept, and what is not known of it is asked.
pub proof fn condition_is_asked_and_kept(
    db: DbTy,
    tree: TreeTy,
    cache: Map<FlowQuery, EntryStateTy>,
    conditions: Map<ConditionKey, ConditionTy>,
    walk: WalkTy,
    at: FlowId,
    syntax: SyntaxId,
    reason: InferFailReason,
)
    requires
        walk.at == walk.query.flow_id,
        walk.query.mode != FlowMode::IgnoreConditions,
        walk.at.id < tree.nodes.len(),
        tree.nodes[walk.at.id as int] == (FlowNode {
            kind: FlowNodeKind::TrueCondition(syntax),
            antecedent: Some(FlowAntecedent::Single(at)),
        }),
        !conditions.dom().contains(
            ConditionKey {
                var_ref_id: walk.query.var_ref_id,
                flow_id: walk.at,
                condition_flow: InferConditionFlow::TrueCondition,
            },
        ),
    ensures
        ({
            let key = ConditionKey {
                var_ref_id: walk.query.var_ref_id,
                flow_id: walk.at,
                condition_flow: InferConditionFlow::TrueCondition,
            };
            let moved = WalkTy { query: walk.query, at, pending: walk.pending };
            let seen = |said: Result<ConditionFlowAction, InferFailReason>| walk::visit(
                db,
                tree,
                cache,
                conditions,
                None,
                walk,
                NodeFacts::Condition { said, field_key: None },
            );
            let nothing = seen(Ok(ConditionFlowAction::Continue));
            &&& nothing.step == StepTy::Walk(moved)
            &&& nothing.conditions.dom().contains(key)
            &&& nothing.conditions[key] == ConditionTy::Cache(SettledTy::Continue)
            &&& seen(Err(reason)).step == (StepTy::FailCondition {
                query: walk.query,
                key,
                reason,
            })
        }),
{
}

/// A written table narrows what was before if it fits it, and an empty one always does; a literal does
/// if it is what narrowing leaves.
pub proof fn what_narrows_the_type_before(
    db: DbTy,
    before: Ty,
    o: ObjectTy,
    range: InFiled,
    literal: Ty,
    t: Ty,
    narrowed: Option<Ty>,
)
    requires
        is_literal(literal),
        is_broad(t),
        db::items_of(db, OwnerTy::Element(range)).len() == 0,
    ensures
        assignable::fits(db, Ty::Object(Box::new(o)), before) ==> assign::is_reusable(
            db,
            before,
            Ty::Object(Box::new(o)),
            narrowed,
        ),
        assign::is_reusable(db, before, Ty::TableConst(range), narrowed),
        assign::is_reusable(db, before, literal, None),
        narrowed is Some ==> assign::is_reusable(db, before, literal, narrowed) == equality::ty_eq(
            narrowed.unwrap(),
            literal,
        ),
        !assign::is_reusable(db, before, t, narrowed),
{
    types_that_tell_their_value(literal, literal, t, o);
    let room = usize::MAX as nat;
    reveal_with_fuel(collect::item_members, 2);
    assert(collect::members_of_type(db, Ty::TableConst(range)).len() == 0);
    assert(assign::parts_fit(
        db,
        before,
        collect::members_of_type(db, Ty::TableConst(range)),
        (room - 1) as nat,
    ));
    assert(assign::partly_fits(db, before, Ty::TableConst(range), room));
}

} // verus!
