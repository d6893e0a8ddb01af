//! The flow of control through a file.

use vstd::prelude::*;

use crate::types;
use crate::flow::query::{FlowId, SyntaxId, VarRefId};
use crate::tables::FlowIdSet;
use crate::types::{LuaType, Ty};
use crate::types::complex::clone_opt_type;

verus! {

/// What a place stands for. Statements and conditions are named by their nodes in the syntax tree.
#[derive(Debug, Clone, Copy, PartialEq, Eq, Structural)]
pub enum FlowNodeKind {
    Start,
    Unreachable,
    LoopLabel,
    Break,
    Continue,
    Return,
    BranchLabel,
    NamedLabel,
    ForIStat(SyntaxId),
    CallExprStat(SyntaxId),
    DeclPosition(u32),
    Assignment(SyntaxId),
    ImplFunc(SyntaxId),
    TrueCondition(SyntaxId),
    FalseCondition(SyntaxId),
    TagCast(SyntaxId),
}

/// Where the flow of control comes from: the places are listed in the tree.
#[derive(Debug, Clone, Copy, PartialEq, Eq, Structural)]
pub enum FlowAntecedent {
    Single(FlowId),
    Multiple(u32),
}

#[derive(Debug, Clone, Copy, PartialEq, Eq, Structural)]
pub struct FlowNode {
    pub kind: FlowNodeKind,
    pub antecedent: Option<FlowAntecedent>,
}

/// The flow of control through a file.
#[derive(Debug)]
pub struct FlowTree {
    pub nodes: Vec<FlowNode>,
    pub multi_antecedents: Vec<Vec<FlowId>>,
}

pub struct TreeTy {
    pub nodes: Seq<FlowNode>,
    pub multi: Seq<Seq<FlowId>>,
}

impl View for FlowTree {
    type V = TreeTy;

    open spec fn view(&self) -> TreeTy {
        TreeTy {
            nodes: self.nodes@,
            multi: Seq::new(
                self.multi_antecedents@.len(),
                |i: int| self.multi_antecedents@[i]@,
            ),
        }
    }
}

pub open spec fn node_at(tree: TreeTy, id: FlowId) -> Option<FlowNode> {
    if id.id < tree.nodes.len() {
        Some(tree.nodes[id.id as int])
    } else {
        None
    }
}

pub open spec fn single_of(node: FlowNode) -> Option<FlowId> {
    match node.antecedent {
        Some(FlowAntecedent::Single(id)) => Some(id),
        _ => None,
    }
}

/// All places from which a place is reached.
pub open spec fn multi_of(tree: TreeTy, node: FlowNode) -> Option<Seq<FlowId>> {
    match node.antecedent {
        Some(FlowAntecedent::Single(id)) => Some(seq![id]),
        Some(FlowAntecedent::Multiple(i)) => if i < tree.multi.len() {
            Some(tree.multi[i as int])
        } else {
            None
        },
        None => None,
    }
}

pub open spec fn opt_ids(ids: Option<Vec<FlowId>>) -> Option<Seq<FlowId>> {
    match ids {
        Some(ids) => Some(ids@),
        None => None,
    }
}

fn copy_ids(ids: &Vec<FlowId>) -> (r: Vec<FlowId>)
    ensures
        r@ == ids@,
{
    let mut r: Vec<FlowId> = Vec::new();
    let mut i: usize = 0;
    while i < ids.len()
        invariant
            i <= ids@.len(),
            r@ == ids@.take(i as int),
        decreases ids@.len() - i,
    {
        r.push(ids[i]);
        assert(r@ =~= ids@.take(i + 1));
        i += 1;
    }
    assert(ids@.take(i as int) =~= ids@);
    r
}

/// The place from which a place is reached.
pub fn get_single_antecedent(node: &FlowNode) -> (r: Option<FlowId>)
    ensures
        r == single_of(*node),
{
    match node.antecedent {
        Some(FlowAntecedent::Single(id)) => Some(id),
        _ => None,
    }
}

impl FlowTree {
    pub fn get_flow_node(&self, id: FlowId) -> (r: Option<FlowNode>)
        ensures
            r == node_at(self@, id),
    {
        if (id.id as usize) < self.nodes.len() {
            Some(self.nodes[id.id as usize])
        } else {
            None
        }
    }

    pub fn get_multi_antecedents(&self, node: &FlowNode) -> (r: Option<Vec<FlowId>>)
        ensures
            opt_ids(r) == multi_of(self@, *node),
    {
        match node.antecedent {
            Some(FlowAntecedent::Single(id)) => {
                let mut r: Vec<FlowId> = Vec::new();
                r.push(id);
                assert(r@ =~= seq![id]);
                Some(r)
            },
            Some(FlowAntecedent::Multiple(i)) => if (i as usize) < self.multi_antecedents.len() {
                Some(copy_ids(&self.multi_antecedents[i as usize]))
            } else {
                None
            },
            None => None,
        }
    }
}

// ----------------------------------------------------------------------------
// The branches that meet at a label.

/// The branches behind a stack of places, the last of which is looked at first. A label that was
/// met before is passed over. Every label is opened at most once, so `labels` counts those that may
/// still be.
pub open spec fn branches(
    tree: TreeTy,
    pending: Seq<FlowId>,
    visited: Set<FlowId>,
    found: Seq<FlowId>,
    labels: nat,
) -> Option<Seq<FlowId>>
    decreases labels, pending.len(),
{
    if pending.len() == 0 {
        Some(found)
    } else {
        let id = pending.last();
        let rest = pending.drop_last();
        match node_at(tree, id) {
            None => None,
            Some(node) => if node.kind == FlowNodeKind::BranchLabel {
                if visited.contains(id) {
                    branches(tree, rest, visited, found, labels)
                } else if labels == 0 {
                    None
                } else {
                    match multi_of(tree, node) {
                        None => None,
                        Some(more) => branches(
                            tree,
                            rest + more,
                            visited.insert(id),
                            found,
                            (labels - 1) as nat,
                        ),
                    }
                }
            } else {
                branches(tree, rest, visited, found.push(id), labels)
            },
        }
    }
}

/// The branches that meet at a label, those behind other labels in their place.
pub open spec fn branches_at(tree: TreeTy, node: FlowNode) -> Option<Seq<FlowId>> {
    match multi_of(tree, node) {
        None => None,
        Some(pending) => branches(tree, pending, Set::empty(), Seq::empty(), tree.nodes.len()),
    }
}

/// The branches that meet at a label.
#[verifier::loop_isolation(false)]
pub fn get_branch_label_flow_ids(tree: &FlowTree, node: &FlowNode) -> (r: Option<Vec<FlowId>>)
    ensures
        opt_ids(r) == branches_at(tree@, *node),
{
    let mut pending = match tree.get_multi_antecedents(node) {
        Some(pending) => pending,
        None => {
            return None;
        },
    };
    let ghost whole = branches(
        tree@,
        pending@,
        Set::empty(),
        Seq::empty(),
        tree@.nodes.len(),
    );
    let mut visited = FlowIdSet::new();
    let mut found: Vec<FlowId> = Vec::new();
    let mut labels: usize = tree.nodes.len();
    assert(found@ =~= Seq::empty());
    while pending.len() > 0
        invariant
            whole == branches(tree@, pending@, visited@, found@, labels as nat),
        decreases labels, pending@.len(),
    {
        let id = pending[pending.len() - 1];
        let ghost before = pending@;
        pending.pop();
        assert(pending@ =~= before.drop_last());
        let branch_node = match tree.get_flow_node(id) {
            Some(branch_node) => branch_node,
            None => {
                return None;
            },
        };
        if branch_node.kind == FlowNodeKind::BranchLabel {
            if !visited.contains(id) {
                if labels == 0 {
                    return None;
                }
                match tree.get_multi_antecedents(&branch_node) {
                    Some(more) => {
                        visited.insert(id);
                        let mut more = more;
                        pending.append(&mut more);
                        labels -= 1;
                    },
                    None => {
                        return None;
                    },
                }
            }
        } else {
            found.push(id);
        }
    }
    Some(found)
}

// ----------------------------------------------------------------------------
// The variables that an expression depends on.

/// An expression as far as its variables go.
#[derive(Debug)]
pub struct FlowExpr {
    pub syntax_id: SyntaxId,
    /// The variable or field that the expression is.
    pub var_ref_id: Option<VarRefId>,
    /// The place at which the expression stands.
    pub flow_id: Option<FlowId>,
    /// The type of the expression without the flow of control.
    pub shape_type: Option<LuaType>,
    pub kind: FlowExprKind,
    /// The prefix and the arguments of a call, the prefix and the key of an index, or the operands.
    pub children: Vec<FlowExpr>,
}

#[derive(Debug, Clone, Copy, PartialEq, Eq, Structural)]
pub enum FlowExprKind {
    Closure,
    Name,
    Index,
    Other,
}

pub struct ExprTy {
    pub syntax_id: SyntaxId,
    pub var_ref_id: Option<VarRefId>,
    pub flow_id: Option<FlowId>,
    pub shape_type: Option<Ty>,
    pub kind: FlowExprKind,
    pub children: Seq<ExprTy>,
}

pub open spec fn expr_ty(e: FlowExpr) -> ExprTy
    decreases e,
{
    ExprTy {
        syntax_id: e.syntax_id,
        var_ref_id: e.var_ref_id,
        flow_id: e.flow_id,
        shape_type: types::opt_ty(e.shape_type),
        kind: e.kind,
        children: expr_tys(e.children@),
    }
}

pub open spec fn expr_tys(s: Seq<FlowExpr>) -> Seq<ExprTy>
    decreases s,
{
    Seq::new(
        s.len(),
        |i: int|
            if 0 <= i < s.len() {
                expr_ty(s[i])
            } else {
                arbitrary()
            },
    )
}

impl View for FlowExpr {
    type V = ExprTy;

    open spec fn view(&self) -> ExprTy {
        expr_ty(*self)
    }
}

/// A variable whose type has to be known before an expression is typed.
#[derive(Debug)]
pub struct FlowExprTypeQuery {
    pub var_ref_id: VarRefId,
    pub flow_id: FlowId,
    pub syntax_id: SyntaxId,
    pub literal_shape_type: Option<LuaType>,
    pub next_dependency_idx_on_success: Option<usize>,
    pub resolved_type: Option<LuaType>,
}

pub struct DependencyTy {
    pub var_ref_id: VarRefId,
    pub flow_id: FlowId,
    pub syntax_id: SyntaxId,
    pub shape: Option<Ty>,
    pub next: Option<usize>,
    pub resolved: Option<Ty>,
}

impl View for FlowExprTypeQuery {
    type V = DependencyTy;

    open spec fn view(&self) -> DependencyTy {
        DependencyTy {
            var_ref_id: self.var_ref_id,
            flow_id: self.flow_id,
            syntax_id: self.syntax_id,
            shape: types::opt_ty(self.literal_shape_type),
            next: self.next_dependency_idx_on_success,
            resolved: types::opt_ty(self.resolved_type),
        }
    }
}

pub open spec fn dependency_tys(s: Seq<FlowExprTypeQuery>) -> Seq<DependencyTy> {
    Seq::new(s.len(), |i: int| s[i]@)
}

/// The variables that an expression depends on, after those already listed. Where the type of a
/// field is found, those of its prefix and key are not needed.
pub open spec fn dependencies(
    e: ExprTy,
    fallback: FlowId,
    by_place: bool,
    listed: Seq<DependencyTy>,
) -> Seq<DependencyTy>
    decreases e, 1nat,
{
    match e.kind {
        FlowExprKind::Closure => listed,
        FlowExprKind::Name => match e.var_ref_id {
            Some(var_ref_id) => listed.push(
                DependencyTy {
                    var_ref_id,
                    flow_id: match e.flow_id {
                        Some(id) => if by_place {
                            id
                        } else {
                            fallback
                        },
                        None => fallback,
                    },
                    syntax_id: e.syntax_id,
                    shape: None,
                    next: None,
                    resolved: None,
                },
            ),
            None => listed,
        },
        FlowExprKind::Index => match e.var_ref_id {
            Some(var_ref_id) => {
                let own = DependencyTy {
                    var_ref_id,
                    flow_id: fallback,
                    syntax_id: e.syntax_id,
                    shape: e.shape_type,
                    next: None,
                    resolved: None,
                };
                let all = dependencies_of(e.children, fallback, by_place, listed.push(own));
                all.update(
                    listed.len() as int,
                    DependencyTy { next: Some(all.len() as usize), ..own },
                )
            },
            None => dependencies_of(e.children, fallback, by_place, listed),
        },
        FlowExprKind::Other => dependencies_of(e.children, fallback, by_place, listed),
    }
}

pub open spec fn dependencies_of(
    exprs: Seq<ExprTy>,
    fallback: FlowId,
    by_place: bool,
    listed: Seq<DependencyTy>,
) -> Seq<DependencyTy>
    decreases exprs, 0nat,
{
    if exprs.len() == 0 {
        listed
    } else {
        dependencies(
            exprs.last(),
            fallback,
            by_place,
            dependencies_of(exprs.drop_last(), fallback, by_place, listed),
        )
    }
}

/// What was listed before stays in front.
proof fn lemma_dependencies_grow(
    e: ExprTy,
    fallback: FlowId,
    by_place: bool,
    listed: Seq<DependencyTy>,
)
    ensures
        dependencies(e, fallback, by_place, listed).len() >= listed.len(),
        forall|i: int|
            0 <= i < listed.len() ==> #[trigger] dependencies(e, fallback, by_place, listed)[i]
                == listed[i],
    decreases e, 1nat,
{
    match e.kind {
        FlowExprKind::Index => match e.var_ref_id {
            Some(var_ref_id) => {
                let own = DependencyTy {
                    var_ref_id,
                    flow_id: fallback,
                    syntax_id: e.syntax_id,
                    shape: e.shape_type,
                    next: None,
                    resolved: None,
                };
                lemma_dependencies_of_grow(e.children, fallback, by_place, listed.push(own));
                let all = dependencies_of(e.children, fallback, by_place, listed.push(own));
                assert forall|i: int| 0 <= i < listed.len() implies #[trigger] dependencies(
                    e,
                    fallback,
                    by_place,
                    listed,
                )[i] == listed[i] by {
                    assert(all[i] == listed.push(own)[i]);
                }
            },
            None => {
                lemma_dependencies_of_grow(e.children, fallback, by_place, listed);
            },
        },
        FlowExprKind::Other => {
            lemma_dependencies_of_grow(e.children, fallback, by_place, listed);
        },
        _ => {},
    }
}

proof fn lemma_dependencies_of_grow(
    exprs: Seq<ExprTy>,
    fallback: FlowId,
    by_place: bool,
    listed: Seq<DependencyTy>,
)
    ensures
        dependencies_of(exprs, fallback, by_place, listed).len() >= listed.len(),
        forall|i: int|
            0 <= i < listed.len() ==> #[trigger] dependencies_of(
                exprs,
                fallback,
                by_place,
                listed,
            )[i] == listed[i],
    decreases exprs, 0nat,
{
    if exprs.len() > 0 {
        let front = dependencies_of(exprs.drop_last(), fallback, by_place, listed);
        lemma_dependencies_of_grow(exprs.drop_last(), fallback, by_place, listed);
        lemma_dependencies_grow(exprs.last(), fallback, by_place, front);
        assert forall|i: int| 0 <= i < listed.len() implies #[trigger] dependencies_of(
            exprs,
            fallback,
            by_place,
            listed,
        )[i] == listed[i] by {
            assert(dependencies(exprs.last(), fallback, by_place, front)[i] == front[i]);
        }
    }
}

/// Lists the variables that an expression depends on. `by_place` tells whether names are asked for
/// at the places at which they stand.
pub fn collect_expr_dependency_queries(
    expr: &FlowExpr,
    fallback_flow_id: FlowId,
    by_place: bool,
    dependency_queries: &mut Vec<FlowExprTypeQuery>,
)
    ensures
        dependency_tys(final(dependency_queries)@) == dependencies(
            expr@,
            fallback_flow_id,
            by_place,
            dependency_tys(old(dependency_queries)@),
        ),
    decreases expr, 1nat,
{
    let ghost listed = dependency_tys(dependency_queries@);
    assert(expr@.children == expr_tys(expr.children@));
    match expr.kind {
        FlowExprKind::Closure => {},
        FlowExprKind::Name => {
            if let Some(var_ref_id) = expr.var_ref_id {
                let flow_id = match expr.flow_id {
                    Some(id) => if by_place {
                        id
                    } else {
                        fallback_flow_id
                    },
                    None => fallback_flow_id,
                };
                let query = FlowExprTypeQuery {
                    var_ref_id,
                    flow_id,
                    syntax_id: expr.syntax_id,
                    literal_shape_type: None,
                    next_dependency_idx_on_success: None,
                    resolved_type: None,
                };
                let ghost added = query@;
                dependency_queries.push(query);
                assert(dependency_tys(dependency_queries@) =~= listed.push(added));
            }
        },
        FlowExprKind::Index => {
            if let Some(var_ref_id) = expr.var_ref_id {
                let at = dependency_queries.len();
                let query = FlowExprTypeQuery {
                    var_ref_id,
                    flow_id: fallback_flow_id,
                    syntax_id: expr.syntax_id,
                    literal_shape_type: clone_opt_type(&expr.shape_type),
                    next_dependency_idx_on_success: None,
                    resolved_type: None,
                };
                let ghost own = query@;
                dependency_queries.push(query);
                assert(dependency_tys(dependency_queries@) =~= listed.push(own));
                collect_child_dependency_queries(
                    &expr.children,
                    fallback_flow_id,
                    by_place,
                    dependency_queries,
                );
                let ghost all = dependency_tys(dependency_queries@);
                proof {
                    lemma_dependencies_of_grow(
                        expr@.children,
                        fallback_flow_id,
                        by_place,
                        listed.push(own),
                    );
                    assert(all[at as int] == listed.push(own)[at as int]);
                }
                let next = dependency_queries.len();
                let again = FlowExprTypeQuery {
                    var_ref_id,
                    flow_id: fallback_flow_id,
                    syntax_id: expr.syntax_id,
                    literal_shape_type: clone_opt_type(&expr.shape_type),
                    next_dependency_idx_on_success: Some(next),
                    resolved_type: None,
                };
                let ghost changed = again@;
                dependency_queries.set(at, again);
                assert(dependency_tys(dependency_queries@) =~= all.update(at as int, changed));
            } else {
                collect_child_dependency_queries(
                    &expr.children,
                    fallback_flow_id,
                    by_place,
                    dependency_queries,
                );
            }
        },
        FlowExprKind::Other => {
            collect_child_dependency_queries(
                &expr.children,
                fallback_flow_id,
                by_place,
                dependency_queries,
            );
        },
    }
}

#[verifier::loop_isolation(false)]
fn collect_child_dependency_queries(
    exprs: &Vec<FlowExpr>,
    fallback_flow_id: FlowId,
    by_place: bool,
    dependency_queries: &mut Vec<FlowExprTypeQuery>,
)
    ensures
        dependency_tys(final(dependency_queries)@) == dependencies_of(
            expr_tys(exprs@),
            fallback_flow_id,
            by_place,
            dependency_tys(old(dependency_queries)@),
        ),
    decreases exprs, 0nat,
{
    let ghost all = expr_tys(exprs@);
    let ghost listed = dependency_tys(dependency_queries@);
    let mut i: usize = 0;
    assert(all.take(0) =~= Seq::<ExprTy>::empty());
    while i < exprs.len()
        invariant
            i <= exprs@.len(),
            dependency_tys(dependency_queries@) == dependencies_of(
                all.take(i as int),
                fallback_flow_id,
                by_place,
                listed,
            ),
        decreases exprs@.len() - i,
    {
        proof {
            assert(all.take(i + 1).drop_last() =~= all.take(i as int));
            assert(all.take(i + 1).last() == all[i as int]);
            assert(all[i as int] == exprs@[i as int]@);
        }
        collect_expr_dependency_queries(&exprs[i], fallback_flow_id, by_place, dependency_queries);
        i += 1;
    }
    assert(all.take(i as int) =~= all);
}

} // verus!
