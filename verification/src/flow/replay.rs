//! Typing an expression anew with the types that its variables have at a place.

use vstd::prelude::*;

use crate::types;
use crate::flow::tree;
use crate::flow::query::{FlowId, SyntaxId, VarRefId};
use crate::flow::tree::{DependencyTy, FlowExpr, FlowExprTypeQuery, collect_expr_dependency_queries};
use crate::member::raw;
use crate::member::raw::InferFailReason;
use crate::type_check::simple;
use crate::types::{LuaType, Ty, complex, predicates};
use crate::types::complex::{clone_opt_type, text_is};

verus! {

/// Two types that are the same literal value.
pub open spec fn literal_eq(a: Ty, b: Ty) -> bool {
    (a is Nil && b is Nil) || (simple::integer_value(a) is Some && simple::integer_value(a) == simple::integer_value(b)) || (
    simple::string_value(a) is Some && simple::string_value(a) == simple::string_value(b)) || (simple::bool_value(a) is Some
        && simple::bool_value(a) == simple::bool_value(b))
}

pub fn always_literal_equal(a: &LuaType, b: &LuaType) -> (r: bool)
    ensures
        r == literal_eq(a@, b@),
{
    match a {
        LuaType::Nil => matches!(b, LuaType::Nil),
        LuaType::IntegerConst(x) => same_integer(*x, b),
        LuaType::DocIntegerConst(x) => same_integer(*x, b),
        LuaType::StringConst(x) => same_string(x, b),
        LuaType::DocStringConst(x) => same_string(x, b),
        LuaType::BooleanConst(x) => same_bool(*x, b),
        LuaType::DocBooleanConst(x) => same_bool(*x, b),
        _ => false,
    }
}

fn same_integer(x: i64, b: &LuaType) -> (r: bool)
    ensures
        r == (simple::integer_value(b@) == Some(x)),
{
    match b {
        LuaType::IntegerConst(y) => x == *y,
        LuaType::DocIntegerConst(y) => x == *y,
        _ => false,
    }
}

fn same_string(x: &String, b: &LuaType) -> (r: bool)
    ensures
        r == (simple::string_value(b@) == Some(x@)),
{
    match b {
        LuaType::StringConst(y) => text_is(x, y.as_str()),
        LuaType::DocStringConst(y) => text_is(x, y.as_str()),
        _ => false,
    }
}

fn same_bool(x: bool, b: &LuaType) -> (r: bool)
    ensures
        r == (simple::bool_value(b@) == Some(x)),
{
    match b {
        LuaType::BooleanConst(y) => x == *y,
        LuaType::DocBooleanConst(y) => x == *y,
        _ => false,
    }
}

/// The types of a list that are the same literal value as another type.
pub open spec fn equal_literals(types: Seq<Ty>, t: Ty) -> Seq<Ty>
    decreases types.len(),
{
    if types.len() == 0 {
        Seq::empty()
    } else {
        let front = equal_literals(types.drop_last(), t);
        if literal_eq(types.last(), t) {
            front.push(types.last())
        } else {
            front
        }
    }
}

/// A literal as it was declared, where a value of it is known.
pub open spec fn declared_literal(source: Ty, t: Ty) -> Option<Ty> {
    match source {
        Ty::Union(u) => if equal_literals(complex::union_tys(*u), t).len() > 0 {
            Some(predicates::ty_from_list(equal_literals(complex::union_tys(*u), t)))
        } else {
            None
        },
        _ => if literal_eq(source, t) {
            Some(source)
        } else {
            None
        },
    }
}

fn list_equal_literals(types: &Vec<LuaType>, t: &LuaType) -> (r: Vec<LuaType>)
    ensures
        types::tys(r@) == equal_literals(types::tys(types@), t@),
{
    let ghost all = types::tys(types@);
    let mut r: Vec<LuaType> = Vec::new();
    let mut i: usize = 0;
    proof {
        assert(all.take(0) =~= Seq::<Ty>::empty());
        assert(types::tys(r@) =~= Seq::<Ty>::empty());
    }
    while i < types.len()
        invariant
            i <= types@.len(),
            all == types::tys(types@),
            types::tys(r@) == equal_literals(all.take(i as int), t@),
        decreases types@.len() - i,
    {
        proof {
            assert(all.take(i + 1).drop_last() =~= all.take(i as int));
            assert(all.take(i + 1).last() == all[i as int]);
            assert(all[i as int] == types@[i as int]@);
        }
        if always_literal_equal(&types[i], t) {
            let ghost before = types::tys(r@);
            r.push(types[i].clone());
            assert(types::tys(r@) =~= before.push(all[i as int]));
        }
        i += 1;
    }
    assert(all.take(i as int) =~= all);
    r
}

/// A literal as it was declared, where a value of it is known.
pub fn literal_equivalent_type(source_type: &LuaType, target_type: &LuaType) -> (r: Option<LuaType>)
    ensures
        types::opt_ty(r) == declared_literal(source_type@, target_type@),
{
    match source_type {
        LuaType::Union(union) => {
            let types = union.into_vec();
            let same = list_equal_literals(&types, target_type);
            assert(types::tys(same@).len() == same@.len());
            if same.len() > 0 {
                Some(LuaType::from_vec(same))
            } else {
                None
            }
        },
        _ => if always_literal_equal(source_type, target_type) {
            Some(source_type.clone())
        } else {
            None
        },
    }
}

/// An expression that is typed once the types of its variables are known.
#[derive(Debug)]
pub struct FlowReplayQuery {
    pub flow_id: FlowId,
    pub expr: SyntaxId,
    pub allow_table_exprs: bool,
    pub dependency_queries: Vec<FlowExprTypeQuery>,
    pub next_dependency_idx: usize,
    pub dependency_types: Vec<(SyntaxId, LuaType)>,
}

pub struct ReplayTy {
    pub flow_id: FlowId,
    pub expr: SyntaxId,
    pub allow_table_exprs: bool,
    pub queries: Seq<DependencyTy>,
    pub next: nat,
    pub types: Seq<(SyntaxId, Ty)>,
}

pub open spec fn typed_ids(s: Seq<(SyntaxId, LuaType)>) -> Seq<(SyntaxId, Ty)> {
    Seq::new(s.len(), |i: int| (s[i].0, s[i].1@))
}

impl View for FlowReplayQuery {
    type V = ReplayTy;

    open spec fn view(&self) -> ReplayTy {
        ReplayTy {
            flow_id: self.flow_id,
            expr: self.expr,
            allow_table_exprs: self.allow_table_exprs,
            queries: tree::dependency_tys(self.dependency_queries@),
            next: self.next_dependency_idx as nat,
            types: typed_ids(self.dependency_types@),
        }
    }
}

/// The variable that is asked for next.
pub open spec fn next_of(r: ReplayTy) -> Option<DependencyTy> {
    if r.next < r.queries.len() {
        Some(r.queries[r.next as int])
    } else {
        None
    }
}

/// Where to go on after a variable at place `at` was found. There is no way back.
pub open spec fn place_after(at: nat, next: Option<usize>) -> nat {
    match next {
        Some(n) => if n > at {
            n as nat
        } else {
            at + 1
        },
        None => at + 1,
    }
}

/// The type of a variable is taken, as it was declared where it is a declared literal.
pub open spec fn with_type(r: ReplayTy, t: Ty) -> ReplayTy {
    let query = r.queries[r.next as int];
    let taken = match query.shape {
        Some(shape) => match declared_literal(shape, t) {
            Some(declared) => declared,
            None => t,
        },
        None => t,
    };
    ReplayTy {
        types: r.types.push((query.syntax_id, taken)),
        next: place_after(r.next, query.next),
        ..r
    }
}

/// The answer for a variable is taken. One that is not found is passed over.
pub open spec fn with_answer(r: ReplayTy, answer: Result<Ty, InferFailReason>) -> Result<
    ReplayTy,
    InferFailReason,
> {
    if r.next >= r.queries.len() {
        Err(InferFailReason::Unsupported)
    } else {
        match answer {
            Ok(t) => Ok(with_type(r, t)),
            Err(InferFailReason::NeedResolve(id)) => Err(InferFailReason::NeedResolve(id)),
            Err(_) => Ok(ReplayTy { next: r.next + 1, ..r }),
        }
    }
}

/// How many variables may still be asked for.
pub open spec fn queries_left(r: ReplayTy) -> nat {
    if r.next < r.queries.len() {
        (r.queries.len() - r.next) as nat
    } else {
        0
    }
}

/// All variables that are known already are taken, up to the first that is not.
pub open spec fn with_known(r: ReplayTy) -> ReplayTy
    decreases queries_left(r),
{
    match next_of(r) {
        Some(query) => match query.resolved {
            Some(t) => with_known(with_type(r, t)),
            None => r,
        },
        None => r,
    }
}

pub open spec fn with_resolved(
    queries: Seq<DependencyTy>,
    var_ref_id: VarRefId,
    t: Ty,
) -> Seq<DependencyTy> {
    Seq::new(
        queries.len(),
        |i: int|
            if queries[i].var_ref_id == var_ref_id {
                DependencyTy { resolved: Some(t), ..queries[i] }
            } else {
                queries[i]
            },
    )
}

impl FlowReplayQuery {
    /// An expression with the variables that it depends on.
    pub fn new(expr: &FlowExpr, flow_id: FlowId, by_place: bool, allow_table_exprs: bool) -> (r:
        Self)
        ensures
            r@ == (ReplayTy {
                flow_id,
                expr: expr@.syntax_id,
                allow_table_exprs,
                queries: tree::dependencies(expr@, flow_id, by_place, Seq::empty()),
                next: 0,
                types: Seq::empty(),
            }),
    {
        let mut dependency_queries: Vec<FlowExprTypeQuery> = Vec::new();
        assert(tree::dependency_tys(dependency_queries@) =~= Seq::empty());
        collect_expr_dependency_queries(expr, flow_id, by_place, &mut dependency_queries);
        let r = FlowReplayQuery {
            flow_id,
            expr: expr.syntax_id,
            allow_table_exprs,
            dependency_queries,
            next_dependency_idx: 0,
            dependency_types: Vec::new(),
        };
        assert(typed_ids(r.dependency_types@) =~= Seq::empty());
        r
    }

    pub fn next_query(&self) -> (r: Option<&FlowExprTypeQuery>)
        ensures
            (match r {
                Some(query) => Some(query@),
                None => None,
            }) == next_of(self@),
    {
        if self.next_dependency_idx < self.dependency_queries.len() {
            Some(&self.dependency_queries[self.next_dependency_idx])
        } else {
            None
        }
    }

    fn accept_type(&mut self, t: LuaType)
        requires
            old(self)@.next < old(self)@.queries.len(),
        ensures
            final(self)@ == with_type(old(self)@, t@),
    {
        let at = self.next_dependency_idx;
        let count = self.dependency_queries.len();
        assert(at < count);
        let ghost before = self@;
        let query = &self.dependency_queries[at];
        assert(before.queries[at as int] == query@);
        let syntax_id = query.syntax_id;
        let next = query.next_dependency_idx_on_success;
        let taken = match &query.literal_shape_type {
            Some(shape) => match literal_equivalent_type(shape, &t) {
                Some(declared) => declared,
                None => t,
            },
            None => t,
        };
        let ghost added = taken@;
        self.dependency_types.push((syntax_id, taken));
        assert(typed_ids(self.dependency_types@) =~= before.types.push((syntax_id, added)));
        self.next_dependency_idx =
        match next {
            Some(n) => if n > at {
                n
            } else {
                at + 1
            },
            None => at + 1,
        };
    }

    /// Takes the answer for the variable that was asked for.
    pub fn accept_result(&mut self, dependency_result: Result<LuaType, InferFailReason>) -> (r:
        Result<(), InferFailReason>)
        ensures
            match with_answer(old(self)@, raw::res_ty(dependency_result)) {
                Ok(next) => r is Ok && final(self)@ == next,
                Err(reason) => r == Err::<(), InferFailReason>(reason) && final(self)@
                    == old(self)@,
            },
    {
        if self.next_dependency_idx >= self.dependency_queries.len() {
            return Err(InferFailReason::Unsupported);
        }
        match dependency_result {
            Ok(t) => {
                self.accept_type(t);
                Ok(())
            },
            Err(InferFailReason::NeedResolve(id)) => Err(InferFailReason::NeedResolve(id)),
            Err(_) => {
                self.next_dependency_idx = self.next_dependency_idx + 1;
                Ok(())
            },
        }
    }

    /// Takes all variables that are known already.
    #[verifier::loop_isolation(false)]
    pub fn accept_resolved_dependencies(&mut self)
        ensures
            final(self)@ == with_known(old(self)@),
    {
        let ghost whole = with_known(self@);
        loop
            invariant
                whole == with_known(self@),
            decreases queries_left(self@),
        {
            let known = match self.next_query() {
                Some(query) => clone_opt_type(&query.resolved_type),
                None => None,
            };
            match known {
                Some(t) => {
                    self.accept_type(t);
                },
                None => {
                    return ;
                },
            }
        }
    }

    /// Takes a variable to be of the given type.
    pub fn resolve_dependencies(&mut self, var_ref_id: VarRefId, typ: &LuaType)
        ensures
            final(self)@ == (ReplayTy {
                queries: with_resolved(old(self)@.queries, var_ref_id, typ@),
                ..old(self)@
            }),
    {
        let ghost before = self@;
        let mut queries: Vec<FlowExprTypeQuery> = Vec::new();
        let mut i: usize = 0;
        while i < self.dependency_queries.len()
            invariant
                i <= self.dependency_queries@.len(),
                self@ == before,
                queries@.len() == i,
                before.queries.len() == self.dependency_queries@.len(),
                forall|j: int|
                    0 <= j < i ==> (#[trigger] queries@[j])@ == with_resolved(
                        before.queries,
                        var_ref_id,
                        typ@,
                    )[j],
            decreases self.dependency_queries@.len() - i,
        {
            let query = &self.dependency_queries[i];
            assert(before.queries[i as int] == query@);
            let resolved_type = if query.var_ref_id == var_ref_id {
                Some(typ.clone())
            } else {
                clone_opt_type(&query.resolved_type)
            };
            queries.push(
                FlowExprTypeQuery {
                    var_ref_id: query.var_ref_id,
                    flow_id: query.flow_id,
                    syntax_id: query.syntax_id,
                    literal_shape_type: clone_opt_type(&query.literal_shape_type),
                    next_dependency_idx_on_success: query.next_dependency_idx_on_success,
                    resolved_type,
                },
            );
            i += 1;
        }
        self.dependency_queries = queries;
        assert(tree::dependency_tys(self.dependency_queries@) =~= with_resolved(
            before.queries,
            var_ref_id,
            typ@,
        ));
    }
}

} // verus!
