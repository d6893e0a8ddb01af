//! Walking through all the types inside a type.

use std::sync::Arc;
use vstd::prelude::*;

use crate::types;
use crate::types::{
    KeyTy, LuaAliasCallType, LuaArrayType, LuaConditionalType, LuaFunctionType, LuaGenericType,
    LuaInstanceType, LuaIntersectionType, LuaMappedType, LuaMultiLineUnion, LuaObjectType,
    LuaTupleType, LuaType, LuaUnionType, Ty, UnionTy, VariadicTy, VariadicType,
};

verus! {

/// The type and all types inside it, each before the types inside it.
pub open spec fn preorder(t: Ty) -> Seq<Ty>
    decreases t, 1nat,
{
    seq![t] + nested(t)
}

/// The types inside a type, each before the types inside it.
pub open spec fn nested(t: Ty) -> Seq<Ty>
    decreases t, 0nat,
{
    match t {
        Ty::Array(a) => preorder(a.base),
        Ty::Call(c) => preorder_all(c.operand),
        Ty::Tuple(x) => preorder_all(x.types),
        Ty::DocFunction(f) => preorder_named(f.params) + preorder(f.ret),
        Ty::Object(o) => preorder_fields(o.fields) + preorder_pairs(o.index_access),
        Ty::Union(u) => match *u {
            UnionTy::Basic(_) => Seq::empty(),
            UnionTy::Nullable(x) => preorder(x),
            UnionTy::Multi(types) => preorder_all(types),
        },
        Ty::Intersection(types) => preorder_all(types),
        Ty::Generic(g) => preorder_all(g.params),
        Ty::Variadic(v) => match *v {
            VariadicTy::Multi(types) => preorder_all(types),
            VariadicTy::Base(x) => preorder(x),
        },
        Ty::TableGeneric(params) => preorder_all(params),
        Ty::MultiLineUnion(lines) => preorder_lines(lines),
        Ty::TypeGuard(x) => preorder(*x),
        Ty::Conditional(c) => preorder(c.checked_type) + preorder(c.extends_type) + preorder(
            c.true_type,
        ) + preorder(c.false_type),
        Ty::Mapped(m) => preorder_opt(m.param.default) + preorder_opt(m.param.constraint)
            + preorder(m.value),
        _ => Seq::empty(),
    }
}

pub open spec fn preorder_all(types: Seq<Ty>) -> Seq<Ty>
    decreases types, 0nat,
{
    if types.len() == 0 {
        Seq::empty()
    } else {
        preorder(types[0]) + preorder_all(types.skip(1))
    }
}

pub open spec fn preorder_opt(t: Option<Ty>) -> Seq<Ty>
    decreases t, 2nat,
{
    match t {
        Some(t) => preorder(t),
        None => Seq::empty(),
    }
}

pub open spec fn preorder_named(params: Seq<(Seq<char>, Option<Ty>)>) -> Seq<Ty>
    decreases params, 0nat,
{
    if params.len() == 0 {
        Seq::empty()
    } else {
        preorder_opt(params[0].1) + preorder_named(params.skip(1))
    }
}

/// The fields of an object are visited last to first.
pub open spec fn preorder_fields(fields: Seq<(KeyTy, Ty)>) -> Seq<Ty>
    decreases fields, 0nat,
{
    if fields.len() == 0 {
        Seq::empty()
    } else {
        preorder(fields[fields.len() - 1].1) + preorder_fields(fields.take(fields.len() - 1))
    }
}

pub open spec fn preorder_pairs(pairs: Seq<(Ty, Ty)>) -> Seq<Ty>
    decreases pairs, 0nat,
{
    if pairs.len() == 0 {
        Seq::empty()
    } else {
        preorder(pairs[0].0) + preorder(pairs[0].1) + preorder_pairs(pairs.skip(1))
    }
}

pub open spec fn preorder_lines(lines: Seq<(Ty, Option<Seq<char>>)>) -> Seq<Ty>
    decreases lines, 0nat,
{
    if lines.len() == 0 {
        Seq::empty()
    } else {
        preorder(lines[0].0) + preorder_lines(lines.skip(1))
    }
}

/// A type that stands for one that is still to be put in its place.
pub open spec fn is_tpl_node(t: Ty) -> bool {
    t is TplRef || t is StrTplRef || t is SelfInfer || t is Mapped
}

/// Some type of the list is such a type.
pub open spec fn holds_tpl(types: Seq<Ty>) -> bool {
    exists|i: int| 0 <= i < types.len() && is_tpl_node(#[trigger] types[i])
}

/// What is still to be visited: the types on the stack, from its top, with all inside them.
pub open spec fn pending(stack: Seq<&LuaType>) -> Seq<Ty>
    decreases stack.len(),
{
    if stack.len() == 0 {
        Seq::empty()
    } else {
        preorder(stack.last()@) + pending(stack.drop_last())
    }
}

proof fn lemma_pending_push(stack: Seq<&LuaType>, t: &LuaType)
    ensures
        pending(stack.push(t)) == preorder(t@) + pending(stack),
{
    assert(stack.push(t).drop_last() =~= stack);
}

pub open spec fn ref_tys(s: Seq<&LuaType>) -> Seq<Ty> {
    Seq::new(s.len(), |i: int| s[i]@)
}

/// Whether the predicate may answer `answer` of some type that looks like `t`.
pub open spec fn may_answer<P: Fn(&LuaType) -> bool>(predicate: P, t: Ty, answer: bool) -> bool {
    exists|x: &LuaType| x@ == t && #[trigger] predicate.ensures((x,), answer)
}

/// Takes the types off the stack and visits them with all that is inside them.
fn visit_stack<'a>(stack: Vec<&'a LuaType>) -> (r: Vec<&'a LuaType>)
    ensures
        ref_tys(r@) == pending(stack@),
{
    let mut stack = stack;
    let mut visited: Vec<&'a LuaType> = Vec::new();
    let ghost all = pending(stack@);
    assert(ref_tys(visited@) + pending(stack@) =~= all);
    while stack.len() > 0
        invariant
            ref_tys(visited@) + pending(stack@) == all,
        decreases pending(stack@).len(),
    {
        let ghost before = stack@;
        let ghost done = visited@;
        if let Some(t) = stack.pop() {
            proof {
                assert(before.last() == t && before.drop_last() =~= stack@);
            }
            let ghost rest = pending(stack@);
            visited.push(t);
            t.push_direct_children(&mut stack);
            proof {
                assert(preorder(t@) == seq![t@] + nested(t@));
                assert(pending(before) =~= seq![t@] + (nested(t@) + rest));
                assert(ref_tys(visited@) =~= ref_tys(done).push(t@));
                assert(ref_tys(visited@) + pending(stack@) =~= ref_tys(done) + pending(before));
            }
        }
    }
    assert(ref_tys(visited@) + pending(stack@) =~= ref_tys(visited@));
    visited
}

/// Whether the predicate accepts a type of the stack or one inside it.
fn any_in_stack<'a, P: Fn(&LuaType) -> bool>(start: Vec<&'a LuaType>, predicate: &P) -> (r: bool)
    requires
        forall|t: &LuaType| #[trigger] predicate.requires((t,)),
    ensures
        r ==> exists|i: int|
            0 <= i < pending(start@).len() && may_answer(*predicate, #[trigger] pending(start@)[i], true),
        !r ==> forall|i: int|
            0 <= i < pending(start@).len() ==> may_answer(
                *predicate,
                #[trigger] pending(start@)[i],
                false,
            ),
{
    let mut stack = start;
    let ghost all = pending(stack@);
    let ghost mut done: Seq<Ty> = Seq::empty();
    assert(done + pending(stack@) =~= all);
    while stack.len() > 0
        invariant
            all == pending(start@),
            done + pending(stack@) == all,
            forall|t: &LuaType| #[trigger] predicate.requires((t,)),
            forall|i: int| 0 <= i < done.len() ==> may_answer(*predicate, #[trigger] done[i], false),
        decreases pending(stack@).len(),
    {
        let ghost before = stack@;
        if let Some(t) = stack.pop() {
            proof {
                assert(before.last() == t && before.drop_last() =~= stack@);
                assert(preorder(t@) == seq![t@] + nested(t@));
            }
            let ghost rest = pending(stack@);
            let answer = predicate(t);
            assert(may_answer(*predicate, t@, answer));
            if answer {
                proof {
                    assert(all == done + pending(before));
                    assert(pending(before)[0] == t@);
                    assert(all[done.len() as int] == t@);
                }
                return true;
            }
            t.push_direct_children(&mut stack);
            proof {
                assert(pending(before) =~= seq![t@] + (nested(t@) + rest));
                assert(done.push(t@) + pending(stack@) =~= done + pending(before));
                done = done.push(t@);
            }
        }
    }
    assert(done =~= all);
    false
}

/// Whether the stack holds a type that stands for one that is still to be put in its place.
fn tpl_in_stack<'a>(start: Vec<&'a LuaType>) -> (r: bool)
    ensures
        r == holds_tpl(pending(start@)),
{
    let mut stack = start;
    let ghost all = pending(stack@);
    let ghost mut done: Seq<Ty> = Seq::empty();
    assert(done + pending(stack@) =~= all);
    while stack.len() > 0
        invariant
            all == pending(start@),
            done + pending(stack@) == all,
            forall|i: int| 0 <= i < done.len() ==> !is_tpl_node(#[trigger] done[i]),
        decreases pending(stack@).len(),
    {
        let ghost before = stack@;
        if let Some(t) = stack.pop() {
            proof {
                assert(before.last() == t && before.drop_last() =~= stack@);
                assert(preorder(t@) == seq![t@] + nested(t@));
            }
            let ghost rest = pending(stack@);
            if matches!(
                t,
                LuaType::TplRef(_) | LuaType::StrTplRef(_) | LuaType::SelfInfer | LuaType::Mapped(_)
            ) {
                proof {
                    assert(all == done + pending(before));
                    assert(pending(before)[0] == t@);
                    assert(all[done.len() as int] == t@);
                }
                return true;
            }
            t.push_direct_children(&mut stack);
            proof {
                assert(pending(before) =~= seq![t@] + (nested(t@) + rest));
                assert(done.push(t@) + pending(stack@) =~= done + pending(before));
                done = done.push(t@);
            }
        }
    }
    assert(done =~= all);
    false
}

/// A value that is made of types.
pub trait LuaTypeNode {
    /// The types inside, in the order of a visit.
    spec fn inner(&self) -> Seq<Ty>;

    /// Puts the direct parts on a stack, the one to be visited first on top.
    fn push_direct_children<'a>(&'a self, stack: &mut Vec<&'a LuaType>)
        ensures
            pending(final(stack)@) == self.inner() + pending(old(stack)@),
    ;
}

/// Whether the predicate accepts some type inside a value.
pub fn any_nested_type<N: LuaTypeNode, P: Fn(&LuaType) -> bool>(node: &N, predicate: P) -> (r: bool)
    requires
        forall|t: &LuaType| #[trigger] predicate.requires((t,)),
    ensures
        r ==> exists|i: int|
            0 <= i < node.inner().len() && may_answer(predicate, #[trigger] node.inner()[i], true),
        !r ==> forall|i: int|
            0 <= i < node.inner().len() ==> may_answer(predicate, #[trigger] node.inner()[i], false),
{
    let mut stack: Vec<&LuaType> = Vec::new();
    node.push_direct_children(&mut stack);
    assert(pending(stack@) =~= node.inner());
    any_in_stack(stack, &predicate)
}

/// The types inside a value, in the order of a visit.
pub fn visit_nested_types<N: LuaTypeNode>(node: &N) -> (r: Vec<&LuaType>)
    ensures
        ref_tys(r@) == node.inner(),
{
    let mut stack: Vec<&LuaType> = Vec::new();
    node.push_direct_children(&mut stack);
    assert(pending(stack@) =~= node.inner());
    visit_stack(stack)
}

/// Whether some type inside a value stands for one that is still to be put in its place.
pub fn contain_tpl_children<N: LuaTypeNode>(node: &N) -> (r: bool)
    ensures
        r == holds_tpl(node.inner()),
{
    let mut stack: Vec<&LuaType> = Vec::new();
    node.push_direct_children(&mut stack);
    assert(pending(stack@) =~= node.inner());
    tpl_in_stack(stack)
}

impl LuaType {
    /// Whether the predicate accepts the type or some type inside it.
    pub fn any_type<P: Fn(&LuaType) -> bool>(&self, predicate: P) -> (r: bool)
        requires
            forall|t: &LuaType| #[trigger] predicate.requires((t,)),
        ensures
            r ==> exists|i: int|
                0 <= i < preorder(self@).len() && may_answer(
                    predicate,
                    #[trigger] preorder(self@)[i],
                    true,
                ),
            !r ==> forall|i: int|
                0 <= i < preorder(self@).len() ==> may_answer(
                    predicate,
                    #[trigger] preorder(self@)[i],
                    false,
                ),
    {
        let stack: Vec<&LuaType> = vec![self];
        proof {
            assert(stack@ =~= Seq::<&LuaType>::empty().push(self));
            lemma_pending_push(Seq::empty(), self);
            assert(pending(stack@) =~= preorder(self@));
        }
        any_in_stack(stack, &predicate)
    }

    /// The type and all types inside it, each before the types inside it.
    pub fn visit_type(&self) -> (r: Vec<&LuaType>)
        ensures
            ref_tys(r@) == preorder(self@),
    {
        let stack: Vec<&LuaType> = vec![self];
        proof {
            assert(stack@ =~= Seq::<&LuaType>::empty().push(self));
            lemma_pending_push(Seq::empty(), self);
            assert(pending(stack@) =~= preorder(self@));
        }
        visit_stack(stack)
    }

    /// Whether the type or a type inside it stands for one that is still to be put in its place.
    pub fn contain_tpl(&self) -> (r: bool)
        ensures
            r == holds_tpl(preorder(self@)),
    {
        let stack: Vec<&LuaType> = vec![self];
        proof {
            assert(stack@ =~= Seq::<&LuaType>::empty().push(self));
            lemma_pending_push(Seq::empty(), self);
            assert(pending(stack@) =~= preorder(self@));
        }
        tpl_in_stack(stack)
    }
}

fn push_types<'a>(types: &'a [LuaType], stack: &mut Vec<&'a LuaType>)
    ensures
        pending(final(stack)@) == preorder_all(types::tys(types@)) + pending(old(stack)@),
{
    let ghost all = types::tys(types@);
    let ghost below = pending(stack@);
    let mut i: usize = types.len();
    assert(preorder_all(all.skip(i as int)) + below =~= below);
    while i > 0
        invariant
            i <= types@.len(),
            all == types::tys(types@),
            pending(stack@) == preorder_all(all.skip(i as int)) + below,
        decreases i,
    {
        i -= 1;
        proof {
            lemma_pending_push(stack@, &types@[i as int]);
            assert(all.skip(i as int).skip(1) =~= all.skip(i + 1));
            assert(all.skip(i as int)[0] == types@[i as int]@);
        }
        stack.push(&types[i]);
        assert(pending(stack@) =~= preorder_all(all.skip(i as int)) + below);
    }
    assert(all.skip(0) =~= all);
}

impl LuaTypeNode for LuaType {
    open spec fn inner(&self) -> Seq<Ty> {
        nested(self@)
    }

    fn push_direct_children<'a>(&'a self, stack: &mut Vec<&'a LuaType>) {
        match self {
            LuaType::Array(base) => base.push_direct_children(stack),
            LuaType::Call(base) => base.push_direct_children(stack),
            LuaType::Tuple(base) => base.push_direct_children(stack),
            LuaType::DocFunction(base) => base.push_direct_children(stack),
            LuaType::Object(base) => base.push_direct_children(stack),
            LuaType::Union(base) => base.push_direct_children(stack),
            LuaType::Intersection(base) => base.push_direct_children(stack),
            LuaType::Generic(base) => base.push_direct_children(stack),
            LuaType::Variadic(multi) => multi.push_direct_children(stack),
            LuaType::TableGeneric(params) => push_types(params.as_slice(), stack),
            LuaType::MultiLineUnion(inner) => inner.push_direct_children(stack),
            LuaType::TypeGuard(inner) => {
                proof {
                    lemma_pending_push(stack@, &**inner);
                }
                stack.push(inner);
            },
            LuaType::Conditional(inner) => inner.push_direct_children(stack),
            LuaType::Mapped(mapped) => mapped.push_direct_children(stack),
            _ => {
                assert(nested(self@) + pending(stack@) =~= pending(stack@));
            },
        }
    }
}

impl LuaTypeNode for LuaTupleType {
    open spec fn inner(&self) -> Seq<Ty> {
        nested(Ty::Tuple(Box::new(self@)))
    }

    fn push_direct_children<'a>(&'a self, stack: &mut Vec<&'a LuaType>) {
        push_types(self.get_types(), stack);
    }
}

impl LuaTypeNode for LuaFunctionType {
    open spec fn inner(&self) -> Seq<Ty> {
        nested(Ty::DocFunction(Box::new(self@)))
    }

    fn push_direct_children<'a>(&'a self, stack: &mut Vec<&'a LuaType>) {
        let ghost below = pending(stack@);
        proof {
            lemma_pending_push(stack@, &self.ret);
        }
        stack.push(&self.ret);
        let ghost all = types::named_tys(self.params@);
        let mut i: usize = self.params.len();
        assert(preorder_named(all.skip(i as int)) + (preorder(self.ret@) + below) =~= pending(stack@));
        while i > 0
            invariant
                i <= self.params@.len(),
                all == types::named_tys(self.params@),
                pending(stack@) == preorder_named(all.skip(i as int)) + (preorder(self.ret@)
                    + below),
            decreases i,
        {
            i -= 1;
            proof {
                assert(all.skip(i as int).skip(1) =~= all.skip(i + 1));
                assert(all.skip(i as int)[0] == all[i as int]);
                assert(all[i as int].1 == types::opt_ty(self.params@[i as int].1));
                assert(preorder_opt(all[i as int].1) == match all[i as int].1 {
                    Some(t) => preorder(t),
                    None => Seq::empty(),
                });
            }
            if let Some(t) = &self.params[i].1 {
                proof {
                    lemma_pending_push(stack@, t);
                }
                stack.push(t);
            }
            assert(pending(stack@) =~= preorder_named(all.skip(i as int)) + (preorder(self.ret@)
                + below));
        }
        proof {
            assert(all.skip(0) =~= all);
            assert(pending(stack@) =~= self.inner() + below);
        }
    }
}

impl LuaTypeNode for LuaObjectType {
    open spec fn inner(&self) -> Seq<Ty> {
        nested(Ty::Object(Box::new(self@)))
    }

    fn push_direct_children<'a>(&'a self, stack: &mut Vec<&'a LuaType>) {
        let ghost below = pending(stack@);
        let ghost pairs = types::pair_tys(self.index_access@);
        let mut i: usize = self.index_access.len();
        assert(preorder_pairs(pairs.skip(i as int)) + below =~= below);
        while i > 0
            invariant
                i <= self.index_access@.len(),
                pairs == types::pair_tys(self.index_access@),
                pending(stack@) == preorder_pairs(pairs.skip(i as int)) + below,
            decreases i,
        {
            i -= 1;
            proof {
                assert(pairs.skip(i as int).skip(1) =~= pairs.skip(i + 1));
                assert(pairs.skip(i as int)[0] == pairs[i as int]);
                lemma_pending_push(stack@, &self.index_access@[i as int].1);
                lemma_pending_push(
                    stack@.push(&self.index_access@[i as int].1),
                    &self.index_access@[i as int].0,
                );
            }
            stack.push(&self.index_access[i].1);
            stack.push(&self.index_access[i].0);
            assert(pending(stack@) =~= preorder_pairs(pairs.skip(i as int)) + below);
        }
        proof {
            assert(pairs.skip(0) =~= pairs);
        }
        let ghost mid = pending(stack@);
        let ghost fields = types::field_tys(self.fields@);
        let mut k: usize = 0;
        proof {
            assert(fields.take(0) =~= Seq::<(KeyTy, Ty)>::empty());
            assert(preorder_fields(fields.take(0)) + mid =~= mid);
        }
        while k < self.fields.len()
            invariant
                k <= self.fields@.len(),
                fields == types::field_tys(self.fields@),
                pending(stack@) == preorder_fields(fields.take(k as int)) + mid,
            decreases self.fields@.len() - k,
        {
            proof {
                let next = fields.take(k + 1);
                assert(next.take(next.len() - 1) =~= fields.take(k as int));
                assert(next[next.len() - 1] == fields[k as int]);
                lemma_pending_push(stack@, &self.fields@[k as int].1);
            }
            stack.push(&self.fields[k].1);
            k += 1;
            assert(pending(stack@) =~= preorder_fields(fields.take(k as int)) + mid);
        }
        proof {
            assert(fields.take(k as int) =~= fields);
            assert(pending(stack@) =~= self.inner() + below);
        }
    }
}

impl LuaTypeNode for LuaUnionType {
    open spec fn inner(&self) -> Seq<Ty> {
        nested(Ty::Union(Box::new(self@)))
    }

    fn push_direct_children<'a>(&'a self, stack: &mut Vec<&'a LuaType>) {
        match self {
            LuaUnionType::Basic(_) => {
                assert(self.inner() + pending(stack@) =~= pending(stack@));
            },
            LuaUnionType::Nullable(t) => {
                proof {
                    lemma_pending_push(stack@, t);
                }
                stack.push(t);
            },
            LuaUnionType::Multi(types) => push_types(types.get_types(), stack),
        }
    }
}

impl LuaTypeNode for LuaIntersectionType {
    open spec fn inner(&self) -> Seq<Ty> {
        nested(Ty::Intersection(self@))
    }

    fn push_direct_children<'a>(&'a self, stack: &mut Vec<&'a LuaType>) {
        push_types(self.get_types(), stack);
    }
}

impl LuaTypeNode for LuaAliasCallType {
    open spec fn inner(&self) -> Seq<Ty> {
        nested(Ty::Call(Box::new(self@)))
    }

    fn push_direct_children<'a>(&'a self, stack: &mut Vec<&'a LuaType>) {
        push_types(self.get_operands().as_slice(), stack);
    }
}

impl LuaTypeNode for LuaGenericType {
    open spec fn inner(&self) -> Seq<Ty> {
        nested(Ty::Generic(Box::new(self@)))
    }

    fn push_direct_children<'a>(&'a self, stack: &mut Vec<&'a LuaType>) {
        push_types(self.get_params().as_slice(), stack);
    }
}

impl LuaTypeNode for VariadicType {
    open spec fn inner(&self) -> Seq<Ty> {
        nested(Ty::Variadic(Box::new(self@)))
    }

    fn push_direct_children<'a>(&'a self, stack: &mut Vec<&'a LuaType>) {
        match self {
            VariadicType::Multi(types) => push_types(types.as_slice(), stack),
            VariadicType::Base(t) => {
                proof {
                    lemma_pending_push(stack@, t);
                }
                stack.push(t);
            },
        }
    }
}

impl LuaTypeNode for LuaInstanceType {
    open spec fn inner(&self) -> Seq<Ty> {
        preorder(self@.base)
    }

    fn push_direct_children<'a>(&'a self, stack: &mut Vec<&'a LuaType>) {
        proof {
            lemma_pending_push(stack@, &self.base);
        }
        stack.push(&self.base);
    }
}

impl LuaTypeNode for LuaMultiLineUnion {
    open spec fn inner(&self) -> Seq<Ty> {
        nested(Ty::MultiLineUnion(self@))
    }

    fn push_direct_children<'a>(&'a self, stack: &mut Vec<&'a LuaType>) {
        let ghost below = pending(stack@);
        let ghost lines = types::line_tys(self.unions@);
        let mut i: usize = self.unions.len();
        assert(preorder_lines(lines.skip(i as int)) + below =~= below);
        while i > 0
            invariant
                i <= self.unions@.len(),
                lines == types::line_tys(self.unions@),
                pending(stack@) == preorder_lines(lines.skip(i as int)) + below,
            decreases i,
        {
            i -= 1;
            proof {
                assert(lines.skip(i as int).skip(1) =~= lines.skip(i + 1));
                assert(lines.skip(i as int)[0] == lines[i as int]);
                lemma_pending_push(stack@, &self.unions@[i as int].0);
            }
            stack.push(&self.unions[i].0);
            assert(pending(stack@) =~= preorder_lines(lines.skip(i as int)) + below);
        }
        assert(lines.skip(0) =~= lines);
    }
}

impl LuaTypeNode for LuaArrayType {
    open spec fn inner(&self) -> Seq<Ty> {
        nested(Ty::Array(Box::new(self@)))
    }

    fn push_direct_children<'a>(&'a self, stack: &mut Vec<&'a LuaType>) {
        proof {
            lemma_pending_push(stack@, &self.base);
        }
        stack.push(&self.base);
    }
}

impl LuaTypeNode for LuaConditionalType {
    open spec fn inner(&self) -> Seq<Ty> {
        nested(Ty::Conditional(Box::new(self@)))
    }

    fn push_direct_children<'a>(&'a self, stack: &mut Vec<&'a LuaType>) {
        let ghost below = stack@;
        stack.push(&self.false_type);
        stack.push(&self.true_type);
        stack.push(&self.extends_type);
        stack.push(&self.checked_type);
        proof {
            let a = below.push(&self.false_type);
            let b = a.push(&self.true_type);
            let c = b.push(&self.extends_type);
            lemma_pending_push(below, &self.false_type);
            lemma_pending_push(a, &self.true_type);
            lemma_pending_push(b, &self.extends_type);
            lemma_pending_push(c, &self.checked_type);
            assert(pending(stack@) =~= self.inner() + pending(below));
        }
    }
}

impl LuaTypeNode for LuaMappedType {
    open spec fn inner(&self) -> Seq<Ty> {
        nested(Ty::Mapped(Box::new(self@)))
    }

    fn push_direct_children<'a>(&'a self, stack: &mut Vec<&'a LuaType>) {
        let ghost below = pending(stack@);
        proof {
            lemma_pending_push(stack@, &self.value);
            assert(self@.param.constraint == types::opt_ty(self.param.1.constraint));
            assert(self@.param.default == types::opt_ty(self.param.1.default));
        }
        stack.push(&self.value);
        if let Some(constraint) = &self.param.1.constraint {
            proof {
                lemma_pending_push(stack@, constraint);
            }
            stack.push(constraint);
        }
        assert(pending(stack@) =~= preorder_opt(self@.param.constraint) + (preorder(self@.value)
            + below));
        if let Some(default_type) = &self.param.1.default {
            proof {
                lemma_pending_push(stack@, default_type);
            }
            stack.push(default_type);
        }
        assert(pending(stack@) =~= self.inner() + below);
    }
}

} // verus!
