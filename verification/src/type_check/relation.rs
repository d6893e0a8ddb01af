//! The comparison of two types: what is assumed, kept and spent on the way.

use vstd::prelude::*;

use crate::{db, types};
use crate::db::{DbIndex, DbTy};
use crate::type_check::{error_chain, intersection, normalize, simple, union};
use crate::type_check::error_chain::{
    ChainMessage, ErrorChain, MessageTy, OverflowKind, index_message, not_assignable_message,
    property_message, push_message,
};
use crate::type_check::intersection::relate_intersection;
use crate::type_check::normalize::normalize_type;
use crate::type_check::simple::{fast_eq_check, is_simple_assignable};
use crate::type_check::structured::dispatch;
use crate::type_check::structured::dispatch::dispatch_structured;
use crate::type_check::union::relate_union;
use crate::types::{LuaMemberKey, LuaType, LuaUnionType, Ty, UnionTy, complex, equality};

verus! {

// ----------------------------------------------------------------------------
// What a comparison starts from, what it changes and what it answers.

/// Why two types are not known to fit.
#[derive(Debug, Clone, Copy, PartialEq, Eq, Structural)]
pub enum RelationFailure {
    Unrelated,
    Indeterminate(OverflowKind),
}

pub type RelationResult = Result<(), RelationFailure>;

/// Whether the comparison is of one part of an intersection.
#[derive(Debug, Clone, Copy, PartialEq, Eq, Structural)]
pub enum IntersectionState {
    Plain,
    Source,
    Target,
}

impl IntersectionState {
    pub fn contains(self, state: Self) -> (r: bool)
        ensures
            r == (self == state && self != IntersectionState::Plain),
    {
        self == state && self != IntersectionState::Plain
    }
}

/// Whether reasons are collected.
#[derive(Debug, Clone, Copy, PartialEq, Eq, Structural)]
pub enum EvidenceMode {
    Silent,
    Explain,
}

/// The scope of a comparison: the declarations, how deep it is nested, which comparisons it is
/// part of and whether a reason is wanted.
pub struct RelScope {
    pub db: DbTy,
    pub depth: nat,
    pub active: Seq<(Ty, Ty, IntersectionState)>,
    pub explain: bool,
}

/// What comparisons leave behind: the answers found so far, the steps that may still be taken, the
/// reason and how often a comparison rested on itself.
pub struct RelState {
    pub answers: Seq<(Ty, Ty, IntersectionState, bool)>,
    pub budget: u32,
    pub chain: Seq<MessageTy>,
    pub assumptions: usize,
}

/// The outcome of a comparison.
pub struct Rel {
    pub st: RelState,
    pub res: RelationResult,
}

/// The outcome of a comparison by rules that may have nothing to say.
pub struct RelMaybe {
    pub st: RelState,
    pub res: Option<RelationResult>,
}

pub open spec fn rel_some(r: Rel) -> RelMaybe {
    RelMaybe { st: r.st, res: Some(r.res) }
}

pub open spec fn rel_opt(st: RelState, r: Option<Rel>) -> RelMaybe {
    match r {
        Some(r) => rel_some(r),
        None => RelMaybe { st, res: None },
    }
}

/// How many more levels a comparison may be nested.
pub open spec fn levels(c: RelScope) -> nat {
    if c.depth >= 100 {
        0
    } else {
        (100 - c.depth) as nat
    }
}

/// The same scope without a wish for reasons.
pub open spec fn quiet(c: RelScope) -> RelScope {
    RelScope { explain: false, ..c }
}

pub open spec fn rel_ok(st: RelState) -> Rel {
    Rel { st, res: Ok(()) }
}

pub open spec fn rel_err(st: RelState, failure: RelationFailure) -> Rel {
    Rel { st, res: Err(failure) }
}

pub open spec fn with_message(c: RelScope, st: RelState, message: MessageTy) -> RelState {
    if c.explain {
        RelState { chain: error_chain::pushed(st.chain, message), ..st }
    } else {
        st
    }
}

/// A failure for the given reason.
pub open spec fn rel_fail(c: RelScope, st: RelState, message: MessageTy) -> Rel {
    rel_err(with_message(c, st, message), RelationFailure::Unrelated)
}

pub open spec fn misfit(source: Ty, target: Ty) -> MessageTy {
    MessageTy::NotAssignable { source, target }
}

/// The outcome with one more step in front of the reason, where it is a failure.
pub open spec fn rel_note(c: RelScope, r: Rel, message: MessageTy) -> Rel {
    if r.res == Err::<(), RelationFailure>(RelationFailure::Unrelated) {
        Rel { st: with_message(c, r.st, message), res: r.res }
    } else {
        r
    }
}

/// One step of the budget is taken.
pub open spec fn rel_spend(st: RelState) -> Rel {
    if st.budget == 0 {
        rel_err(st, RelationFailure::Indeterminate(OverflowKind::Budget))
    } else {
        rel_ok(RelState { budget: (st.budget - 1) as u32, ..st })
    }
}

/// The first of the limits met so far.
pub open spec fn first_of(first: Option<OverflowKind>, kind: OverflowKind) -> Option<OverflowKind> {
    match first {
        Some(k) => Some(k),
        None => Some(kind),
    }
}

/// The outcome of many comparisons none of which failed.
pub open spec fn rel_settled(st: RelState, first: Option<OverflowKind>) -> Rel {
    match first {
        Some(kind) => rel_err(st, RelationFailure::Indeterminate(kind)),
        None => rel_ok(st),
    }
}

// ----------------------------------------------------------------------------
// Answers that are kept.

pub open spec fn is_answer_for(
    a: (Ty, Ty, IntersectionState, bool),
    source: Ty,
    target: Ty,
    state: IntersectionState,
) -> bool {
    a.2 == state && equality::ty_eq(a.0, source) && equality::ty_eq(a.1, target)
}

/// The answer kept for two types.
pub open spec fn kept_answer(
    answers: Seq<(Ty, Ty, IntersectionState, bool)>,
    source: Ty,
    target: Ty,
    state: IntersectionState,
) -> Option<bool>
    decreases answers.len(),
{
    if answers.len() == 0 {
        None
    } else if is_answer_for(answers.last(), source, target, state) {
        Some(answers.last().3)
    } else {
        kept_answer(answers.drop_last(), source, target, state)
    }
}

/// An outcome is kept if it is certain: a failure, or a success that rests on nothing but what was
/// compared on the way, or the success of a comparison that is no part of another one.
pub open spec fn rel_kept(
    c: RelScope,
    before: RelState,
    r: Rel,
    source: Ty,
    target: Ty,
    state: IntersectionState,
) -> Rel {
    match r.res {
        Ok(_) => if c.depth == 0 || before.assumptions == r.st.assumptions {
            Rel {
                st: RelState {
                    answers: r.st.answers.push((source, target, state, true)),
                    ..r.st
                },
                res: r.res,
            }
        } else {
            r
        },
        Err(RelationFailure::Unrelated) => Rel {
            st: RelState { answers: r.st.answers.push((source, target, state, false)), ..r.st },
            res: r.res,
        },
        Err(RelationFailure::Indeterminate(_)) => r,
    }
}

// ----------------------------------------------------------------------------
// Tests on types.

pub open spec fn is_exact_value(t: Ty) -> bool {
    t is IntegerConst || t is DocIntegerConst || t is StringConst || t is DocStringConst
}

pub open spec fn any_fast_eq(source: Ty, types: Seq<Ty>) -> bool {
    exists|i: int| 0 <= i < types.len() && simple::fast_eq(source, #[trigger] types[i])
}

/// A literal that is one of the types of a union, or of the union that an alias stands for.
#[verifier::opaque]
pub open spec fn is_listed_value(db: DbTy, source: Ty, target: Ty) -> bool {
    let union = match target {
        Ty::Union(_) | Ty::MultiLineUnion(_) => Some(target),
        Ty::Ref(id) => match db::decl_of(db, id) {
            Some(decl) => decl.alias_ref,
            None => None,
        },
        _ => None,
    };
    match union {
        Some(Ty::MultiLineUnion(lines)) => any_fast_eq(source, complex::line_types(lines)),
        Some(Ty::Union(u)) => match *u {
            UnionTy::Basic(_) => false,
            UnionTy::Nullable(t) => simple::fast_eq(source, t),
            UnionTy::Multi(types) => any_fast_eq(source, types),
        },
        _ => false,
    }
}

/// A type that may lead back to itself.
pub open spec fn may_recur(t: Ty) -> bool {
    match t {
        Ty::Ref(_)
        | Ty::Def(_)
        | Ty::Generic(_)
        | Ty::Signature(_)
        | Ty::Instance(_)
        | Ty::Call(_)
        | Ty::Conditional(_)
        | Ty::Mapped(_)
        | Ty::MultiLineUnion(_)
        | Ty::TypeGuard(_)
        | Ty::ModuleRef(_) => true,
        Ty::TplRef(tpl) => tpl.param.constraint is Some,
        _ => false,
    }
}

pub open spec fn recurring_eq(a: Ty, b: Ty) -> bool {
    match a {
        Ty::FloatConst(x) => match b {
            Ty::FloatConst(y) => x == y,
            _ => false,
        },
        _ => equality::ty_eq(a, b),
    }
}

/// The comparison is already under way.
#[verifier::opaque]
pub open spec fn is_under_way(
    active: Seq<(Ty, Ty, IntersectionState)>,
    source: Ty,
    target: Ty,
    state: IntersectionState,
) -> bool {
    exists|i: int|
        0 <= i < active.len() && (#[trigger] active[i]).2 == state && recurring_eq(
            active[i].0,
            source,
        ) && recurring_eq(active[i].1, target)
}

pub open spec fn is_composite(t: Ty) -> bool {
    t is Union || t is MultiLineUnion || t is Intersection
}

/// The type that another one stands for, where that is a different type.
pub open spec fn unfolded(db: DbTy, t: Ty) -> Option<Ty> {
    match normalize::normalized(db, t) {
        Some(n) => if equality::ty_eq(n, t) {
            None
        } else {
            Some(n)
        },
        None => None,
    }
}

// ----------------------------------------------------------------------------
// The comparison.

/// Compares two types.
pub open spec fn rel_types(
    c: RelScope,
    st: RelState,
    source: Ty,
    target: Ty,
    state: IntersectionState,
) -> Rel
    decreases levels(c), 50nat, 0nat,
{
    match simple::simple_answer(source, target) {
        Some(true) => rel_ok(st),
        Some(false) => rel_fail(c, st, misfit(source, target)),
        None => rel_complex(c, st, source, target, state),
    }
}

/// Compares two types on which the table of simple types says nothing. A kept success is taken
/// over; a kept failure too, unless the reason is wanted.
pub open spec fn rel_complex(
    c: RelScope,
    st: RelState,
    source: Ty,
    target: Ty,
    state: IntersectionState,
) -> Rel
    decreases levels(c), 49nat, 0nat,
{
    if is_exact_value(source) && is_listed_value(c.db, source, target) {
        rel_ok(st)
    } else {
        let kept = kept_answer(st.answers, source, target, state);
        if kept == Some(true) {
            rel_ok(st)
        } else if kept == Some(false) && !c.explain {
            rel_err(st, RelationFailure::Unrelated)
        } else {
            rel_kept(
                c,
                st,
                rel_scoped(c, st, source, target, state),
                source,
                target,
                state,
            )
        }
    }
}

/// A comparison that is part of itself succeeds by assumption. One that is nested too deep, or for
/// which no budget is left, stays open.
pub open spec fn rel_scoped(
    c: RelScope,
    st: RelState,
    source: Ty,
    target: Ty,
    state: IntersectionState,
) -> Rel
    decreases levels(c), 48nat, 0nat,
{
    if c.depth >= 100 {
        rel_err(st, RelationFailure::Indeterminate(OverflowKind::Recursion))
    } else if may_recur(source) || may_recur(target) {
        if is_under_way(c.active, source, target, state) {
            rel_ok(
                RelState {
                    assumptions: if st.assumptions == usize::MAX {
                        usize::MAX
                    } else {
                        (st.assumptions + 1) as usize
                    },
                    ..st
                },
            )
        } else {
            let spent = rel_spend(st);
            if spent.res is Err {
                spent
            } else {
                rel_inside(
                    RelScope {
                        depth: c.depth + 1,
                        active: c.active.push((source, target, state)),
                        ..c
                    },
                    spent.st,
                    source,
                    target,
                    state,
                )
            }
        }
    } else {
        rel_inside(RelScope { depth: c.depth + 1, ..c }, st, source, target, state)
    }
}

/// Compares two types by what they stand for, then by their parts, then by their structure.
pub open spec fn rel_inside(
    c: RelScope,
    st: RelState,
    source: Ty,
    target: Ty,
    state: IntersectionState,
) -> Rel
    decreases levels(c), 100nat, 0nat,
{
    match unfolded(c.db, source) {
        Some(s) => if source is Ref && equality::ty_eq(s, target) {
            rel_ok(st)
        } else {
            rel_types(c, st, s, target, state)
        },
        None => match unfolded(c.db, target) {
            Some(t) => if equality::ty_eq(source, t) {
                rel_ok(st)
            } else {
                rel_types(c, st, source, t, state)
            },
            None => if target is ModuleRef {
                rel_ok(st)
            } else if is_composite(source) || is_composite(target) {
                match union::rel_union(c, st, source, target, state) {
                    Some(r) => r,
                    None => match intersection::rel_intersection(c, st, source, target, state) {
                        Some(r) => r,
                        None => rel_plain(c, st, source, target, state),
                    },
                }
            } else {
                rel_plain(c, st, source, target, state)
            },
        },
    }
}

/// Compares two types that stand for no others and have no parts.
pub open spec fn rel_plain(
    c: RelScope,
    st: RelState,
    source: Ty,
    target: Ty,
    state: IntersectionState,
) -> Rel
    decreases levels(c), 99nat, 0nat,
{
    if source is TplRef || target is TplRef {
        rel_err(st, RelationFailure::Indeterminate(OverflowKind::Recursion))
    } else if source is Never {
        if target is Never {
            rel_ok(st)
        } else {
            rel_fail(c, st, misfit(source, target))
        }
    } else if target is Never {
        rel_fail(c, st, misfit(source, target))
    } else {
        let m = dispatch::rel_structured(c, st, source, target, state);
        match m.res {
            Some(res) => Rel { st: m.st, res },
            None => rel_fail(c, m.st, misfit(source, target)),
        }
    }
}

// ----------------------------------------------------------------------------
// The comparison, carried out.

/// An answer that was found.
#[derive(Debug)]
pub struct KeptRelation {
    pub source: LuaType,
    pub target: LuaType,
    pub state: IntersectionState,
    pub related: bool,
}

/// The answers that were found, of which a later one counts.
#[derive(Debug)]
pub struct RelationTable {
    pub entries: Vec<KeptRelation>,
}

/// What is kept between comparisons.
#[derive(Debug)]
pub struct SemanticLocalCache {
    pub relations: RelationTable,
}

pub open spec fn answer_tys(entries: Seq<KeptRelation>) -> Seq<(Ty, Ty, IntersectionState, bool)> {
    Seq::new(
        entries.len(),
        |i: int| (entries[i].source@, entries[i].target@, entries[i].state, entries[i].related),
    )
}

impl View for RelationTable {
    type V = Seq<(Ty, Ty, IntersectionState, bool)>;

    open spec fn view(&self) -> Seq<(Ty, Ty, IntersectionState, bool)> {
        answer_tys(self.entries@)
    }
}

impl RelationTable {
    pub fn is_empty(&self) -> (r: bool)
        ensures
            r == (self@.len() == 0),
    {
        self.entries.len() == 0
    }

    pub fn get(&self, source: &LuaType, target: &LuaType, state: IntersectionState) -> (r: Option<
        bool,
    >)
        ensures
            r == kept_answer(self@, source@, target@, state),
    {
        let ghost all = self@;
        let mut i: usize = self.entries.len();
        assert(all.take(i as int) =~= all);
        while i > 0
            invariant
                i <= self.entries@.len(),
                all == self@,
                kept_answer(all, source@, target@, state) == kept_answer(
                    all.take(i as int),
                    source@,
                    target@,
                    state,
                ),
            decreases i,
        {
            i -= 1;
            let entry = &self.entries[i];
            proof {
                assert(all.take(i + 1).last() == all[i as int]);
                assert(all.take(i + 1).drop_last() =~= all.take(i as int));
            }
            if entry.state == state && entry.source.same(source) && entry.target.same(target) {
                return Some(entry.related);
            }
        }
        None
    }

    pub fn contains_key(
        &self,
        source: &LuaType,
        target: &LuaType,
        state: IntersectionState,
    ) -> (r: bool)
        ensures
            r == (kept_answer(self@, source@, target@, state) is Some),
    {
        self.get(source, target, state).is_some()
    }

    pub fn insert(
        &mut self,
        source: &LuaType,
        target: &LuaType,
        state: IntersectionState,
        related: bool,
    )
        ensures
            final(self)@ == old(self)@.push((source@, target@, state, related)),
    {
        let ghost before = self@;
        self.entries.push(
            KeptRelation { source: source.clone(), target: target.clone(), state, related },
        );
        assert(self@ =~= before.push((source@, target@, state, related)));
    }
}

impl Default for SemanticLocalCache {
    fn default() -> (r: Self)
        ensures
            r.relations@ == Seq::<(Ty, Ty, IntersectionState, bool)>::empty(),
    {
        let r = SemanticLocalCache { relations: RelationTable { entries: Vec::new() } };
        assert(r.relations@ =~= Seq::<(Ty, Ty, IntersectionState, bool)>::empty());
        r
    }
}

/// A comparison under way.
#[derive(Debug)]
pub struct Relater<'db> {
    db: &'db DbIndex,
    cache: SemanticLocalCache,
    evidence: EvidenceMode,
    relation_budget: u32,
    recursion_depth: u16,
    error_chain: Option<ErrorChain>,
    assumption_count: usize,
    active_relations: Vec<(LuaType, LuaType, IntersectionState)>,
}

pub open spec fn active_tys(active: Seq<(LuaType, LuaType, IntersectionState)>) -> Seq<
    (Ty, Ty, IntersectionState),
> {
    Seq::new(active.len(), |i: int| (active[i].0@, active[i].1@, active[i].2))
}

impl<'db> Relater<'db> {
    pub closed spec fn scope(self) -> RelScope {
        RelScope {
            db: self.db@,
            depth: self.recursion_depth as nat,
            active: active_tys(self.active_relations@),
            explain: self.evidence == EvidenceMode::Explain,
        }
    }

    pub closed spec fn state(self) -> RelState {
        RelState {
            answers: self.cache.relations@,
            budget: self.relation_budget,
            chain: error_chain::opt_chain(self.error_chain),
            assumptions: self.assumption_count,
        }
    }

    /// The comparison stands where it stood, in the state `st`.
    pub open spec fn moved(self, before: Self, st: RelState) -> bool {
        self.scope() == before.scope() && self.state() == st
    }

    /// The comparison stands where it stood, and has come to the given outcome.
    pub open spec fn did(self, before: Self, rel: Rel, res: RelationResult) -> bool {
        self.moved(before, rel.st) && res == rel.res
    }

    /// As `did`, for rules that may have nothing to say.
    pub open spec fn may_have_done(
        self,
        before: Self,
        rel: RelMaybe,
        res: Option<RelationResult>,
    ) -> bool {
        self.moved(before, rel.st) && res == rel.res
    }

    /// How many more levels the comparison may be nested.
    pub open spec fn room_left(self) -> nat {
        levels(self.scope())
    }

    pub fn new(db: &'db DbIndex, cache: SemanticLocalCache, evidence: EvidenceMode) -> (r: Self)
        ensures
            r.scope() == (RelScope {
                db: db@,
                depth: 0,
                active: Seq::empty(),
                explain: evidence == EvidenceMode::Explain,
            }),
            r.state() == (RelState {
                answers: cache.relations@,
                budget: 20_000,
                chain: Seq::empty(),
                assumptions: 0,
            }),
    {
        let r = Relater {
            db,
            cache,
            evidence,
            relation_budget: 20_000,
            recursion_depth: 0,
            error_chain: None,
            assumption_count: 0,
            active_relations: Vec::new(),
        };
        assert(active_tys(r.active_relations@) =~= Seq::empty());
        r
    }

    pub fn db(&self) -> (r: &'db DbIndex)
        ensures
            r@ == self.scope().db,
    {
        self.db
    }

    /// The answers found so far.
    pub fn relations(&self) -> (r: &RelationTable)
        ensures
            r@ == self.state().answers,
    {
        &self.cache.relations
    }

    pub fn relation_budget(&self) -> (r: u32)
        ensures
            r == self.state().budget,
    {
        self.relation_budget
    }

    pub fn set_relation_budget(&mut self, budget: u32)
        ensures
            final(self).moved(*old(self), (RelState { budget, ..old(self).state() })),
    {
        self.relation_budget = budget;
    }

    pub fn recursion_depth(&self) -> (r: u16)
        ensures
            r == self.scope().depth,
    {
        self.recursion_depth
    }

    pub fn set_recursion_depth(&mut self, depth: u16)
        ensures
            final(self).state() == old(self).state(),
            final(self).scope() == (RelScope { depth: depth as nat, ..old(self).scope() }),
    {
        self.recursion_depth = depth;
    }

    /// How often a comparison rested on itself.
    pub fn assumption_count(&self) -> (r: usize)
        ensures
            r == self.state().assumptions,
    {
        self.assumption_count
    }

    /// How many comparisons are under way.
    pub fn active_count(&self) -> (r: usize)
        ensures
            r == self.scope().active.len(),
    {
        self.active_relations.len()
    }

    /// Ends the comparison: what is kept of it and the reason.
    pub fn finish(self) -> (r: (SemanticLocalCache, Option<ErrorChain>))
        ensures
            r.0.relations@ == self.state().answers,
            error_chain::opt_chain(r.1) == self.state().chain,
    {
        (self.cache, self.error_chain)
    }

    pub fn is_explain(&self) -> (r: bool)
        ensures
            r == self.scope().explain,
    {
        self.evidence == EvidenceMode::Explain
    }

    pub fn consume_relation_budget(&mut self) -> (r: RelationResult)
        ensures
            final(self).did(*old(self), rel_spend(old(self).state()), r),
    {
        if self.relation_budget == 0 {
            return Err(RelationFailure::Indeterminate(OverflowKind::Budget));
        }
        self.relation_budget = self.relation_budget - 1;
        Ok(())
    }

    fn push_error_message(&mut self, message: ChainMessage)
        ensures
            final(self).moved(
                *old(self),
                (RelState {
                    chain: error_chain::pushed(old(self).state().chain, message@),
                    ..old(self).state()
                }),
            ),
    {
        let head = self.error_chain.take();
        self.error_chain = Some(push_message(head, message));
    }

    /// A failure at a leaf, for the given reason.
    pub fn fail(&mut self, message: ChainMessage) -> (r: RelationResult)
        ensures
            final(self).did(
                *old(self),
                rel_fail(old(self).scope(), old(self).state(), message@),
                r,
            ),
    {
        if self.is_explain() {
            self.push_error_message(message);
        }
        Err(RelationFailure::Unrelated)
    }

    /// A failure because the types do not fit.
    pub fn fail_types(&mut self, source: &LuaType, target: &LuaType) -> (r: RelationResult)
        ensures
            final(self).did(
                *old(self),
                rel_fail(old(self).scope(), old(self).state(), misfit(source@, target@)),
                r,
            ),
    {
        if self.is_explain() {
            self.push_error_message(not_assignable_message(source, target));
        }
        Err(RelationFailure::Unrelated)
    }

    /// Puts one more step in front of the reason for a failure.
    pub fn on_unrelated(&mut self, result: RelationResult, message: ChainMessage) -> (r:
        RelationResult)
        ensures
            final(self).did(
                *old(self),
                rel_note(
                    old(self).scope(),
                    (Rel { st: old(self).state(), res: result }),
                    message@,
                ),
                r,
            ),
    {
        if let Err(RelationFailure::Unrelated) = &result {
            if self.is_explain() {
                self.push_error_message(message);
            }
        }
        result
    }

    /// Puts the two types in front of the reason for a failure.
    pub fn note_types(&mut self, result: RelationResult, source: &LuaType, target: &LuaType) -> (r:
        RelationResult)
        ensures
            final(self).did(
                *old(self),
                rel_note(
                    old(self).scope(),
                    (Rel { st: old(self).state(), res: result }),
                    misfit(source@, target@),
                ),
                r,
            ),
    {
        if let Err(RelationFailure::Unrelated) = &result {
            if self.is_explain() {
                self.push_error_message(not_assignable_message(source, target));
            }
        }
        result
    }

    /// Puts a member in front of the reason for a failure.
    pub fn note_property(&mut self, result: RelationResult, key: &LuaMemberKey) -> (r:
        RelationResult)
        ensures
            final(self).did(
                *old(self),
                rel_note(
                    old(self).scope(),
                    (Rel { st: old(self).state(), res: result }),
                    error_chain::property_msg(key@),
                ),
                r,
            ),
    {
        if let Err(RelationFailure::Unrelated) = &result {
            if self.is_explain() {
                self.push_error_message(property_message(key));
            }
        }
        result
    }

    /// Puts an index in front of the reason for a failure.
    pub fn note_index(&mut self, result: RelationResult, key: &LuaType) -> (r: RelationResult)
        ensures
            final(self).did(
                *old(self),
                rel_note(
                    old(self).scope(),
                    (Rel { st: old(self).state(), res: result }),
                    (MessageTy::IndexKey { key_type: key@ }),
                ),
                r,
            ),
    {
        if let Err(RelationFailure::Unrelated) = &result {
            if self.is_explain() {
                self.push_error_message(index_message(key));
            }
        }
        result
    }

    /// Compares two types.
    pub fn relate(
        &mut self,
        source: &LuaType,
        target: &LuaType,
        intersection_state: IntersectionState,
    ) -> (r: RelationResult)
        ensures
            final(self).did(
                *old(self),
                rel_types(
                    old(self).scope(),
                    old(self).state(),
                    source@,
                    target@,
                    intersection_state,
                ),
                r,
            ),
        decreases old(self).scope().db.room, 12nat, old(self).room_left(), 50nat, 0nat,
    {
        if let Some(related) = is_simple_assignable(source, target) {
            return if related {
                Ok(())
            } else {
                self.fail_types(source, target)
            };
        }
        self.relate_complex(source, target, intersection_state)
    }

    /// Compares two types on which the table of simple types says nothing.
    pub fn relate_complex(
        &mut self,
        source: &LuaType,
        target: &LuaType,
        intersection_state: IntersectionState,
    ) -> (r: RelationResult)
        ensures
            final(self).did(
                *old(self),
                rel_complex(
                    old(self).scope(),
                    old(self).state(),
                    source@,
                    target@,
                    intersection_state,
                ),
                r,
            ),
        decreases old(self).scope().db.room, 12nat, old(self).room_left(), 49nat, 0nat,
    {
        if matches!(
            source,
            LuaType::IntegerConst(_) | LuaType::DocIntegerConst(_) | LuaType::StringConst(_)
                | LuaType::DocStringConst(_)
        ) && accept_const_enum_member(self.db, source, target) {
            return Ok(());
        }
        if let Some(related) = self.cache.relations.get(source, target, intersection_state) {
            if related {
                return Ok(());
            }
            if !self.is_explain() {
                return Err(RelationFailure::Unrelated);
            }
        }
        let assumption_count = self.assumption_count;
        let is_root = self.recursion_depth == 0;
        let result = self.relate_uncached(source, target, intersection_state);
        match result {
            Ok(()) => {
                if is_root || assumption_count == self.assumption_count {
                    self.cache.relations.insert(source, target, intersection_state, true);
                }
            },
            Err(RelationFailure::Unrelated) => {
                self.cache.relations.insert(source, target, intersection_state, false);
            },
            Err(RelationFailure::Indeterminate(_)) => {},
        }
        result
    }

    fn relate_uncached(
        &mut self,
        source: &LuaType,
        target: &LuaType,
        intersection_state: IntersectionState,
    ) -> (r: RelationResult)
        ensures
            final(self).did(
                *old(self),
                rel_scoped(
                    old(self).scope(),
                    old(self).state(),
                    source@,
                    target@,
                    intersection_state,
                ),
                r,
            ),
        decreases old(self).scope().db.room, 12nat, old(self).room_left(), 48nat, 0nat,
    {
        if self.recursion_depth >= 100 {
            return Err(RelationFailure::Indeterminate(OverflowKind::Recursion));
        }
        let scoped = is_scoped_type(source) || is_scoped_type(target);
        let ghost before = active_tys(self.active_relations@);
        if scoped {
            if self.is_active_relation(source, target, intersection_state) {
                self.assumption_count = self.assumption_count.saturating_add(1);
                return Ok(());
            }
            if let Err(failure) = self.consume_relation_budget() {
                return Err(failure);
            }
            self.active_relations.push((source.clone(), target.clone(), intersection_state));
            assert(active_tys(self.active_relations@) =~= before.push(
                (source@, target@, intersection_state),
            ));
        }
        self.recursion_depth = self.recursion_depth + 1;
        let result = self.relate_in_scope(source, target, intersection_state);
        self.recursion_depth = self.recursion_depth - 1;
        if scoped {
            proof {
                assert(active_tys(self.active_relations@) == before.push(
                    (source@, target@, intersection_state),
                ));
                assert(active_tys(self.active_relations@).len() == self.active_relations@.len());
            }
            let ghost stack = self.active_relations@;
            self.active_relations.pop();
            proof {
                assert(active_tys(stack).drop_last() =~= active_tys(stack.drop_last()));
                assert(before.push((source@, target@, intersection_state)).drop_last() =~= before);
            }
        }
        result
    }

    fn relate_in_scope(
        &mut self,
        source: &LuaType,
        target: &LuaType,
        intersection_state: IntersectionState,
    ) -> (r: RelationResult)
        ensures
            final(self).did(
                *old(self),
                rel_inside(
                    old(self).scope(),
                    old(self).state(),
                    source@,
                    target@,
                    intersection_state,
                ),
                r,
            ),
        decreases old(self).scope().db.room, 12nat, old(self).room_left(), 100nat, 0nat,
    {
        if let Some(unfolded_source) = unfold_type(self.db, source) {
            if let LuaType::Ref(_) = source {
                if unfolded_source.same(target) {
                    return Ok(());
                }
            }
            return self.relate(&unfolded_source, target, intersection_state);
        }
        if let Some(unfolded_target) = unfold_type(self.db, target) {
            if source.same(&unfolded_target) {
                return Ok(());
            }
            return self.relate(source, &unfolded_target, intersection_state);
        }
        if let LuaType::ModuleRef(_) = target {
            return Ok(());
        }
        if matches!(
            source,
            LuaType::Union(_) | LuaType::MultiLineUnion(_) | LuaType::Intersection(_)
        ) || matches!(
            target,
            LuaType::Union(_) | LuaType::MultiLineUnion(_) | LuaType::Intersection(_)
        ) {
            if let Some(result) = relate_union(self, source, target, intersection_state) {
                return result;
            }
            if let Some(result) = relate_intersection(self, source, target, intersection_state) {
                return result;
            }
        }
        self.relate_plain(source, target, intersection_state)
    }

    fn relate_plain(
        &mut self,
        source: &LuaType,
        target: &LuaType,
        intersection_state: IntersectionState,
    ) -> (r: RelationResult)
        ensures
            final(self).did(
                *old(self),
                rel_plain(
                    old(self).scope(),
                    old(self).state(),
                    source@,
                    target@,
                    intersection_state,
                ),
                r,
            ),
        decreases old(self).scope().db.room, 12nat, old(self).room_left(), 99nat, 0nat,
    {
        if matches!(source, LuaType::TplRef(_)) || matches!(target, LuaType::TplRef(_)) {
            return Err(RelationFailure::Indeterminate(OverflowKind::Recursion));
        }
        if let LuaType::Never = source {
            return if let LuaType::Never = target {
                Ok(())
            } else {
                self.fail_types(source, target)
            };
        }
        if let LuaType::Never = target {
            return self.fail_types(source, target);
        }
        match dispatch_structured(self, source, target, intersection_state) {
            Some(result) => result,
            None => self.fail_types(source, target),
        }
    }

    #[verifier::loop_isolation(false)]
    fn is_active_relation(
        &self,
        source: &LuaType,
        target: &LuaType,
        intersection_state: IntersectionState,
    ) -> (r: bool)
        ensures
            r == is_under_way(
                active_tys(self.active_relations@),
                source@,
                target@,
                intersection_state,
            ),
    {
        proof {
            reveal(is_under_way);
        }
        let ghost all = active_tys(self.active_relations@);
        let mut i: usize = self.active_relations.len();
        while i > 0
            invariant
                i <= self.active_relations@.len(),
                all == active_tys(self.active_relations@),
                forall|j: int|
                    i <= j < all.len() ==> !((#[trigger] all[j]).2 == intersection_state
                        && recurring_eq(all[j].0, source@) && recurring_eq(all[j].1, target@)),
            decreases i,
        {
            i -= 1;
            let (active_source, active_target, state) = &self.active_relations[i];
            assert(all[i as int] == (active_source@, active_target@, *state));
            if *state == intersection_state && relation_type_eq(active_source, source)
                && relation_type_eq(active_target, target) {
                return true;
            }
        }
        false
    }

    /// Compares two types without a reason.
    pub fn probe_relation(
        &mut self,
        source: &LuaType,
        target: &LuaType,
        intersection_state: IntersectionState,
    ) -> (r: RelationResult)
        ensures
            final(self).did(
                *old(self),
                rel_types(
                    quiet(old(self).scope()),
                    old(self).state(),
                    source@,
                    target@,
                    intersection_state,
                ),
                r,
            ),
        decreases old(self).scope().db.room, 12nat, old(self).room_left(), 51nat, 0nat,
    {
        let evidence = self.evidence;
        self.evidence = EvidenceMode::Silent;
        let result = self.relate(source, target, intersection_state);
        self.evidence = evidence;
        result
    }

    pub fn error_chain_snapshot(&self) -> (r: Option<ErrorChain>)
        ensures
            error_chain::opt_chain(r) == self.state().chain,
    {
        match &self.error_chain {
            Some(chain) => Some(chain.clone()),
            None => None,
        }
    }

    pub fn restore_error_chain(&mut self, snapshot: Option<ErrorChain>)
        ensures
            final(self).moved(
                *old(self),
                (RelState { chain: error_chain::opt_chain(snapshot), ..old(self).state() }),
            ),
    {
        self.error_chain = snapshot;
    }
}

/// The outcome of many comparisons none of which failed.
pub fn settle(first: Option<OverflowKind>) -> (r: RelationResult)
    ensures
        r == (match first {
            Some(kind) => Err::<(), RelationFailure>(RelationFailure::Indeterminate(kind)),
            None => Ok(()),
        }),
{
    match first {
        Some(kind) => Err(RelationFailure::Indeterminate(kind)),
        None => Ok(()),
    }
}

fn relation_type_eq(source: &LuaType, target: &LuaType) -> (r: bool)
    ensures
        r == recurring_eq(source@, target@),
{
    if let LuaType::FloatConst(left) = source {
        if let LuaType::FloatConst(right) = target {
            return left.bits == right.bits;
        }
        return false;
    }
    source.same(target)
}

fn unfold_type(db: &DbIndex, t: &LuaType) -> (r: Option<LuaType>)
    ensures
        types::opt_ty(r) == unfolded(db@, t@),
    decreases db@.room, 4nat,
{
    match normalize_type(db, t) {
        Some(n) => if n.same(t) {
            None
        } else {
            Some(n)
        },
        None => None,
    }
}

fn is_any_fast_eq(source: &LuaType, types: &Vec<LuaType>) -> (r: bool)
    ensures
        r == any_fast_eq(source@, types::tys(types@)),
{
    let ghost all = types::tys(types@);
    let mut i: usize = 0;
    while i < types.len()
        invariant
            i <= types@.len(),
            all == types::tys(types@),
            forall|j: int| 0 <= j < i ==> !simple::fast_eq(source@, #[trigger] all[j]),
        decreases types@.len() - i,
    {
        assert(all[i as int] == types@[i as int]@);
        if fast_eq_check(source, &types[i]) {
            return true;
        }
        i += 1;
    }
    false
}

fn is_union_value(source: &LuaType, union: &LuaType) -> (r: bool)
    ensures
        r == (match union@ {
            Ty::MultiLineUnion(lines) => any_fast_eq(source@, complex::line_types(lines)),
            Ty::Union(u) => match *u {
                UnionTy::Basic(_) => false,
                UnionTy::Nullable(t) => simple::fast_eq(source@, t),
                UnionTy::Multi(types) => any_fast_eq(source@, types),
            },
            _ => false,
        }),
{
    match union {
        LuaType::MultiLineUnion(lines) => {
            let types = lines.iter();
            is_any_fast_eq(source, &types)
        },
        LuaType::Union(u) => match &**u {
            LuaUnionType::Basic(kinds) => {
                assert(u@ == UnionTy::Basic(kinds@));
                false
            },
            LuaUnionType::Nullable(candidate) => {
                assert(u@ == UnionTy::Nullable(candidate@));
                fast_eq_check(source, candidate)
            },
            LuaUnionType::Multi(candidates) => {
                assert(u@ == UnionTy::Multi(candidates@));
                assert(candidates@ == types::tys(candidates.types@));
                is_any_fast_eq(source, &candidates.types)
            },
        },
        _ => false,
    }
}

/// Whether a literal is one of the types of a union, or of the union that an alias stands for.
fn accept_const_enum_member(db: &DbIndex, source: &LuaType, target: &LuaType) -> (r: bool)
    ensures
        r == is_listed_value(db@, source@, target@),
{
    proof {
        reveal(is_listed_value);
    }
    match target {
        LuaType::Union(_) | LuaType::MultiLineUnion(_) => is_union_value(source, target),
        LuaType::Ref(id) => match db.get_type_decl(id) {
            Some(decl) => match decl.get_alias_ref() {
                Some(origin) => is_union_value(source, origin),
                None => false,
            },
            None => false,
        },
        _ => false,
    }
}

/// Whether a type may lead back to itself.
fn is_scoped_type(typ: &LuaType) -> (r: bool)
    ensures
        r == may_recur(typ@),
{
    match typ {
        LuaType::Ref(_) => true,
        LuaType::Def(_) => true,
        LuaType::Generic(_) => true,
        LuaType::Signature(_) => true,
        LuaType::Instance(_) => true,
        LuaType::Call(_) => true,
        LuaType::Conditional(_) => true,
        LuaType::Mapped(_) => true,
        LuaType::MultiLineUnion(_) => true,
        LuaType::TypeGuard(_) => true,
        LuaType::ModuleRef(_) => true,
        LuaType::TplRef(tpl) => tpl.get_constraint().is_some(),
        _ => false,
    }
}

} // verus!
