//! Tests whether a type extends another one, and the types found by them.

use vstd::prelude::*;

use crate::{db, tables, types};
use crate::db::{DbIndex, DbTy, TypeOps};
use crate::tables::{SlotKey, SlotTable, find_slot, insert_slot, new_slots};
use crate::type_check::{assignable, callable_types};
use crate::type_check::assignable::{is_assignable, is_surely_assignable};
use crate::types::{
    BasicTypeKind, GenericTplId, LuaType, LuaUnionType, Ty, UnionTy, complex, equality, traverse,
};
use crate::types::complex::clone_opt_type;

verus! {

/// Whether a place lets its types grow or shrink with the type around it.
#[derive(Debug, Clone, Copy, PartialEq, Eq, Structural)]
pub enum InferVariance {
    Covariant,
    Contravariant,
}

pub open spec fn flipped(v: InferVariance) -> InferVariance {
    match v {
        InferVariance::Covariant => InferVariance::Contravariant,
        InferVariance::Contravariant => InferVariance::Covariant,
    }
}

/// Flipping twice changes nothing.
pub proof fn flip_is_an_involution(v: InferVariance)
    ensures
        flipped(flipped(v)) == v,
        flipped(v) != v,
{
}

impl InferVariance {
    pub fn flip(self) -> (r: Self)
        ensures
            r == flipped(self),
    {
        match self {
            InferVariance::Covariant => InferVariance::Contravariant,
            InferVariance::Contravariant => InferVariance::Covariant,
        }
    }
}

/// What a test whether a type extends another one says.
#[derive(Debug, Clone, Copy, PartialEq, Eq, Structural)]
pub enum ConditionalCheck {
    True,
    False,
    Both,
}

pub open spec fn merged_check(left: ConditionalCheck, right: ConditionalCheck) -> ConditionalCheck {
    if left == right {
        left
    } else {
        ConditionalCheck::Both
    }
}

/// The order in which answers are joined does not matter, and both branches stay both.
pub proof fn merged_checks_commute(a: ConditionalCheck, b: ConditionalCheck, c: ConditionalCheck)
    ensures
        merged_check(a, b) == merged_check(b, a),
        merged_check(a, merged_check(b, c)) == merged_check(merged_check(a, b), c),
        merged_check(ConditionalCheck::Both, a) == ConditionalCheck::Both,
        merged_check(a, a) == a,
{
}

pub fn merge_conditional_check(left: ConditionalCheck, right: ConditionalCheck) -> (r:
    ConditionalCheck)
    ensures
        r == merged_check(left, right),
{
    match left {
        ConditionalCheck::True => match right {
            ConditionalCheck::True => ConditionalCheck::True,
            _ => ConditionalCheck::Both,
        },
        ConditionalCheck::False => match right {
            ConditionalCheck::False => ConditionalCheck::False,
            _ => ConditionalCheck::Both,
        },
        ConditionalCheck::Both => ConditionalCheck::Both,
    }
}

/// The template that a condition tests on its own.
pub open spec fn naked_template(t: Ty) -> Option<GenericTplId> {
    match t {
        Ty::TplRef(tpl) => if tpl.tpl_id is Type {
            Some(tpl.tpl_id)
        } else {
            None
        },
        _ => None,
    }
}

pub fn naked_checked_type_tpl_id(checked_type: &LuaType) -> (r: Option<GenericTplId>)
    ensures
        r == naked_template(checked_type@),
{
    match checked_type {
        LuaType::TplRef(tpl) => {
            let id = tpl.get_tpl_id();
            if id.is_type() {
                Some(id)
            } else {
                None
            }
        },
        _ => None,
    }
}

/// The types over which a condition is distributed.
pub open spec fn branches_of(t: Ty) -> Option<Seq<Ty>> {
    match t {
        Ty::Union(u) => Some(complex::union_tys(*u)),
        Ty::MultiLineUnion(lines) => Some(complex::line_types(lines)),
        _ => None,
    }
}

pub fn union_members(ty: &LuaType) -> (r: Option<Vec<LuaType>>)
    ensures
        callable_types::opt_tys_of(r) == branches_of(ty@),
{
    match ty {
        LuaType::Union(union) => Some(union.into_vec()),
        LuaType::MultiLineUnion(multi) => Some(multi.iter()),
        _ => None,
    }
}

pub open spec fn is_infer_template(t: Ty) -> bool {
    match t {
        Ty::TplRef(tpl) => tpl.tpl_id is ConditionalInfer,
        _ => false,
    }
}

/// Some type inside is a template that a pattern binds.
pub open spec fn has_infer(t: Ty) -> bool {
    any_infer(traverse::preorder(t))
}

pub open spec fn any_infer(types: Seq<Ty>) -> bool {
    exists|i: int| 0 <= i < types.len() && is_infer_template(#[trigger] types[i])
}

pub fn conditional_infer_tpl_id(ty: &LuaType) -> (r: bool)
    ensures
        r == is_infer_template(ty@),
{
    match ty {
        LuaType::TplRef(tpl) => tpl.get_tpl_id().is_conditional_infer(),
        _ => false,
    }
}

pub fn contains_conditional_infer(ty: &LuaType) -> (r: bool)
    ensures
        r == has_infer(ty@),
{
    let types = ty.visit_type();
    let ghost all = traverse::preorder(ty@);
    let mut i: usize = 0;
    while i < types.len()
        invariant
            i <= types@.len(),
            all == traverse::preorder(ty@),
            traverse::ref_tys(types@) == all,
            forall|j: int| 0 <= j < i ==> !is_infer_template(#[trigger] all[j]),
        decreases types@.len() - i,
    {
        assert(all[i as int] == types@[i as int]@);
        if conditional_infer_tpl_id(types[i]) {
            assert(any_infer(all));
            return true;
        }
        i += 1;
    }
    false
}

// ----------------------------------------------------------------------------
// Whether a type extends another one.

/// The types of a union, those of unions inside it in their place.
pub open spec fn flat_union(t: Ty) -> Seq<Ty>
    decreases t, 0nat,
{
    match t {
        Ty::Union(u) => match *u {
            UnionTy::Basic(_) => complex::union_tys(*u),
            UnionTy::Nullable(x) => flat_union(x).push(Ty::Nil),
            UnionTy::Multi(types) => flat_unions(types),
        },
        _ => seq![t],
    }
}

pub open spec fn flat_unions(types: Seq<Ty>) -> Seq<Ty>
    decreases types, 0nat,
{
    if types.len() == 0 {
        Seq::empty()
    } else {
        flat_unions(types.drop_last()) + flat_union(types.last())
    }
}

/// The test for a type that is no union.
pub open spec fn checked_one(db: DbTy, source: Ty, target: Ty) -> ConditionalCheck {
    if source is Any {
        ConditionalCheck::Both
    } else if target is Any || target is Unknown {
        ConditionalCheck::True
    } else if source is Unknown {
        ConditionalCheck::False
    } else if source is Never {
        ConditionalCheck::True
    } else if target is Union {
        if fits_some(db, source, flat_union(target)) {
            ConditionalCheck::True
        } else {
            ConditionalCheck::False
        }
    } else if assignable::surely_fits(db, source, target) {
        ConditionalCheck::True
    } else {
        ConditionalCheck::False
    }
}

pub open spec fn fits_some(db: DbTy, source: Ty, targets: Seq<Ty>) -> bool {
    exists|i: int| 0 <= i < targets.len() && fits_part(db, source, #[trigger] targets[i])
}

pub open spec fn fits_part(db: DbTy, source: Ty, target: Ty) -> bool {
    target is Any || target is Unknown || assignable::surely_fits(db, source, target)
}

/// The test whether a type extends another one. Of a union, one type that passes makes both answers
/// possible.
pub open spec fn extends_check(db: DbTy, source: Ty, target: Ty) -> ConditionalCheck {
    if source is Union && !(target is Any) && !(target is Unknown) {
        if some_passes(db, flat_union(source), target) {
            ConditionalCheck::Both
        } else {
            ConditionalCheck::False
        }
    } else {
        checked_one(db, source, target)
    }
}

pub open spec fn some_passes(db: DbTy, sources: Seq<Ty>, target: Ty) -> bool {
    exists|i: int|
        0 <= i < sources.len() && checked_one(db, #[trigger] sources[i], target)
            != ConditionalCheck::False
}

fn push_flat_union(types: &mut Vec<LuaType>, t: &LuaType)
    ensures
        types::tys(final(types)@) == types::tys(old(types)@) + flat_union(t@),
    decreases t,
{
    let ghost before = types::tys(types@);
    if let LuaType::Union(u) = t {
        assert(t@ == Ty::Union(Box::new(u@)));
        match &**u {
            LuaUnionType::Basic(kinds) => {
                assert(u@ == UnionTy::Basic(kinds@));
                let mut all = u.into_vec();
                let ghost more = all@;
                types.append(&mut all);
                assert(types::tys(types@) =~= before + types::tys(more));
            },
            LuaUnionType::Nullable(x) => {
                assert(u@ == UnionTy::Nullable(x@));
                push_flat_union(types, x);
                let ghost middle = types::tys(types@);
                types.push(LuaType::Nil);
                assert(types::tys(types@) =~= middle.push(Ty::Nil));
                assert(types::tys(types@) =~= before + flat_union(t@));
            },
            LuaUnionType::Multi(members) => {
                let ghost all = types::tys(members.types@);
                assert(u@ == UnionTy::Multi(members@));
                assert(members@ == all);
                let mut i: usize = 0;
                assert(all.take(0) =~= Seq::<Ty>::empty());
                assert(types::tys(types@) =~= before + flat_unions(all.take(0)));
                while i < members.types.len()
                    invariant
                        i <= members.types@.len(),
                        all == types::tys(members.types@),
                        decreases_to!(t => members.types@),
                        types::tys(types@) == before + flat_unions(all.take(i as int)),
                    decreases members.types@.len() - i,
                {
                    proof {
                        assert(all.take(i + 1).drop_last() =~= all.take(i as int));
                        assert(all.take(i + 1).last() == all[i as int]);
                        assert(all[i as int] == members.types@[i as int]@);
                    }
                    push_flat_union(types, &members.types[i]);
                    assert(types::tys(types@) =~= before + flat_unions(all.take(i + 1)));
                    i += 1;
                }
                assert(all.take(i as int) =~= all);
            },
        }
    } else {
        types.push(t.clone());
        assert(types::tys(types@) =~= before + seq![t@]);
    }
}

pub fn list_flat_union(t: &LuaType) -> (r: Vec<LuaType>)
    ensures
        types::tys(r@) == flat_union(t@),
{
    let mut r: Vec<LuaType> = Vec::new();
    assert(types::tys(r@) =~= Seq::<Ty>::empty());
    push_flat_union(&mut r, t);
    assert(types::tys(r@) =~= flat_union(t@));
    r
}

fn fits_any_member(db: &DbIndex, source: &LuaType, targets: &Vec<LuaType>) -> (r: bool)
    ensures
        r == fits_some(db@, source@, types::tys(targets@)),
    decreases db@.room, 16nat,
{
    let ghost all = types::tys(targets@);
    let mut i: usize = 0;
    while i < targets.len()
        invariant
            i <= targets@.len(),
            all == types::tys(targets@),
            forall|j: int| 0 <= j < i ==> !fits_part(db@, source@, #[trigger] all[j]),
        decreases targets@.len() - i,
    {
        assert(all[i as int] == targets@[i as int]@);
        let target = &targets[i];
        if target.is_any() || target.is_unknown() || is_surely_assignable(db, source, target) {
            return true;
        }
        i += 1;
    }
    false
}

fn check_one(db: &DbIndex, source: &LuaType, target: &LuaType) -> (r: ConditionalCheck)
    ensures
        r == checked_one(db@, source@, target@),
    decreases db@.room, 17nat,
{
    if source.is_any() {
        return ConditionalCheck::Both;
    }
    if target.is_any() || target.is_unknown() {
        return ConditionalCheck::True;
    }
    if source.is_unknown() {
        return ConditionalCheck::False;
    }
    if source.is_never() {
        return ConditionalCheck::True;
    }
    let fits = if target.is_union() {
        let members = list_flat_union(target);
        fits_any_member(db, source, &members)
    } else {
        is_surely_assignable(db, source, target)
    };
    if fits {
        ConditionalCheck::True
    } else {
        ConditionalCheck::False
    }
}

/// Whether a type extends another one.
pub fn check_conditional_extends(db: &DbIndex, source: &LuaType, target: &LuaType) -> (r:
    ConditionalCheck)
    ensures
        r == extends_check(db@, source@, target@),
    decreases db@.room, 18nat,
{
    if !source.is_union() || target.is_any() || target.is_unknown() {
        return check_one(db, source, target);
    }
    let members = list_flat_union(source);
    let ghost all = types::tys(members@);
    let mut result = ConditionalCheck::False;
    let mut i: usize = 0;
    while i < members.len() && result != ConditionalCheck::Both
        invariant
            i <= members@.len(),
            all == types::tys(members@),
            all == flat_union(source@),
            result == ConditionalCheck::Both || result == ConditionalCheck::False,
            result == ConditionalCheck::Both ==> some_passes(db@, all, target@),
            result == ConditionalCheck::False ==> forall|j: int|
                0 <= j < i ==> checked_one(db@, #[trigger] all[j], target@)
                    == ConditionalCheck::False,
        decreases members@.len() - i,
    {
        assert(all[i as int] == members@[i as int]@);
        let check = check_one(db, &members[i], target);
        result = merge_conditional_check(result, check);
        i += 1;
    }
    result
}

// ----------------------------------------------------------------------------
// Matching a type with a pattern.

/// What a template is bound to where types grow and where they shrink.
pub struct CandidateTy {
    pub covariant: Option<Ty>,
    pub contravariant: Option<Ty>,
}

#[derive(Debug)]
pub struct InferCandidateSet {
    pub covariant: Option<LuaType>,
    pub contravariant: Option<LuaType>,
}

impl View for InferCandidateSet {
    type V = CandidateTy;

    open spec fn view(&self) -> CandidateTy {
        CandidateTy {
            covariant: types::opt_ty(self.covariant),
            contravariant: types::opt_ty(self.contravariant),
        }
    }
}

pub open spec fn candidate_tys(s: Seq<(GenericTplId, InferCandidateSet)>) -> Seq<
    (GenericTplId, CandidateTy),
> {
    Seq::new(s.len(), |i: int| (s[i].0, s[i].1@))
}

/// A set with one more type: their union where types grow, what they have in common where they
/// shrink.
pub open spec fn with_candidate(c: CandidateTy, t: Ty, variance: InferVariance) -> CandidateTy {
    match variance {
        InferVariance::Covariant => CandidateTy {
            covariant: Some(
                match c.covariant {
                    Some(existing) => db::union_ty(existing, t),
                    None => t,
                },
            ),
            ..c
        },
        InferVariance::Contravariant => CandidateTy {
            contravariant: Some(
                match c.contravariant {
                    Some(existing) => db::intersect_ty(existing, t),
                    None => t,
                },
            ),
            ..c
        },
    }
}

/// The bindings with one more candidate for a template.
pub open spec fn bound(
    m: Seq<(GenericTplId, CandidateTy)>,
    id: GenericTplId,
    t: Ty,
    variance: InferVariance,
) -> Seq<(GenericTplId, CandidateTy)>
    decreases m.len(),
{
    if m.len() == 0 {
        seq![(id, with_candidate(CandidateTy { covariant: None, contravariant: None }, t, variance))]
    } else if m[0].0 == id {
        seq![(id, with_candidate(m[0].1, t, variance))] + m.skip(1)
    } else {
        seq![m[0]] + bound(m.skip(1), id, t, variance)
    }
}

/// Where a template stands in a list of bindings.
proof fn lemma_bound(
    m: Seq<(GenericTplId, CandidateTy)>,
    id: GenericTplId,
    t: Ty,
    variance: InferVariance,
    i: int,
)
    requires
        0 <= i <= m.len(),
        forall|j: int| 0 <= j < i ==> (#[trigger] m[j]).0 != id,
        i < m.len() ==> m[i].0 == id,
    ensures
        i < m.len() ==> bound(m, id, t, variance) == m.update(
            i,
            (id, with_candidate(m[i].1, t, variance)),
        ),
        i == m.len() ==> bound(m, id, t, variance) == m.push(
            (
                id,
                with_candidate(
                    CandidateTy { covariant: None, contravariant: None },
                    t,
                    variance,
                ),
            ),
        ),
    decreases m.len(),
{
    if m.len() == 0 {
        assert(bound(m, id, t, variance) =~= m.push(
            (
                id,
                with_candidate(
                    CandidateTy { covariant: None, contravariant: None },
                    t,
                    variance,
                ),
            ),
        ));
    } else if i == 0 {
        assert(bound(m, id, t, variance) =~= m.update(
            0,
            (id, with_candidate(m[0].1, t, variance)),
        ));
    } else {
        let rest = m.skip(1);
        assert forall|j: int| 0 <= j < i - 1 implies (#[trigger] rest[j]).0 != id by {
            assert(rest[j] == m[j + 1]);
        }
        lemma_bound(rest, id, t, variance, i - 1);
        if i < m.len() {
            assert(bound(m, id, t, variance) =~= m.update(
                i,
                (id, with_candidate(m[i].1, t, variance)),
            ));
        } else {
            assert(bound(m, id, t, variance) =~= m.push(
                (
                    id,
                    with_candidate(
                        CandidateTy { covariant: None, contravariant: None },
                        t,
                        variance,
                    ),
                ),
            ));
        }
    }
}

fn add_candidate(c: &InferCandidateSet, t: &LuaType, variance: InferVariance) -> (r:
    InferCandidateSet)
    ensures
        r@ == with_candidate(c@, t@, variance),
{
    match variance {
        InferVariance::Covariant => InferCandidateSet {
            covariant: Some(
                match &c.covariant {
                    Some(existing) => TypeOps::union(existing, t),
                    None => t.clone(),
                },
            ),
            contravariant: clone_opt_type(&c.contravariant),
        },
        InferVariance::Contravariant => InferCandidateSet {
            covariant: clone_opt_type(&c.covariant),
            contravariant: Some(
                match &c.contravariant {
                    Some(existing) => TypeOps::intersect(existing, t),
                    None => t.clone(),
                },
            ),
        },
    }
}

/// The key under which the slot of a template is found.
pub open spec fn template_key(id: GenericTplId) -> SlotKey {
    match id {
        GenericTplId::Type(i) => (i, 0u32, 0u8, 0u32, 0u8),
        GenericTplId::Func(i) => (i, 0u32, 1u8, 0u32, 0u8),
        GenericTplId::ConditionalInfer(i) => (i, 0u32, 2u8, 0u32, 0u8),
    }
}

proof fn lemma_template_key(a: GenericTplId, b: GenericTplId)
    ensures
        template_key(a) == template_key(b) ==> a == b,
{
}

fn get_template_key(id: GenericTplId) -> (r: SlotKey)
    ensures
        r == template_key(id),
{
    match id {
        GenericTplId::Type(i) => (i, 0, 0, 0, 0),
        GenericTplId::Func(i) => (i, 0, 1, 0, 0),
        GenericTplId::ConditionalInfer(i) => (i, 0, 2, 0, 0),
    }
}

/// The candidates for the templates of a pattern, in the order in which the templates were met. A
/// template is found by its slot.
#[derive(Debug)]
pub struct InferAssignments {
    slots: SlotTable,
    entries: Vec<(GenericTplId, InferCandidateSet)>,
}

impl View for InferAssignments {
    type V = Seq<(GenericTplId, CandidateTy)>;

    closed spec fn view(&self) -> Seq<(GenericTplId, CandidateTy)> {
        candidate_tys(self.entries@)
    }
}

impl InferAssignments {
    /// Every template has the slot of its entry, and no other template has one.
    #[verifier::type_invariant]
    spec fn slots_fit(self) -> bool {
        &&& forall|i: int|
            0 <= i < self.entries@.len() ==> tables::slot_of(
                self.slots,
                template_key((#[trigger] self.entries@[i]).0),
            ) == Some(i as usize)
        &&& forall|id: GenericTplId|
            (#[trigger] tables::slot_of(self.slots, template_key(id))) matches Some(slot) ==> slot
                < self.entries@.len() && self.entries@[slot as int].0 == id
    }

    pub fn new() -> (r: Self)
        ensures
            r@ == Seq::<(GenericTplId, CandidateTy)>::empty(),
    {
        let r = InferAssignments { slots: new_slots(), entries: Vec::new() };
        assert(r@ =~= Seq::<(GenericTplId, CandidateTy)>::empty());
        r
    }

    /// The assignments with one more candidate for a template.
    fn with(self, infer_id: GenericTplId, ty: &LuaType, variance: InferVariance) -> (r: Self)
        ensures
            r@ == bound(self@, infer_id, ty@, variance),
    {
        proof {
            use_type_invariant(&self);
        }
        let ghost all = self@;
        let ghost before = self;
        let key = get_template_key(infer_id);
        let InferAssignments { slots, entries } = self;
        let mut slots = slots;
        let mut entries = entries;
        match find_slot(&slots, key) {
            Some(slot) => {
                assert(entries@[slot as int].0 == infer_id);
                let added = add_candidate(&entries[slot].1, ty, variance);
                entries.set(slot, (infer_id, added));
                proof {
                    assert forall|j: int| 0 <= j < slot implies (#[trigger] all[j]).0 != infer_id by {
                        assert(before.entries@[j].0 == all[j].0);
                    }
                    lemma_bound(all, infer_id, ty@, variance, slot as int);
                }
                let r = InferAssignments { slots, entries };
                assert(r@ =~= bound(all, infer_id, ty@, variance));
                r
            },
            None => {
                let none = InferCandidateSet { covariant: None, contravariant: None };
                let added = add_candidate(&none, ty, variance);
                let slot = entries.len();
                entries.push((infer_id, added));
                insert_slot(&mut slots, key, slot);
                proof {
                    assert forall|j: int| 0 <= j < slot implies (#[trigger] all[j]).0 != infer_id by {
                        assert(before.entries@[j].0 == all[j].0);
                    }
                    lemma_bound(all, infer_id, ty@, variance, slot as int);
                    assert forall|id: GenericTplId|
                        (#[trigger] tables::slot_of(slots, template_key(id))) == (if id == infer_id {
                            Some(slot)
                        } else {
                            tables::slot_of(before.slots, template_key(id))
                        }) by {
                        lemma_template_key(id, infer_id);
                    }
                    assert forall|i: int| 0 <= i < entries@.len() implies tables::slot_of(
                        slots,
                        template_key((#[trigger] entries@[i]).0),
                    ) == Some(i as usize) by {
                        if i < slot {
                            assert(entries@[i] == before.entries@[i]);
                            assert(all[i].0 != infer_id);
                        }
                    }
                }
                let r = InferAssignments { slots, entries };
                assert(r@ =~= bound(all, infer_id, ty@, variance));
                r
            },
        }
    }
}

/// Adds a candidate for a template.
pub fn insert_infer_assignment(
    assignments: &mut InferAssignments,
    infer_id: GenericTplId,
    ty: &LuaType,
    variance: InferVariance,
)
    ensures
        final(assignments)@ == bound(old(assignments)@, infer_id, ty@, variance),
{
    let mut taken = InferAssignments::new();
    std::mem::swap(assignments, &mut taken);
    *assignments = taken.with(infer_id, ty, variance);
}

/// What each template is bound to: what it grew to, or what it shrank to where it only shrank.
pub open spec fn finalized(m: Seq<(GenericTplId, CandidateTy)>) -> Seq<(GenericTplId, Ty)>
    decreases m.len(),
{
    if m.len() == 0 {
        Seq::empty()
    } else {
        let front = finalized(m.drop_last());
        let (id, c) = m.last();
        match (c.covariant, c.contravariant) {
            (Some(t), _) => front.push((id, t)),
            (None, Some(t)) => front.push((id, t)),
            (None, None) => front,
        }
    }
}

pub fn finalize_infer_assignments(
    assignments: &InferAssignments,
) -> (r: Vec<(GenericTplId, LuaType)>)
    ensures
        binding_tys(r@) == finalized(assignments@),
{
    let ghost all = assignments@;
    let mut r: Vec<(GenericTplId, LuaType)> = Vec::new();
    let mut i: usize = 0;
    proof {
        assert(all.take(0) =~= Seq::<(GenericTplId, CandidateTy)>::empty());
        assert(binding_tys(r@) =~= finalized(all.take(0)));
    }
    while i < assignments.entries.len()
        invariant
            i <= assignments.entries@.len(),
            all == candidate_tys(assignments.entries@),
            binding_tys(r@) == finalized(all.take(i as int)),
        decreases assignments.entries@.len() - i,
    {
        proof {
            assert(all.take(i + 1).drop_last() =~= all.take(i as int));
            assert(all.take(i + 1).last() == all[i as int]);
        }
        let ghost before = binding_tys(r@);
        let (id, candidates) = &assignments.entries[i];
        assert(all[i as int] == (*id, candidates@));
        if let Some(t) = &candidates.covariant {
            r.push((*id, t.clone()));
            assert(binding_tys(r@) =~= before.push((*id, t@)));
        } else if let Some(t) = &candidates.contravariant {
            r.push((*id, t.clone()));
            assert(binding_tys(r@) =~= before.push((*id, t@)));
        }
        i += 1;
    }
    assert(all.take(i as int) =~= all);
    r
}

pub open spec fn binding_tys(s: Seq<(GenericTplId, LuaType)>) -> Seq<(GenericTplId, Ty)> {
    Seq::new(s.len(), |i: int| (s[i].0, s[i].1@))
}

/// A value of the type may be left out in a call, as far as `room` aliases lead.
pub open spec fn omittable_arg(db: DbTy, t: Ty, room: nat) -> bool
    decreases room, t, 0nat,
{
    match t {
        Ty::Any | Ty::Unknown | Ty::Nil | Ty::Variadic(_) => true,
        Ty::Ref(id) => match db::decl_of(db, id) {
            Some(decl) => match decl.alias_ref {
                Some(origin) => decl.kind is Alias && room > 0 && omittable_arg(
                    db,
                    origin,
                    (room - 1) as nat,
                ),
                None => false,
            },
            None => false,
        },
        Ty::Union(u) => match *u {
            UnionTy::Basic(kinds) => kinds.contains(BasicTypeKind::Any) || kinds.contains(
                BasicTypeKind::Unknown,
            ) || kinds.contains(BasicTypeKind::Nil),
            UnionTy::Nullable(_) => true,
            UnionTy::Multi(types) => any_omittable_arg(db, types, room),
        },
        Ty::MultiLineUnion(lines) => any_omittable_line(db, lines, room),
        _ => false,
    }
}

pub open spec fn any_omittable_arg(db: DbTy, types: Seq<Ty>, room: nat) -> bool
    decreases room, types, 1nat,
{
    exists|i: int| 0 <= i < types.len() && omittable_arg(db, #[trigger] types[i], room)
}

pub open spec fn any_omittable_line(
    db: DbTy,
    lines: Seq<(Ty, Option<Seq<char>>)>,
    room: nat,
) -> bool
    decreases room, lines, 1nat,
{
    exists|i: int| 0 <= i < lines.len() && omittable_arg(db, (#[trigger] lines[i]).0, room)
}

/// Whether a value of the type may be left out in a call. No chain of aliases is longer than the
/// list of declarations.
pub fn is_optional_param_type(db: &DbIndex, ty: &LuaType) -> (r: bool)
    ensures
        r == omittable_arg(db@, ty@, db@.type_decls.len()),
{
    is_optional_arg(db, ty, db.decl_count())
}

fn is_optional_arg(db: &DbIndex, ty: &LuaType, room: usize) -> (r: bool)
    ensures
        r == omittable_arg(db@, ty@, room as nat),
    decreases room, ty, 0nat,
{
    match ty {
        LuaType::Any => true,
        LuaType::Unknown => true,
        LuaType::Nil => true,
        LuaType::Variadic(v) => {
            assert(ty@ == Ty::Variadic(Box::new(v@)));
            true
        },
        LuaType::Ref(id) => match db.get_type_decl(id) {
            Some(decl) => match decl.get_alias_ref() {
                Some(origin) => decl.is_alias() && room > 0 && is_optional_arg(
                    db,
                    origin,
                    room - 1,
                ),
                None => false,
            },
            None => false,
        },
        LuaType::Union(u) => {
            assert(ty@ == Ty::Union(Box::new(u@)));
            match &**u {
                LuaUnionType::Basic(kinds) => {
                    assert(u@ == UnionTy::Basic(kinds@));
                    kinds.contains(BasicTypeKind::Any) || kinds.contains(BasicTypeKind::Unknown)
                        || kinds.contains(BasicTypeKind::Nil)
                },
                LuaUnionType::Nullable(x) => {
                    assert(u@ == UnionTy::Nullable(x@));
                    true
                },
                LuaUnionType::Multi(members) => {
                    assert(u@ == UnionTy::Multi(members@));
                    assert(members@ == types::tys(members.types@));
                    let r = any_arg_optional(db, &members.types, room);
                    assert(r == omittable_arg(db@, ty@, room as nat));
                    r
                },
            }
        },
        LuaType::MultiLineUnion(u) => {
            assert(ty@ == Ty::MultiLineUnion(u@));
            assert(u@ == types::line_tys(u.unions@));
            any_line_arg_optional(db, &u.unions, room)
        },
        _ => false,
    }
}

#[verifier::loop_isolation(false)]
fn any_arg_optional(db: &DbIndex, types: &Vec<LuaType>, room: usize) -> (r: bool)
    ensures
        r == any_omittable_arg(db@, types::tys(types@), room as nat),
    decreases room, types, 1nat,
{
    let ghost all = types::tys(types@);
    let mut i: usize = 0;
    while i < types.len()
        invariant
            i <= types@.len(),
            forall|j: int| 0 <= j < i ==> !omittable_arg(db@, #[trigger] all[j], room as nat),
        decreases types@.len() - i,
    {
        assert(all[i as int] == types@[i as int]@);
        if is_optional_arg(db, &types[i], room) {
            return true;
        }
        i += 1;
    }
    false
}

#[verifier::loop_isolation(false)]
fn any_line_arg_optional(db: &DbIndex, lines: &Vec<(LuaType, Option<String>)>, room: usize) -> (r: bool)
    ensures
        r == any_omittable_line(db@, types::line_tys(lines@), room as nat),
    decreases room, lines, 1nat,
{
    let ghost all = types::line_tys(lines@);
    let mut i: usize = 0;
    while i < lines.len()
        invariant
            i <= lines@.len(),
            forall|j: int| 0 <= j < i ==> !omittable_arg(db@, (#[trigger] all[j]).0, room as nat),
        decreases lines@.len() - i,
    {
        assert(all[i as int].0 == lines@[i as int].0@);
        if is_optional_arg(db, &lines[i].0, room) {
            return true;
        }
        i += 1;
    }
    false
}

/// The type is the pattern, or fits it.
pub open spec fn strictly_matches(db: DbTy, source: Ty, pattern: Ty) -> bool {
    equality::ty_eq(source, pattern) || assignable::fits(db, source, pattern)
}

pub fn strict_type_match(db: &DbIndex, source: &LuaType, pattern: &LuaType) -> (r: bool)
    ensures
        r == strictly_matches(db@, source@, pattern@),
    decreases db@.room, 16nat,
{
    source.same(pattern) || is_assignable(db, source, pattern, None)
}

} // verus!
