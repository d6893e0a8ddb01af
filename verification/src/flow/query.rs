//! Questions, their answers and the record of them.

use vstd::prelude::*;

use crate::tables;
use crate::tables::{SlotKey, SlotTable, find_slot, get_variable_kind, insert_slot, new_slots};
use crate::types::{LuaType, Ty};

verus! {

/// A place in the flow of control.
#[derive(Debug, Clone, Copy, PartialEq, Eq, Structural)]
pub struct FlowId {
    pub id: u32,
}

/// A node of the syntax tree.
#[derive(Debug, Clone, Copy, PartialEq, Eq, Structural)]
pub struct SyntaxId {
    pub id: u32,
}

/// A variable or a field that is asked for.
#[derive(Debug, Clone, Copy, PartialEq, Eq, Structural)]
pub struct VarRefId {
    pub id: u32,
    pub position: u32,
    pub is_index_ref: bool,
    pub is_global: bool,
}

/// What is asked for at a place.
#[derive(Debug, Clone, Copy, PartialEq, Eq, Structural)]
pub enum FlowMode {
    /// The type at the place.
    Normal,
    /// What the place contributes where branches meet.
    MergeBranch,
    /// The type before conditions narrow it.
    IgnoreConditions,
}

pub open spec fn merge_mode(mode: FlowMode) -> FlowMode {
    if mode == FlowMode::IgnoreConditions {
        FlowMode::IgnoreConditions
    } else {
        FlowMode::MergeBranch
    }
}

pub open spec fn point_mode(mode: FlowMode) -> FlowMode {
    if mode == FlowMode::MergeBranch {
        FlowMode::MergeBranch
    } else {
        FlowMode::Normal
    }
}

impl FlowMode {
    /// The mode in which a branch is asked for what it contributes.
    pub fn for_merge_contribution(self) -> (r: Self)
        ensures
            r == merge_mode(self),
    {
        match self {
            FlowMode::Normal | FlowMode::MergeBranch => FlowMode::MergeBranch,
            FlowMode::IgnoreConditions => FlowMode::IgnoreConditions,
        }
    }

    /// The mode in which another place is asked on the way.
    pub fn for_point_dependency(self) -> (r: Self)
        ensures
            r == point_mode(self),
    {
        match self {
            FlowMode::MergeBranch => FlowMode::MergeBranch,
            FlowMode::Normal | FlowMode::IgnoreConditions => FlowMode::Normal,
        }
    }
}

/// A question about a branch stays one, and asking again in the same way changes nothing.
pub proof fn flow_modes_settle(mode: FlowMode)
    ensures
        merge_mode(merge_mode(mode)) == merge_mode(mode),
        point_mode(point_mode(mode)) == point_mode(mode),
        point_mode(merge_mode(mode)) == FlowMode::Normal <==> mode == FlowMode::IgnoreConditions,
        merge_mode(point_mode(mode)) == FlowMode::MergeBranch,
{
}

/// What a question is answered with. A branch that cannot be taken is not a value of type `never`.
#[derive(Debug)]
pub enum FlowQueryResult {
    Type(LuaType),
    Unreachable,
}

pub enum ResultTy {
    Type(Ty),
    Unreachable,
}

impl View for FlowQueryResult {
    type V = ResultTy;

    open spec fn view(&self) -> ResultTy {
        match self {
            FlowQueryResult::Type(t) => ResultTy::Type(t@),
            FlowQueryResult::Unreachable => ResultTy::Unreachable,
        }
    }
}

pub open spec fn type_of_result(r: ResultTy) -> Ty {
    match r {
        ResultTy::Type(t) => t,
        ResultTy::Unreachable => Ty::Never,
    }
}

impl FlowQueryResult {
    pub fn into_type(self) -> (r: LuaType)
        ensures
            r@ == type_of_result(self@),
    {
        match self {
            FlowQueryResult::Type(t) => t,
            FlowQueryResult::Unreachable => LuaType::Never,
        }
    }

    pub fn duplicate(&self) -> (r: Self)
        ensures
            r@ == self@,
    {
        match self {
            FlowQueryResult::Type(t) => FlowQueryResult::Type(t.clone()),
            FlowQueryResult::Unreachable => FlowQueryResult::Unreachable,
        }
    }
}

/// One question: one variable at one place in one mode.
#[derive(Debug, Clone, Copy, PartialEq, Eq, Structural)]
pub struct FlowQuery {
    pub var_ref_id: VarRefId,
    pub flow_id: FlowId,
    pub mode: FlowMode,
}

impl FlowQuery {
    pub fn new(var_ref_id: VarRefId, flow_id: FlowId) -> (r: Self)
        ensures
            r == (FlowQuery { var_ref_id, flow_id, mode: FlowMode::Normal }),
    {
        FlowQuery { var_ref_id, flow_id, mode: FlowMode::Normal }
    }

    /// The same variable at another place.
    pub fn at_flow(&self, flow_id: FlowId, mode: FlowMode) -> (r: Self)
        ensures
            r == (FlowQuery { var_ref_id: self.var_ref_id, flow_id, mode }),
    {
        FlowQuery { var_ref_id: self.var_ref_id, flow_id, mode }
    }
}

// ----------------------------------------------------------------------------
// What is known of questions.

#[derive(Debug)]
pub enum CacheEntry<T> {
    /// The question is being answered.
    Ready,
    Cache(T),
}

pub enum EntryStateTy {
    Ready,
    Cache(ResultTy),
}

pub open spec fn opt_entry(e: Option<CacheEntry<FlowQueryResult>>) -> Option<EntryStateTy> {
    match e {
        Some(CacheEntry::Ready) => Some(EntryStateTy::Ready),
        Some(CacheEntry::Cache(r)) => Some(EntryStateTy::Cache(r@)),
        None => None,
    }
}

/// What is known of questions: a table from questions to slots, and what the slots hold. A slot
/// belongs to the question that is written in it.
#[derive(Debug)]
pub struct TypeCache {
    slots: SlotTable,
    entries: Vec<(FlowQuery, Option<CacheEntry<FlowQueryResult>>)>,
}

/// What is asked for, as a number.
pub open spec fn mode_number(mode: FlowMode) -> u8 {
    match mode {
        FlowMode::Normal => 0u8,
        FlowMode::MergeBranch => 1u8,
        FlowMode::IgnoreConditions => 2u8,
    }
}

/// The key under which the slot of a question is found.
pub open spec fn query_key(query: FlowQuery) -> SlotKey {
    (
        query.var_ref_id.id,
        query.var_ref_id.position,
        tables::variable_kind(query.var_ref_id),
        query.flow_id.id,
        mode_number(query.mode),
    )
}

proof fn lemma_query_key_tells_questions_apart(a: FlowQuery, b: FlowQuery)
    ensures
        query_key(a) == query_key(b) ==> a == b,
{
}

fn get_query_key(query: FlowQuery) -> (r: SlotKey)
    ensures
        r == query_key(query),
{
    let mode: u8 = match query.mode {
        FlowMode::Normal => 0,
        FlowMode::MergeBranch => 1,
        FlowMode::IgnoreConditions => 2,
    };
    (
        query.var_ref_id.id,
        query.var_ref_id.position,
        get_variable_kind(query.var_ref_id),
        query.flow_id.id,
        mode,
    )
}

impl TypeCache {
    /// What the slot of a question holds.
    pub closed spec fn slot_entry(&self, query: FlowQuery) -> Option<EntryStateTy> {
        match tables::slot_of(self.slots, query_key(query)) {
            Some(slot) => if slot < self.entries@.len() && self.entries@[slot as int].0 == query {
                opt_entry(self.entries@[slot as int].1)
            } else {
                None
            },
            None => None,
        }
    }
}

impl View for TypeCache {
    type V = Map<FlowQuery, EntryStateTy>;

    open spec fn view(&self) -> Map<FlowQuery, EntryStateTy> {
        Map::new(
            |query: FlowQuery| self.slot_entry(query) is Some,
            |query: FlowQuery| self.slot_entry(query).unwrap(),
        )
    }
}

/// What is known of a question.
pub open spec fn known(cache: Map<FlowQuery, EntryStateTy>, query: FlowQuery) -> Option<
    EntryStateTy,
> {
    if cache.dom().contains(query) {
        Some(cache[query])
    } else {
        None
    }
}

/// What is known once something new is known of a question, or nothing any more.
pub open spec fn recorded(
    cache: Map<FlowQuery, EntryStateTy>,
    query: FlowQuery,
    entry: Option<EntryStateTy>,
) -> Map<FlowQuery, EntryStateTy> {
    match entry {
        Some(entry) => cache.insert(query, entry),
        None => cache.remove(query),
    }
}

/// An answer is found again, and answers to other questions stay.
pub proof fn recorded_answer_is_known(
    cache: Map<FlowQuery, EntryStateTy>,
    query: FlowQuery,
    entry: Option<EntryStateTy>,
    other: FlowQuery,
)
    ensures
        known(recorded(cache, query, entry), query) == entry,
        other != query ==> known(recorded(cache, query, entry), other) == known(cache, other),
{
}

impl TypeCache {
    pub fn new() -> (r: Self)
        ensures
            r@ == Map::<FlowQuery, EntryStateTy>::empty(),
    {
        let r = TypeCache { slots: new_slots(), entries: Vec::new() };
        assert(r@ =~= Map::<FlowQuery, EntryStateTy>::empty());
        r
    }

    pub fn get(&self, query: FlowQuery) -> (r: Option<CacheEntry<FlowQueryResult>>)
        ensures
            opt_entry(r) == known(self@, query),
    {
        match find_slot(&self.slots, get_query_key(query)) {
            Some(slot) => {
                if slot < self.entries.len() && self.entries[slot].0 == query {
                    match &self.entries[slot].1 {
                        Some(CacheEntry::Ready) => Some(CacheEntry::Ready),
                        Some(CacheEntry::Cache(r)) => Some(CacheEntry::Cache(r.duplicate())),
                        None => None,
                    }
                } else {
                    None
                }
            },
            None => None,
        }
    }

    pub fn put(&mut self, query: FlowQuery, entry: Option<CacheEntry<FlowQueryResult>>)
        ensures
            final(self)@ == recorded(old(self)@, query, opt_entry(entry)),
    {
        let ghost before = *self;
        let ghost said = opt_entry(entry);
        let key = get_query_key(query);
        match find_slot(&self.slots, key) {
            Some(slot) if slot < self.entries.len() && self.entries[slot].0 == query => {
                self.entries.set(slot, (query, entry));
            },
            _ => {
                let slot = self.entries.len();
                self.entries.push((query, entry));
                insert_slot(&mut self.slots, key, slot);
            },
        }
        assert forall|other: FlowQuery|
            self.slot_entry(other) == (if other == query {
                said
            } else {
                before.slot_entry(other)
            }) by {
            lemma_query_key_tells_questions_apart(other, query);
        }
        assert(self@ =~= recorded(before@, query, said));
    }
}

} // verus!
