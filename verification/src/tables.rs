//! Sets and tables of numbers.

use vstd::prelude::*;

use crate::flow::query::{FlowId, SyntaxId, VarRefId};

verus! {

// ----------------------------------------------------------------------------
// Sets of numbers.

/// A set of numbers, in a `hashbrown::HashSet`.
#[derive(Debug)]
#[verifier::external_body]
pub struct IdSet {
    ids: hashbrown::HashSet<u32>,
}

/// The numbers in a set.
pub uninterp spec fn ids_in(set: IdSet) -> Set<u32>;

/// `hashbrown::HashSet::new`: a set that holds nothing.
#[verifier::external_body]
fn new_ids() -> (r: IdSet)
    ensures
        ids_in(r) == Set::<u32>::empty(),
{
    IdSet { ids: hashbrown::HashSet::new() }
}

/// `hashbrown::HashSet::contains`: whether a number is in the set.
#[verifier::external_body]
fn contains_id(set: &IdSet, id: u32) -> (r: bool)
    ensures
        r == ids_in(*set).contains(id),
{
    set.ids.contains(&id)
}

/// `hashbrown::HashSet::insert`: adds a number, and tells whether it was new. Nothing else in the set
/// changes.
#[verifier::external_body]
fn insert_id(set: &mut IdSet, id: u32) -> (r: bool)
    ensures
        ids_in(*final(set)) == ids_in(*old(set)).insert(id),
        r == !ids_in(*old(set)).contains(id),
{
    set.ids.insert(id)
}

/// `hashbrown::HashSet::remove`: takes a number out, and tells whether it was there. Nothing else in
/// the set changes.
#[verifier::external_body]
fn remove_id(set: &mut IdSet, id: u32) -> (r: bool)
    ensures
        ids_in(*final(set)) == ids_in(*old(set)).remove(id),
        r == ids_in(*old(set)).contains(id),
{
    set.ids.remove(&id)
}

/// A set of places.
#[derive(Debug)]
pub struct FlowIdSet {
    ids: IdSet,
}

impl View for FlowIdSet {
    type V = Set<FlowId>;

    closed spec fn view(&self) -> Set<FlowId> {
        Set::new(|id: FlowId| ids_in(self.ids).contains(id.id))
    }
}

impl FlowIdSet {
    pub fn new() -> (r: Self)
        ensures
            r@ == Set::<FlowId>::empty(),
    {
        let r = FlowIdSet { ids: new_ids() };
        assert(r@ =~= Set::<FlowId>::empty());
        r
    }

    pub fn contains(&self, id: FlowId) -> (r: bool)
        ensures
            r == self@.contains(id),
    {
        contains_id(&self.ids, id.id)
    }

    /// Adds an element, and tells whether it was new.
    pub fn insert(&mut self, id: FlowId) -> (r: bool)
        ensures
            final(self)@ == old(self)@.insert(id),
            r == !old(self)@.contains(id),
    {
        let ghost before = self@;
        let r = insert_id(&mut self.ids, id.id);
        assert forall|other: FlowId| self@.contains(other) == before.insert(id).contains(other) by {
            assert((other == id) == (other.id == id.id));
        }
        assert(self@ =~= before.insert(id));
        r
    }
}

/// A set of nodes of the syntax tree.
#[derive(Debug)]
pub struct SyntaxIdSet {
    ids: IdSet,
}

impl View for SyntaxIdSet {
    type V = Set<SyntaxId>;

    closed spec fn view(&self) -> Set<SyntaxId> {
        Set::new(|id: SyntaxId| ids_in(self.ids).contains(id.id))
    }
}

impl SyntaxIdSet {
    pub fn new() -> (r: Self)
        ensures
            r@ == Set::<SyntaxId>::empty(),
    {
        let r = SyntaxIdSet { ids: new_ids() };
        assert(r@ =~= Set::<SyntaxId>::empty());
        r
    }

    pub fn contains(&self, id: SyntaxId) -> (r: bool)
        ensures
            r == self@.contains(id),
    {
        contains_id(&self.ids, id.id)
    }

    /// Adds an element, and tells whether it was new.
    pub fn insert(&mut self, id: SyntaxId) -> (r: bool)
        ensures
            final(self)@ == old(self)@.insert(id),
            r == !old(self)@.contains(id),
    {
        let ghost before = self@;
        let r = insert_id(&mut self.ids, id.id);
        assert forall|other: SyntaxId| self@.contains(other) == before.insert(id).contains(other) by {
            assert((other == id) == (other.id == id.id));
        }
        assert(self@ =~= before.insert(id));
        r
    }

    /// Takes an element out, and tells whether it was there.
    pub fn remove(&mut self, id: SyntaxId) -> (r: bool)
        ensures
            final(self)@ == old(self)@.remove(id),
            r == old(self)@.contains(id),
    {
        let ghost before = self@;
        let r = remove_id(&mut self.ids, id.id);
        assert forall|other: SyntaxId| self@.contains(other) == before.remove(id).contains(other) by {
            assert((other == id) == (other.id == id.id));
        }
        assert(self@ =~= before.remove(id));
        r
    }
}

// ----------------------------------------------------------------------------
// A table from keys to the slots of their entries.

/// The variable of a key and its position, what kind of variable it is, the place, and what is asked
/// there.
pub type SlotKey = (u32, u32, u8, u32, u8);

/// A table from keys to slots, in a `hashbrown::HashMap`.
#[derive(Debug)]
#[verifier::external_body]
pub struct SlotTable {
    slots: hashbrown::HashMap<SlotKey, usize>,
}

/// The slots in a table.
pub uninterp spec fn slots_in(table: SlotTable) -> Map<(u32, u32, u8, u32, u8), usize>;

/// The slot of a key.
pub open spec fn slot_of(table: SlotTable, key: SlotKey) -> Option<usize> {
    if slots_in(table).dom().contains(key) {
        Some(slots_in(table)[key])
    } else {
        None
    }
}

/// `hashbrown::HashMap::new`: a table that holds nothing.
#[verifier::external_body]
pub(crate) fn new_slots() -> (r: SlotTable)
    ensures
        slots_in(r).dom() == Set::<SlotKey>::empty(),
{
    SlotTable { slots: hashbrown::HashMap::new() }
}

/// `hashbrown::HashMap::get`: the slot of a key, where it has one.
#[verifier::external_body]
pub(crate) fn find_slot(table: &SlotTable, key: SlotKey) -> (r: Option<usize>)
    ensures
        r == slot_of(*table, key),
{
    table.slots.get(&key).copied()
}

/// `hashbrown::HashMap::insert`: gives a key a slot in the place of the one it had, which is returned.
/// No other key is touched.
#[verifier::external_body]
pub(crate) fn insert_slot(table: &mut SlotTable, key: SlotKey, slot: usize) -> (r: Option<usize>)
    ensures
        slots_in(*final(table)) == slots_in(*old(table)).insert(key, slot),
        r == slot_of(*old(table), key),
{
    table.slots.insert(key, slot)
}

/// What kind of variable is asked for, as a number.
pub open spec fn variable_kind(id: VarRefId) -> u8 {
    if id.is_index_ref {
        if id.is_global {
            3u8
        } else {
            2u8
        }
    } else if id.is_global {
        1u8
    } else {
        0u8
    }
}

pub fn get_variable_kind(id: VarRefId) -> (r: u8)
    ensures
        r == variable_kind(id),
{
    if id.is_index_ref {
        if id.is_global {
            3
        } else {
            2
        }
    } else if id.is_global {
        1
    } else {
        0
    }
}

} // verus!
