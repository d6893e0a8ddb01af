//! What is known while expressions are typed without the flow of control.

use vstd::prelude::*;

use crate::{tables, types};
use crate::flow::query::{CacheEntry, SyntaxId};
use crate::tables::{SlotKey, SlotTable, SyntaxIdSet, find_slot, insert_slot, new_slots};
use crate::types::{FileId, LuaType, Ty};
use crate::types::complex::clone_opt_type;

verus! {

// ----------------------------------------------------------------------------
// Expressions that are typed without the flow of control.

/// What is known of an expression.
pub enum NoFlowTy {
    Ready,
    Cache(Option<Ty>),
}

pub open spec fn opt_no_flow(e: Option<CacheEntry<Option<LuaType>>>) -> Option<NoFlowTy> {
    match e {
        Some(CacheEntry::Ready) => Some(NoFlowTy::Ready),
        Some(CacheEntry::Cache(t)) => Some(NoFlowTy::Cache(types::opt_ty(t))),
        None => None,
    }
}

/// What is known of expressions: a table from expressions to slots, and what the slots hold. A slot
/// belongs to the expression that is written in it.
#[derive(Debug)]
pub struct NoFlowCache {
    slots: SlotTable,
    entries: Vec<(SyntaxId, CacheEntry<Option<LuaType>>)>,
}

pub open spec fn expr_slot_key(id: SyntaxId) -> SlotKey {
    (id.id, 0u32, 0u8, 0u32, 0u8)
}

impl NoFlowCache {
    /// What the slot of an expression holds.
    pub closed spec fn slot_entry(&self, id: SyntaxId) -> Option<NoFlowTy> {
        match tables::slot_of(self.slots, expr_slot_key(id)) {
            Some(slot) => if slot < self.entries@.len() && self.entries@[slot as int].0 == id {
                opt_no_flow(Some(self.entries@[slot as int].1))
            } else {
                None
            },
            None => None,
        }
    }
}

impl View for NoFlowCache {
    type V = Map<SyntaxId, NoFlowTy>;

    open spec fn view(&self) -> Map<SyntaxId, NoFlowTy> {
        Map::new(
            |id: SyntaxId| self.slot_entry(id) is Some,
            |id: SyntaxId| self.slot_entry(id).unwrap(),
        )
    }
}

impl NoFlowCache {
    pub fn new() -> (r: Self)
        ensures
            r@ == Map::<SyntaxId, NoFlowTy>::empty(),
    {
        let r = NoFlowCache { slots: new_slots(), entries: Vec::new() };
        assert(r@ =~= Map::<SyntaxId, NoFlowTy>::empty());
        r
    }

    pub fn get(&self, id: SyntaxId) -> (r: Option<CacheEntry<Option<LuaType>>>)
        ensures
            opt_no_flow(r) == (if self@.dom().contains(id) {
                Some(self@[id])
            } else {
                None
            }),
    {
        match find_slot(&self.slots, (id.id, 0, 0, 0, 0)) {
            Some(slot) => {
                if slot < self.entries.len() && self.entries[slot].0 == id {
                    Some(
                        match &self.entries[slot].1 {
                            CacheEntry::Ready => CacheEntry::Ready,
                            CacheEntry::Cache(t) => CacheEntry::Cache(clone_opt_type(t)),
                        },
                    )
                } else {
                    None
                }
            },
            None => None,
        }
    }

    pub fn put(&mut self, id: SyntaxId, entry: CacheEntry<Option<LuaType>>)
        ensures
            final(self)@ == old(self)@.insert(id, opt_no_flow(Some(entry)).unwrap()),
    {
        let ghost before = *self;
        let ghost said = opt_no_flow(Some(entry));
        let key = (id.id, 0u32, 0u8, 0u32, 0u8);
        match find_slot(&self.slots, key) {
            Some(slot) if slot < self.entries.len() && self.entries[slot].0 == id => {
                self.entries.set(slot, (id, entry));
            },
            _ => {
                let slot = self.entries.len();
                self.entries.push((id, entry));
                insert_slot(&mut self.slots, key, slot);
            },
        }
        assert forall|other: SyntaxId|
            self.slot_entry(other) == (if other == id {
                said
            } else {
                before.slot_entry(other)
            }) by {
            assert((expr_slot_key(other) == expr_slot_key(id)) == (other == id));
        }
        assert(self@ =~= before@.insert(id, said.unwrap()));
    }
}

// ----------------------------------------------------------------------------
// What is known while the types of a file are worked out.

#[derive(Debug)]
pub struct LuaInferCache {
    file_id: FileId,
    no_flow_mode: bool,
    replay_expr_types: Vec<(SyntaxId, LuaType)>,
    no_flow_table_exprs: SyntaxIdSet,
    pub expr_no_flow_cache: NoFlowCache,
}

pub struct InferCacheTy {
    pub file_id: FileId,
    pub no_flow_mode: bool,
    pub replay_types: Seq<(SyntaxId, Ty)>,
    pub table_exprs: Set<SyntaxId>,
    pub exprs: Map<SyntaxId, NoFlowTy>,
}

pub open spec fn replay_tys(s: Seq<(SyntaxId, LuaType)>) -> Seq<(SyntaxId, Ty)> {
    Seq::new(s.len(), |i: int| (s[i].0, s[i].1@))
}

impl View for LuaInferCache {
    type V = InferCacheTy;

    closed spec fn view(&self) -> InferCacheTy {
        InferCacheTy {
            file_id: self.file_id,
            no_flow_mode: self.no_flow_mode,
            replay_types: replay_tys(self.replay_expr_types@),
            table_exprs: self.no_flow_table_exprs@,
            exprs: self.expr_no_flow_cache@,
        }
    }
}

/// What a replay has to put back when it ends.
#[derive(Debug)]
pub struct ReplayOverlay {
    overlay_len: usize,
    inserted_table_exprs: Vec<SyntaxId>,
    saved_expr_no_flow_cache: NoFlowCache,
}

pub struct OverlayTy {
    pub overlay_len: nat,
    pub inserted: Set<SyntaxId>,
    pub saved: Map<SyntaxId, NoFlowTy>,
}

impl View for ReplayOverlay {
    type V = OverlayTy;

    closed spec fn view(&self) -> OverlayTy {
        OverlayTy {
            overlay_len: self.overlay_len as nat,
            inserted: self.inserted_table_exprs@.to_set(),
            saved: self.saved_expr_no_flow_cache@,
        }
    }
}

pub open spec fn opt_overlay(o: Option<ReplayOverlay>) -> Option<OverlayTy> {
    match o {
        Some(o) => Some(o@),
        None => None,
    }
}

/// A replay begins: its types are laid over those before, its tables are added, and what is known of
/// expressions is put aside. A replay that brings nothing changes nothing.
pub open spec fn overlay_begun(
    cache: InferCacheTy,
    expr_types: Seq<(SyntaxId, Ty)>,
    table_exprs: Set<SyntaxId>,
) -> (InferCacheTy, Option<OverlayTy>) {
    if expr_types.len() == 0 && table_exprs == Set::<SyntaxId>::empty() {
        (cache, None)
    } else {
        (
            InferCacheTy {
                replay_types: cache.replay_types + expr_types,
                table_exprs: cache.table_exprs.union(table_exprs),
                exprs: Map::empty(),
                ..cache
            },
            Some(
                OverlayTy {
                    overlay_len: cache.replay_types.len(),
                    inserted: table_exprs.difference(cache.table_exprs),
                    saved: cache.exprs,
                },
            ),
        )
    }
}

/// A replay ends.
pub open spec fn overlay_ended(cache: InferCacheTy, overlay: Option<OverlayTy>) -> InferCacheTy {
    match overlay {
        Some(o) => InferCacheTy {
            replay_types: if o.overlay_len < cache.replay_types.len() {
                cache.replay_types.take(o.overlay_len as int)
            } else {
                cache.replay_types
            },
            table_exprs: cache.table_exprs.difference(o.inserted),
            exprs: o.saved,
            ..cache
        },
        None => cache,
    }
}

/// The type that a replay gives an expression: that of the innermost one.
pub open spec fn replayed_type(types: Seq<(SyntaxId, Ty)>, id: SyntaxId) -> Option<Ty>
    decreases types.len(),
{
    if types.len() == 0 {
        None
    } else if types.last().0 == id {
        Some(types.last().1)
    } else {
        replayed_type(types.drop_last(), id)
    }
}

impl LuaInferCache {
    pub fn new(file_id: FileId) -> (r: Self)
        ensures
            r@.file_id == file_id,
            !r@.no_flow_mode,
            r@.replay_types == Seq::<(SyntaxId, Ty)>::empty(),
            r@.table_exprs == Set::<SyntaxId>::empty(),
            r@.exprs == Map::<SyntaxId, NoFlowTy>::empty(),
    {
        let r = LuaInferCache {
            file_id,
            no_flow_mode: false,
            replay_expr_types: Vec::new(),
            no_flow_table_exprs: SyntaxIdSet::new(),
            expr_no_flow_cache: NoFlowCache::new(),
        };
        assert(r@.replay_types =~= Seq::<(SyntaxId, Ty)>::empty());
        r
    }

    pub fn get_file_id(&self) -> (r: FileId)
        ensures
            r == self@.file_id,
    {
        self.file_id
    }

    /// An empty cache for another file, in the same mode.
    pub fn fork_for_file(&self, file_id: FileId) -> (r: Self)
        ensures
            r@.file_id == file_id,
            r@.no_flow_mode == self@.no_flow_mode,
            r@.replay_types == Seq::<(SyntaxId, Ty)>::empty(),
            r@.table_exprs == Set::<SyntaxId>::empty(),
            r@.exprs == Map::<SyntaxId, NoFlowTy>::empty(),
    {
        let mut r = LuaInferCache::new(file_id);
        r.no_flow_mode = self.no_flow_mode;
        r
    }

    pub fn is_no_flow(&self) -> (r: bool)
        ensures
            r == self@.no_flow_mode,
    {
        self.no_flow_mode
    }

    /// Sets whether the flow of control is left out, and returns whether it was before.
    pub fn set_no_flow(&mut self, no_flow: bool) -> (r: bool)
        ensures
            r == old(self)@.no_flow_mode,
            final(self)@ == (InferCacheTy { no_flow_mode: no_flow, ..old(self)@ }),
    {
        let previous_mode = self.no_flow_mode;
        self.no_flow_mode = no_flow;
        previous_mode
    }

    pub fn is_no_flow_table_expr(&self, id: SyntaxId) -> (r: bool)
        ensures
            r == self@.table_exprs.contains(id),
    {
        self.no_flow_table_exprs.contains(id)
    }

    /// The type that the innermost replay gives an expression.
    pub fn replay_expr_type(&self, id: SyntaxId) -> (r: Option<&LuaType>)
        ensures
            (match r {
                Some(t) => Some(t@),
                None => None,
            }) == replayed_type(self@.replay_types, id),
    {
        let ghost all = self@.replay_types;
        let mut i: usize = self.replay_expr_types.len();
        assert(all.take(i as int) =~= all);
        while i > 0
            invariant
                i <= self.replay_expr_types@.len(),
                all == replay_tys(self.replay_expr_types@),
                replayed_type(all, id) == replayed_type(all.take(i as int), id),
            decreases i,
        {
            i -= 1;
            proof {
                assert(all.take(i + 1).last() == all[i as int]);
                assert(all.take(i + 1).drop_last() =~= all.take(i as int));
            }
            if self.replay_expr_types[i].0 == id {
                return Some(&self.replay_expr_types[i].1);
            }
        }
        None
    }

    /// Begins a replay. What is returned ends it again.
    pub fn begin_replay_overlay(
        &mut self,
        expr_types: &Vec<(SyntaxId, LuaType)>,
        table_exprs: &Vec<SyntaxId>,
    ) -> (r: Option<ReplayOverlay>)
        ensures
            (final(self)@, opt_overlay(r)) == overlay_begun(
                old(self)@,
                replay_tys(expr_types@),
                table_exprs@.to_set(),
            ),
    {
        let ghost before = self@;
        let ghost tables = table_exprs@.to_set();
        if expr_types.len() == 0 && table_exprs.len() == 0 {
            assert(tables =~= Set::<SyntaxId>::empty());
            return None;
        }
        proof {
            if table_exprs@.len() > 0 {
                assert(tables.contains(table_exprs@[0]));
            }
        }
        let overlay_len = self.replay_expr_types.len();
        let mut i: usize = 0;
        while i < expr_types.len()
            invariant
                i <= expr_types@.len(),
                replay_tys(self.replay_expr_types@) == before.replay_types + replay_tys(
                    expr_types@,
                ).take(i as int),
                self.no_flow_table_exprs@ == before.table_exprs,
                self.expr_no_flow_cache@ == before.exprs,
                self.file_id == before.file_id,
                self.no_flow_mode == before.no_flow_mode,
            decreases expr_types@.len() - i,
        {
            let ghost pushed = self.replay_expr_types@;
            self.replay_expr_types.push((expr_types[i].0, expr_types[i].1.clone()));
            assert(replay_tys(self.replay_expr_types@) =~= replay_tys(pushed).push(
                replay_tys(expr_types@)[i as int],
            ));
            assert(replay_tys(expr_types@).take(i + 1) =~= replay_tys(expr_types@).take(
                i as int,
            ).push(replay_tys(expr_types@)[i as int]));
            i += 1;
        }
        assert(replay_tys(expr_types@).take(i as int) =~= replay_tys(expr_types@));
        let mut inserted: Vec<SyntaxId> = Vec::new();
        let mut j: usize = 0;
        assert(before.table_exprs.union(table_exprs@.take(0).to_set()) =~= before.table_exprs);
        assert(inserted@.to_set() =~= table_exprs@.take(0).to_set().difference(before.table_exprs));
        while j < table_exprs.len()
            invariant
                j <= table_exprs@.len(),
                replay_tys(self.replay_expr_types@) == before.replay_types + replay_tys(
                    expr_types@,
                ),
                self.no_flow_table_exprs@ == before.table_exprs.union(
                    table_exprs@.take(j as int).to_set(),
                ),
                inserted@.to_set() == table_exprs@.take(j as int).to_set().difference(
                    before.table_exprs,
                ),
                self.expr_no_flow_cache@ == before.exprs,
                self.file_id == before.file_id,
                self.no_flow_mode == before.no_flow_mode,
            decreases table_exprs@.len() - j,
        {
            let id = table_exprs[j];
            let ghost so_far = table_exprs@.take(j as int).to_set();
            let ghost listed = inserted@;
            proof {
                lemma_set_of_longer_list(table_exprs@, j as int);
            }
            if self.no_flow_table_exprs.insert(id) {
                inserted.push(id);
                proof {
                    lemma_set_of_pushed(listed, id);
                }
            }
            assert(self.no_flow_table_exprs@ =~= before.table_exprs.union(so_far.insert(id)));
            assert(inserted@.to_set() =~= so_far.insert(id).difference(before.table_exprs));
            j += 1;
        }
        assert(table_exprs@.take(j as int) =~= table_exprs@);
        let mut saved = NoFlowCache::new();
        std::mem::swap(&mut self.expr_no_flow_cache, &mut saved);
        let overlay = ReplayOverlay {
            overlay_len,
            inserted_table_exprs: inserted,
            saved_expr_no_flow_cache: saved,
        };
        Some(overlay)
    }

    /// Ends a replay: everything is as it was when it began.
    pub fn end_replay_overlay(&mut self, overlay: Option<ReplayOverlay>)
        ensures
            final(self)@ == overlay_ended(old(self)@, opt_overlay(overlay)),
    {
        let ghost before = self@;
        let overlay = match overlay {
            Some(overlay) => overlay,
            None => {
                return ;
            },
        };
        self.expr_no_flow_cache = overlay.saved_expr_no_flow_cache;
        let ghost all = overlay.inserted_table_exprs@;
        let mut j: usize = 0;
        assert(before.table_exprs.difference(all.take(0).to_set()) =~= before.table_exprs);
        while j < overlay.inserted_table_exprs.len()
            invariant
                j <= all.len(),
                all == overlay.inserted_table_exprs@,
                self.no_flow_table_exprs@ == before.table_exprs.difference(
                    all.take(j as int).to_set(),
                ),
                self.expr_no_flow_cache@ == overlay.saved_expr_no_flow_cache@,
                replay_tys(self.replay_expr_types@) == before.replay_types,
                self.file_id == before.file_id,
                self.no_flow_mode == before.no_flow_mode,
            decreases all.len() - j,
        {
            proof {
                lemma_set_of_longer_list(all, j as int);
            }
            self.no_flow_table_exprs.remove(overlay.inserted_table_exprs[j]);
            assert(self.no_flow_table_exprs@ =~= before.table_exprs.difference(
                all.take(j as int).to_set().insert(all[j as int]),
            ));
            j += 1;
        }
        assert(all.take(j as int) =~= all);
        let ghost types = self.replay_expr_types@;
        if overlay.overlay_len < self.replay_expr_types.len() {
            self.replay_expr_types.truncate(overlay.overlay_len);
            assert(replay_tys(self.replay_expr_types@) =~= replay_tys(types).take(
                overlay.overlay_len as int,
            ));
        }
    }
}

proof fn lemma_set_of_pushed(list: Seq<SyntaxId>, id: SyntaxId)
    ensures
        list.push(id).to_set() == list.to_set().insert(id),
{
    let longer = list.push(id);
    assert forall|x: SyntaxId| longer.to_set().contains(x) == list.to_set().insert(id).contains(x) by {
        if list.contains(x) {
            let i = choose|i: int| 0 <= i < list.len() && list[i] == x;
            assert(longer[i] == x);
        }
        assert(longer[list.len() as int] == id);
        if longer.contains(x) && x != id {
            let i = choose|i: int| 0 <= i < longer.len() && longer[i] == x;
            assert(list[i] == x);
        }
    }
    assert(longer.to_set() =~= list.to_set().insert(id));
}

proof fn lemma_set_of_longer_list(list: Seq<SyntaxId>, n: int)
    requires
        0 <= n < list.len(),
    ensures
        list.take(n + 1).to_set() == list.take(n).to_set().insert(list[n]),
{
    assert(list.take(n + 1) =~= list.take(n).push(list[n]));
    lemma_set_of_pushed(list.take(n), list[n]);
}

/// A replay leaves no trace: whatever was found out of expressions meanwhile, all is as before once it
/// has ended.
pub proof fn replay_leaves_no_trace(
    cache: InferCacheTy,
    expr_types: Seq<(SyntaxId, Ty)>,
    table_exprs: Set<SyntaxId>,
    found: Map<SyntaxId, NoFlowTy>,
)
    requires
        expr_types.len() > 0 || table_exprs != Set::<SyntaxId>::empty(),
    ensures
        ({
            let (during, overlay) = overlay_begun(cache, expr_types, table_exprs);
            overlay_ended(InferCacheTy { exprs: found, ..during }, overlay) == cache
        }),
{
    let (during, overlay) = overlay_begun(cache, expr_types, table_exprs);
    let after = overlay_ended(InferCacheTy { exprs: found, ..during }, overlay);
    assert(after.replay_types =~= cache.replay_types);
    assert(after.table_exprs =~= cache.table_exprs);
}

/// What is known of an expression outside a replay is not seen inside it.
pub proof fn replay_starts_afresh(
    cache: InferCacheTy,
    expr_types: Seq<(SyntaxId, Ty)>,
    table_exprs: Set<SyntaxId>,
    id: SyntaxId,
)
    requires
        expr_types.len() > 0 || table_exprs != Set::<SyntaxId>::empty(),
    ensures
        !overlay_begun(cache, expr_types, table_exprs).0.exprs.dom().contains(id),
{
}

/// The innermost replay decides the type of an expression; one that does not speak of it leaves the
/// type that it had.
pub proof fn innermost_replay_decides(
    outer: Seq<(SyntaxId, Ty)>,
    inner: Seq<(SyntaxId, Ty)>,
    id: SyntaxId,
)
    ensures
        replayed_type(outer + inner, id) == (match replayed_type(inner, id) {
            Some(t) => Some(t),
            None => replayed_type(outer, id),
        }),
    decreases inner.len(),
{
    if inner.len() == 0 {
        assert(outer + inner =~= outer);
    } else {
        assert((outer + inner).last() == inner.last());
        assert((outer + inner).drop_last() =~= outer + inner.drop_last());
        innermost_replay_decides(outer, inner.drop_last(), id);
    }
}

} // verus!
