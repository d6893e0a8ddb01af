//! The members and index entries that a comparison looks at.

use std::sync::Arc;
use vstd::prelude::*;

use crate::{db, types};
use crate::db::{DbIndex, DbTy, ItemTy, LuaMemberIndexItem, LuaMemberOwner, OwnerTy, item_index};
use crate::member::collect;
use crate::member::collect::{SymbolTy, TypeMembers, collect_members, member_index};
use crate::types::{
    InFiled, KeyTy, LuaArrayType, LuaMemberKey, LuaObjectType, LuaTupleType, LuaType, Ty,
    VariadicTy, VariadicType, complex,
};

verus! {

// ----------------------------------------------------------------------------
// Keys and members.

/// The type of the key that finds a member.
pub open spec fn key_type(key: KeyTy) -> Option<Ty> {
    match key {
        KeyTy::NoKey => None,
        KeyTy::Integer(i) => Some(Ty::IntegerConst(i)),
        KeyTy::Name(name) => Some(Ty::StringConst(name)),
        KeyTy::TypeKey(t) => Some(*t),
    }
}

impl LuaMemberKey {
    pub fn to_index_type(&self) -> (r: Option<LuaType>)
        ensures
            types::opt_ty(r) == key_type(self@),
    {
        match self {
            LuaMemberKey::NoKey => None,
            LuaMemberKey::Integer(i) => Some(LuaType::IntegerConst(*i)),
            LuaMemberKey::Name(name) => Some(LuaType::StringConst(name.clone())),
            LuaMemberKey::TypeKey(t) => Some(t.clone()),
        }
    }
}

/// The index entries of an object as members.
pub open spec fn entries_as_members(entries: Seq<(Ty, Ty)>) -> Seq<(KeyTy, Ty)> {
    Seq::new(entries.len(), |i: int| (KeyTy::TypeKey(Box::new(entries[i].0)), entries[i].1))
}

/// The declared members of an owner with their types; any type where none is known.
pub open spec fn items_as_members(items: Seq<ItemTy>) -> Seq<(KeyTy, Ty)> {
    Seq::new(
        items.len(),
        |i: int|
            (
                items[i].key,
                match db::item_type(items[i]) {
                    Some(t) => t,
                    None => Ty::Any,
                },
            ),
    )
}

pub open spec fn symbols_as_members(db: DbTy, members: Seq<(KeyTy, SymbolTy)>) -> Seq<(KeyTy, Ty)> {
    Seq::new(members.len(), |i: int| (members[i].0, collect::symbol_type(db, members[i].1)))
}

/// The members that a type demands of what is put in its place.
#[verifier::opaque]
pub open spec fn member_entries(db: DbTy, t: Ty) -> Seq<(KeyTy, Ty)> {
    match t {
        Ty::Object(o) => o.fields + entries_as_members(o.index_access),
        Ty::TableConst(range) => items_as_members(db::items_of(db, OwnerTy::Element(range))),
        Ty::Ref(_) | Ty::Def(_) | Ty::Generic(_) => symbols_as_members(db, collect::members_of_type(db, t)),
        _ => Seq::empty(),
    }
}

fn object_entries(o: &LuaObjectType) -> (r: Vec<(LuaMemberKey, LuaType)>)
    ensures
        types::field_tys(r@) == o@.fields + entries_as_members(o@.index_access),
{
    let mut r: Vec<(LuaMemberKey, LuaType)> = Vec::new();
    let mut i: usize = 0;
    while i < o.fields.len()
        invariant
            i <= o.fields@.len(),
            r@.len() == i,
            forall|j: int| 0 <= j < i ==> (#[trigger] r@[j]) == o.fields@[j],
        decreases o.fields@.len() - i,
    {
        r.push((o.fields[i].0.clone(), o.fields[i].1.clone()));
        i += 1;
    }
    let ghost n = o.fields@.len();
    let mut k: usize = 0;
    while k < o.index_access.len()
        invariant
            k <= o.index_access@.len(),
            n == o.fields@.len(),
            r@.len() == n + k,
            forall|j: int| 0 <= j < n ==> (#[trigger] r@[j]) == o.fields@[j],
            forall|j: int|
                n <= j < n + k ==> (#[trigger] r@[j]).0 == LuaMemberKey::TypeKey(
                    o.index_access@[j - n].0,
                ) && r@[j].1 == o.index_access@[j - n].1,
        decreases o.index_access@.len() - k,
    {
        r.push(
            (
                LuaMemberKey::TypeKey(o.index_access[k].0.clone()),
                o.index_access[k].1.clone(),
            ),
        );
        k += 1;
    }
    proof {
        let wanted = o@.fields + entries_as_members(o@.index_access);
        assert forall|j: int| 0 <= j < wanted.len() implies #[trigger] types::field_tys(r@)[j]
            == wanted[j] by {
            if j >= n {
                assert(r@[j].0 == LuaMemberKey::TypeKey(o.index_access@[j - n].0));
                assert(r@[j].0@ == KeyTy::TypeKey(Box::new(o.index_access@[j - n].0@)));
            } else {
                assert(r@[j] == o.fields@[j]);
            }
        }
        assert(types::field_tys(r@) =~= wanted);
    }
    r
}

fn item_entries(items: &Vec<LuaMemberIndexItem>) -> (r: Vec<(LuaMemberKey, LuaType)>)
    ensures
        types::field_tys(r@) == items_as_members(db::item_tys(items@)),
{
    let mut r: Vec<(LuaMemberKey, LuaType)> = Vec::new();
    let mut i: usize = 0;
    while i < items.len()
        invariant
            i <= items@.len(),
            r@.len() == i,
            forall|j: int|
                0 <= j < i ==> ((#[trigger] r@[j]).0@, r@[j].1@) == items_as_members(
                    db::item_tys(items@),
                )[j],
        decreases items@.len() - i,
    {
        let t = match items[i].resolve_type() {
            Some(t) => t,
            None => LuaType::Any,
        };
        r.push((items[i].key.clone(), t));
        i += 1;
    }
    assert(types::field_tys(r@) =~= items_as_members(db::item_tys(items@)));
    r
}

pub fn symbol_entries(db: &DbIndex, members: &TypeMembers) -> (r: Vec<(LuaMemberKey, LuaType)>)
    ensures
        types::field_tys(r@) == symbols_as_members(db@, collect::member_tys(members@)),
    decreases db@.room, 4nat,
{
    let mut r: Vec<(LuaMemberKey, LuaType)> = Vec::new();
    let mut i: usize = 0;
    while i < members.len()
        invariant
            i <= members@.len(),
            r@.len() == i,
            forall|j: int|
                0 <= j < i ==> ((#[trigger] r@[j]).0@, r@[j].1@) == symbols_as_members(
                    db@,
                    collect::member_tys(members@),
                )[j],
        decreases members@.len() - i,
    {
        r.push((members[i].0.clone(), members[i].1.typ(db)));
        i += 1;
    }
    assert(types::field_tys(r@) =~= symbols_as_members(db@, collect::member_tys(members@)));
    r
}

pub fn list_member_entries(db: &DbIndex, t: &LuaType) -> (r: Vec<(LuaMemberKey, LuaType)>)
    ensures
        types::field_tys(r@) == member_entries(db@, t@),
    decreases db@.room, 10nat,
{
    proof {
        reveal(member_entries);
    }
    match t {
        LuaType::Object(o) => object_entries(o),
        LuaType::TableConst(range) => match db.get_owner_members(
            &LuaMemberOwner::Element(*range),
        ) {
            Some(members) => item_entries(&members.items),
            None => {
                let r: Vec<(LuaMemberKey, LuaType)> = Vec::new();
                assert(types::field_tys(r@) =~= member_entries(db@, t@));
                r
            },
        },
        LuaType::Ref(_) | LuaType::Def(_) | LuaType::Generic(_) => {
            let members = collect_members(db, t);
            symbol_entries(db, &members)
        },
        _ => {
            let r: Vec<(LuaMemberKey, LuaType)> = Vec::new();
            assert(types::field_tys(r@) =~= Seq::<(KeyTy, Ty)>::empty());
            r
        },
    }
}

/// The member of a type under a key, as far as no comparison of types is needed to find it.
#[verifier::opaque]
pub open spec fn direct_member(db: DbTy, t: Ty, key: KeyTy) -> Option<Ty> {
    match t {
        Ty::Object(o) => complex::object_member(*o, key),
        Ty::TableConst(range) => match db::find_item(db::items_of(db, OwnerTy::Element(range)), key) {
            Some(item) => Some(
                match db::item_type(item) {
                    Some(t) => t,
                    None => Ty::Any,
                },
            ),
            None => None,
        },
        Ty::Ref(_)
        | Ty::Def(_)
        | Ty::Generic(_)
        | Ty::Union(_)
        | Ty::MultiLineUnion(_)
        | Ty::Intersection(_) => match collect::find_member(collect::members_of_type(db, t), key) {
            Some(symbol) => Some(collect::symbol_type(db, symbol)),
            None => None,
        },
        Ty::Tuple(x) => match key {
            KeyTy::Integer(i) => if i > 0 {
                complex::tuple_at(x.types, machine_index(i) as nat)
            } else {
                None
            },
            _ => None,
        },
        Ty::Array(a) => match key {
            KeyTy::Integer(i) => if i > 0 {
                Some(a.base)
            } else {
                None
            },
            KeyTy::TypeKey(k) => if ty_is_integer(*k) {
                Some(a.base)
            } else {
                None
            },
            _ => None,
        },
        _ => None,
    }
}

pub open spec fn ty_is_integer(t: Ty) -> bool {
    t is IntegerConst || t is Integer || t is DocIntegerConst
}

/// The place, counted from zero, that a positive index stands for.
pub open spec fn machine_index(i: i64) -> usize {
    (i - 1) as usize
}

pub fn find_direct_member(db: &DbIndex, t: &LuaType, key: &LuaMemberKey) -> (r: Option<LuaType>)
    ensures
        types::opt_ty(r) == direct_member(db@, t@, key@),
    decreases db@.room, 11nat,
{
    proof {
        reveal(direct_member);
    }
    match t {
        LuaType::Object(o) => o.get_member_type(key),
        LuaType::TableConst(range) => owner_member(db, *range, key),
        LuaType::Ref(_)
        | LuaType::Def(_)
        | LuaType::Generic(_)
        | LuaType::Union(_)
        | LuaType::MultiLineUnion(_)
        | LuaType::Intersection(_) => collected_member(db, t, key),
        LuaType::Tuple(tuple) => match key {
            LuaMemberKey::Integer(i) => {
                let i: i64 = *i;
                if i > 0 {
                    match tuple.get_type((i - 1) as usize) {
                        Some(t) => Some(t.clone()),
                        None => None,
                    }
                } else {
                    None
                }
            },
            _ => None,
        },
        LuaType::Array(array) => array_member(array, key),
        _ => None,
    }
}

fn array_member(array: &LuaArrayType, key: &LuaMemberKey) -> (r: Option<LuaType>)
    ensures
        types::opt_ty(r) == (match key@ {
            KeyTy::Integer(i) => if i > 0 {
                Some(array@.base)
            } else {
                None
            },
            KeyTy::TypeKey(k) => if ty_is_integer(*k) {
                Some(array@.base)
            } else {
                None
            },
            _ => None,
        }),
{
    let found = match key {
        LuaMemberKey::Integer(i) => *i > 0,
        LuaMemberKey::TypeKey(k) => k.is_integer(),
        _ => false,
    };
    if found {
        Some(array.base.clone())
    } else {
        None
    }
}

fn owner_member(db: &DbIndex, range: InFiled, key: &LuaMemberKey) -> (r: Option<LuaType>)
    ensures
        types::opt_ty(r) == direct_member(db@, Ty::TableConst(range), key@),
{
    proof {
        reveal(direct_member);
    }
    match db.get_owner_members(&LuaMemberOwner::Element(range)) {
        Some(members) => {
            let i = item_index(&members.items, key);
            if i < members.items.len() {
                match members.items[i].resolve_type() {
                    Some(t) => Some(t),
                    None => Some(LuaType::Any),
                }
            } else {
                None
            }
        },
        None => None,
    }
}

fn collected_member(db: &DbIndex, t: &LuaType, key: &LuaMemberKey) -> (r: Option<LuaType>)
    ensures
        types::opt_ty(r) == (match collect::find_member(collect::members_of_type(db@, t@), key@) {
            Some(symbol) => Some(collect::symbol_type(db@, symbol)),
            None => None,
        }),
    decreases db@.room, 10nat,
{
    let members = collect_members(db, t);
    let i = member_index(&members, key);
    if i < members.len() {
        Some(members[i].1.typ(db))
    } else {
        None
    }
}

// ----------------------------------------------------------------------------
// The entries that an index may find.

/// Where an entry comes from.
#[derive(Debug)]
pub enum EntryOrigin {
    Generic,
    Tuple(usize),
    Field(LuaMemberKey),
    Index,
}

pub enum EntryOriginTy {
    Generic,
    Tuple(usize),
    Field(KeyTy),
    Index,
}

/// A key type with the type of the values under it.
#[derive(Debug)]
pub struct IndexEntry {
    pub key: LuaType,
    pub value: LuaType,
    pub origin: EntryOrigin,
}

pub struct EntryTy {
    pub key: Ty,
    pub value: Ty,
    pub origin: EntryOriginTy,
}

impl View for IndexEntry {
    type V = EntryTy;

    open spec fn view(&self) -> EntryTy {
        EntryTy {
            key: self.key@,
            value: self.value@,
            origin: match self.origin {
                EntryOrigin::Generic => EntryOriginTy::Generic,
                EntryOrigin::Tuple(index) => EntryOriginTy::Tuple(index),
                EntryOrigin::Field(key) => EntryOriginTy::Field(key@),
                EntryOrigin::Index => EntryOriginTy::Index,
            },
        }
    }
}

pub open spec fn index_entry_tys(s: Seq<IndexEntry>) -> Seq<EntryTy> {
    Seq::new(s.len(), |i: int| s[i]@)
}

/// The number of the place `i`, counted from one, as a machine holds it.
pub open spec fn place_number(i: usize) -> i64 {
    if i < usize::MAX {
        ((i + 1) as usize) as i64
    } else {
        0
    }
}

pub fn number_of_place(i: usize) -> (r: i64)
    ensures
        r == place_number(i),
{
    if i < usize::MAX {
        (i + 1) as i64
    } else {
        0
    }
}

/// The entries of a run of values, after those in `done`, and whether it has no end.
pub open spec fn run_entries(done: Seq<EntryTy>, v: VariadicTy) -> (Seq<EntryTy>, bool)
    decreases v,
{
    match v {
        VariadicTy::Base(base) => (
            done.push(
                EntryTy {
                    key: Ty::Integer,
                    value: base,
                    origin: EntryOriginTy::Tuple(done.len() as usize),
                },
            ),
            true,
        ),
        VariadicTy::Multi(types) => element_entries(done, types),
    }
}

/// The entries of the elements of a tuple, after those in `done`, and whether they have no end.
pub open spec fn element_entries(done: Seq<EntryTy>, types: Seq<Ty>) -> (Seq<EntryTy>, bool)
    decreases types,
{
    if types.len() == 0 {
        (done, false)
    } else {
        let front = element_entries(done, types.drop_last());
        if front.1 {
            front
        } else {
            match types.last() {
                Ty::Variadic(inner) => run_entries(front.0, *inner),
                t => (
                    front.0.push(
                        EntryTy {
                            key: Ty::IntegerConst(place_number(front.0.len() as usize)),
                            value: t,
                            origin: EntryOriginTy::Tuple(front.0.len() as usize),
                        },
                    ),
                    false,
                ),
            }
        }
    }
}

pub fn visit_variadic_index_entries(entries: &mut Vec<IndexEntry>, v: &VariadicType) -> (r: bool)
    ensures
        (index_entry_tys(final(entries)@), r) == run_entries(index_entry_tys(old(entries)@), v@),
    decreases v,
{
    match v {
        VariadicType::Base(base) => {
            assert(v@ == VariadicTy::Base(base@));
            let ghost before = index_entry_tys(entries@);
            let index = entries.len();
            let entry = IndexEntry {
                key: LuaType::Integer,
                value: base.clone(),
                origin: EntryOrigin::Tuple(index),
            };
            let ghost added = entry@;
            entries.push(entry);
            assert(index_entry_tys(entries@) =~= before.push(added));
            true
        },
        VariadicType::Multi(types) => {
            assert(v@ == VariadicTy::Multi(types::tys(types@)));
            visit_tuple_index_entries(entries, types)
        },
    }
}

/// Adds the entries of the elements of a tuple under their own numbers; a run of values without an
/// end stands under any number.
#[verifier::loop_isolation(false)]
pub fn visit_tuple_index_entries(entries: &mut Vec<IndexEntry>, types: &Vec<LuaType>) -> (r: bool)
    ensures
        (index_entry_tys(final(entries)@), r) == element_entries(
            index_entry_tys(old(entries)@),
            types::tys(types@),
        ),
    decreases types,
{
    let ghost start = index_entry_tys(entries@);
    let ghost all = types::tys(types@);
    let mut endless = false;
    let mut i: usize = 0;
    assert(all.take(0) =~= Seq::<Ty>::empty());
    while i < types.len()
        invariant
            i <= types@.len(),
            (index_entry_tys(entries@), endless) == element_entries(start, all.take(i as int)),
        decreases types@.len() - i,
    {
        proof {
            assert(all.take(i + 1).drop_last() =~= all.take(i as int));
            assert(all.take(i + 1).last() == all[i as int]);
            assert(all[i as int] == types@[i as int]@);
        }
        if !endless {
            let ghost before = index_entry_tys(entries@);
            if let LuaType::Variadic(inner) = &types[i] {
                endless = visit_variadic_index_entries(entries, inner);
            } else {
                let index = entries.len();
                let entry = IndexEntry {
                    key: LuaType::IntegerConst(number_of_place(index)),
                    value: types[i].clone(),
                    origin: EntryOrigin::Tuple(index),
                };
                let ghost added = entry@;
                entries.push(entry);
                assert(index_entry_tys(entries@) =~= before.push(added));
            }
        }
        i += 1;
    }
    assert(all.take(i as int) =~= all);
    endless
}

/// The entries that members give, each under the type of its key.
pub open spec fn keyed_entries(members: Seq<(KeyTy, Ty)>) -> Seq<EntryTy>
    decreases members.len(),
{
    if members.len() == 0 {
        Seq::empty()
    } else {
        let front = keyed_entries(members.drop_last());
        match key_type(members.last().0) {
            Some(key) => front.push(
                EntryTy {
                    key,
                    value: members.last().1,
                    origin: EntryOriginTy::Field(members.last().0),
                },
            ),
            None => front,
        }
    }
}

pub open spec fn pair_entries(pairs: Seq<(Ty, Ty)>) -> Seq<EntryTy> {
    Seq::new(
        pairs.len(),
        |i: int|
            EntryTy { key: pairs[i].0, value: pairs[i].1, origin: EntryOriginTy::Index },
    )
}

/// What an index into a value of the type may find.
#[verifier::opaque]
pub open spec fn index_entries(db: DbTy, t: Ty) -> Seq<EntryTy> {
    match t {
        Ty::Array(a) => seq![
            EntryTy { key: Ty::Integer, value: a.base, origin: EntryOriginTy::Generic },
        ],
        Ty::Tuple(x) => element_entries(Seq::empty(), x.types).0,
        Ty::TableGeneric(params) => if params.len() == 2 {
            seq![EntryTy { key: params[0], value: params[1], origin: EntryOriginTy::Generic }]
        } else {
            Seq::empty()
        },
        Ty::Object(o) => keyed_entries(o.fields) + pair_entries(o.index_access),
        _ => keyed_entries(member_entries(db, t)),
    }
}

fn list_keyed_entries(members: &Vec<(LuaMemberKey, LuaType)>) -> (r: Vec<IndexEntry>)
    ensures
        index_entry_tys(r@) == keyed_entries(types::field_tys(members@)),
{
    let ghost all = types::field_tys(members@);
    let mut r: Vec<IndexEntry> = Vec::new();
    let mut i: usize = 0;
    proof {
        assert(all.take(0) =~= Seq::<(KeyTy, Ty)>::empty());
        assert(index_entry_tys(r@) =~= Seq::<EntryTy>::empty());
    }
    while i < members.len()
        invariant
            i <= members@.len(),
            all == types::field_tys(members@),
            index_entry_tys(r@) == keyed_entries(all.take(i as int)),
        decreases members@.len() - i,
    {
        proof {
            assert(all.take(i + 1).drop_last() =~= all.take(i as int));
            assert(all.take(i + 1).last() == all[i as int]);
        }
        let ghost before = index_entry_tys(r@);
        if let Some(key) = members[i].0.to_index_type() {
            let entry = IndexEntry {
                key,
                value: members[i].1.clone(),
                origin: EntryOrigin::Field(members[i].0.clone()),
            };
            let ghost added = entry@;
            r.push(entry);
            assert(index_entry_tys(r@) =~= before.push(added));
        }
        i += 1;
    }
    assert(all.take(i as int) =~= all);
    r
}

/// Lists what an index into a value of the type may find.
pub fn visit_index_entries(db: &DbIndex, t: &LuaType) -> (r: Vec<IndexEntry>)
    ensures
        index_entry_tys(r@) == index_entries(db@, t@),
    decreases db@.room, 11nat,
{
    proof {
        reveal(index_entries);
    }
    match t {
        LuaType::Array(a) => {
            assert(t@ == Ty::Array(Box::new(a@)) && a@.base == a.base@);
            let key = LuaType::Integer;
            assert(key@ == Ty::Integer);
            generic_entry(&key, &a.base)
        },
        LuaType::Tuple(x) => {
            tuple_entries(x)
        },
        LuaType::TableGeneric(params) => if params.len() == 2 {
            assert(types::tys(params@)[0] == params@[0]@ && types::tys(params@)[1] == params@[1]@);
            generic_entry(&params[0], &params[1])
        } else {
            assert(types::tys(params@).len() == params@.len());
            no_entries()
        },
        LuaType::Object(o) => {
            list_object_index_entries(o)
        },
        _ => {
            let members = list_member_entries(db, t);
            list_keyed_entries(&members)
        },
    }
}

fn no_entries() -> (r: Vec<IndexEntry>)
    ensures
        index_entry_tys(r@) == Seq::<EntryTy>::empty(),
{
    let r: Vec<IndexEntry> = Vec::new();
    assert(index_entry_tys(r@) =~= Seq::<EntryTy>::empty());
    r
}

fn tuple_entries(x: &LuaTupleType) -> (r: Vec<IndexEntry>)
    ensures
        index_entry_tys(r@) == element_entries(Seq::empty(), x@.types).0,
{
    let mut r = no_entries();
    visit_tuple_index_entries(&mut r, &x.types);
    r
}

fn generic_entry(key: &LuaType, value: &LuaType) -> (r: Vec<IndexEntry>)
    ensures
        index_entry_tys(r@) == seq![
            EntryTy { key: key@, value: value@, origin: EntryOriginTy::Generic },
        ],
{
    let mut r: Vec<IndexEntry> = Vec::new();
    r.push(IndexEntry { key: key.clone(), value: value.clone(), origin: EntryOrigin::Generic });
    assert(index_entry_tys(r@) =~= seq![
        EntryTy { key: key@, value: value@, origin: EntryOriginTy::Generic },
    ]);
    r
}

fn list_object_index_entries(o: &LuaObjectType) -> (r: Vec<IndexEntry>)
    ensures
        index_entry_tys(r@) == keyed_entries(o@.fields) + pair_entries(o@.index_access),
{
    let mut r = list_keyed_entries(&o.fields);
    let ghost start = index_entry_tys(r@);
    let ghost pairs = o@.index_access;
    let mut i: usize = 0;
    assert(start + pair_entries(pairs).take(0) =~= start);
    while i < o.index_access.len()
        invariant
            i <= o.index_access@.len(),
            pairs == types::pair_tys(o.index_access@),
            index_entry_tys(r@) == start + pair_entries(pairs).take(i as int),
        decreases o.index_access@.len() - i,
    {
        let ghost before = index_entry_tys(r@);
        let entry = IndexEntry {
            key: o.index_access[i].0.clone(),
            value: o.index_access[i].1.clone(),
            origin: EntryOrigin::Index,
        };
        let ghost added = entry@;
        r.push(entry);
        proof {
            assert(index_entry_tys(r@) =~= before.push(added));
            assert(added == pair_entries(pairs)[i as int]);
            assert(index_entry_tys(r@) =~= start + pair_entries(pairs).take(i + 1));
        }
        i += 1;
    }
    assert(pair_entries(pairs).take(i as int) =~= pair_entries(pairs));
    r
}

} // verus!
