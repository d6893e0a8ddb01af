//! The keys that a type stands for.

use vstd::prelude::*;
use vstd::string::*;

use crate::{db, types};
use crate::db::{DbIndex, DbTy, ItemTy, LuaMemberIndexItem, LuaMemberOwner, OwnerTy, item_index};
use crate::generic::special;
use crate::generic::special::list_keyof_members;
use crate::type_check::{assignable, entries, error_chain, normalize, simple};
use crate::type_check::assignable::is_assignable;
use crate::type_check::normalize::key_type_to_member_key;
use crate::types::{
    KeyTy, LuaAliasCallKind, LuaMemberKey, LuaType, LuaTypeDeclId, LuaUnionType, Ty, UnionTy,
    equality, predicates,
};
use crate::types::complex::clone_types;

verus! {

/// The key that a key type stands for.
pub open spec fn key_from_type(t: Ty) -> KeyTy {
    match simple::string_value(t) {
        Some(s) => KeyTy::Name(s),
        None => match simple::integer_value(t) {
            Some(i) => KeyTy::Integer(i),
            None => KeyTy::TypeKey(Box::new(t)),
        },
    }
}

pub fn member_key_from_type(key_type: &LuaType) -> (r: LuaMemberKey)
    ensures
        r@ == key_from_type(key_type@),
{
    match key_type {
        LuaType::StringConst(s) => LuaMemberKey::Name(s.clone()),
        LuaType::DocStringConst(s) => LuaMemberKey::Name(s.clone()),
        LuaType::IntegerConst(i) => LuaMemberKey::Integer(*i),
        LuaType::DocIntegerConst(i) => LuaMemberKey::Integer(*i),
        _ => {
            let r = LuaMemberKey::TypeKey(key_type.clone());
            assert(r@ == KeyTy::TypeKey(Box::new(key_type@)));
            r
        },
    }
}

// ----------------------------------------------------------------------------
// All keys that a type may stand for.

pub open spec fn holds_key(keys: Seq<KeyTy>, key: KeyTy) -> bool {
    exists|i: int| 0 <= i < keys.len() && equality::key_eq(#[trigger] keys[i], key)
}

/// The keys with one more, unless it is there.
pub open spec fn add_key(keys: Seq<KeyTy>, key: KeyTy) -> Seq<KeyTy> {
    if holds_key(keys, key) {
        keys
    } else {
        keys.push(key)
    }
}

pub open spec fn add_keys(keys: Seq<KeyTy>, members: Seq<(KeyTy, Ty)>) -> Seq<KeyTy>
    decreases members.len(),
{
    if members.len() == 0 {
        keys
    } else {
        add_key(add_keys(keys, members.drop_last()), members.last().0)
    }
}

/// The literal values of types as keys.
pub open spec fn add_literals(keys: Seq<KeyTy>, types: Seq<Ty>) -> Seq<KeyTy>
    decreases types.len(),
{
    if types.len() == 0 {
        keys
    } else {
        let front = add_literals(keys, types.drop_last());
        match normalize::literal_key(types.last()) {
            Some(key) => add_key(front, key),
            None => front,
        }
    }
}

/// The keys of an enumeration: its names, or its values.
pub open spec fn add_enum_keys(keys: Seq<KeyTy>, items: Seq<ItemTy>, by_name: bool) -> Seq<KeyTy>
    decreases items.len(),
{
    if items.len() == 0 {
        keys
    } else {
        let front = add_enum_keys(keys, items.drop_last(), by_name);
        if by_name {
            add_key(front, items.last().key)
        } else {
            add_literals(front, items.last().types)
        }
    }
}

/// The keys that a type may stand for, after those already listed, over at most `room` aliases.
pub open spec fn keys_of_type(db: DbTy, t: Ty, keys: Seq<KeyTy>, room: nat) -> Seq<KeyTy>
    decreases room, t, 0nat,
{
    match t {
        Ty::StringConst(s) => add_key(keys, KeyTy::Name(s)),
        Ty::DocStringConst(s) => add_key(keys, KeyTy::Name(s)),
        Ty::IntegerConst(i) => add_key(keys, KeyTy::Integer(i)),
        Ty::DocIntegerConst(i) => add_key(keys, KeyTy::Integer(i)),
        Ty::Call(call) => if call.call_kind is KeyOf && call.operand.len() == 1 {
            add_keys(keys, special::keys_or_none(special::keyed_members(db, call.operand[0])))
        } else {
            keys
        },
        Ty::MultiLineUnion(lines) => keys_of_lines(db, lines, keys, room),
        Ty::Union(u) => match *u {
            UnionTy::Basic(_) => keys,
            UnionTy::Nullable(x) => keys_of_type(db, x, keys, room),
            UnionTy::Multi(types) => keys_of_types(db, types, keys, room),
        },
        Ty::TableConst(_) | Ty::Tuple(_) => add_key(keys, KeyTy::TypeKey(Box::new(t))),
        Ty::Ref(id) => match db::decl_of(db, id) {
            Some(decl) => if decl.kind is Alias && decl.alias_ref is Some {
                if room == 0 {
                    keys
                } else {
                    keys_of_type(db, decl.alias_ref.unwrap(), keys, (room - 1) as nat)
                }
            } else if decl.kind is Enum {
                add_enum_keys(keys, db::items_of(db, OwnerTy::Type(id)), decl.is_enum_key)
            } else {
                keys
            },
            None => keys,
        },
        _ => keys,
    }
}

pub open spec fn keys_of_types(db: DbTy, types: Seq<Ty>, keys: Seq<KeyTy>, room: nat) -> Seq<KeyTy>
    decreases room, types, 1nat,
{
    if types.len() == 0 {
        keys
    } else {
        keys_of_type(
            db,
            types.last(),
            keys_of_types(db, types.drop_last(), keys, room),
            room,
        )
    }
}

pub open spec fn keys_of_lines(
    db: DbTy,
    lines: Seq<(Ty, Option<Seq<char>>)>,
    keys: Seq<KeyTy>,
    room: nat,
) -> Seq<KeyTy>
    decreases room, lines, 1nat,
{
    if lines.len() == 0 {
        keys
    } else {
        keys_of_type(
            db,
            lines.last().0,
            keys_of_lines(db, lines.drop_last(), keys, room),
            room,
        )
    }
}

fn insert_key(keys: &mut Vec<LuaMemberKey>, key: &LuaMemberKey)
    ensures
        error_chain::keys_ty(final(keys)@) == add_key(error_chain::keys_ty(old(keys)@), key@),
{
    let ghost all = error_chain::keys_ty(keys@);
    let mut i: usize = 0;
    while i < keys.len()
        invariant
            i <= keys@.len(),
            all == error_chain::keys_ty(keys@),
            *keys == *old(keys),
            forall|j: int| 0 <= j < i ==> !equality::key_eq(#[trigger] all[j], key@),
        decreases keys@.len() - i,
    {
        assert(all[i as int] == keys@[i as int]@);
        if keys[i].same(key) {
            return ;
        }
        i += 1;
    }
    keys.push(key.clone());
    assert(error_chain::keys_ty(keys@) =~= all.push(key@));
}

fn insert_member_keys(keys: &mut Vec<LuaMemberKey>, members: &Vec<(LuaMemberKey, LuaType)>)
    ensures
        error_chain::keys_ty(final(keys)@) == add_keys(error_chain::keys_ty(old(keys)@), types::field_tys(members@)),
{
    let ghost start = error_chain::keys_ty(keys@);
    let ghost all = types::field_tys(members@);
    let mut i: usize = 0;
    assert(all.take(0) =~= Seq::<(KeyTy, Ty)>::empty());
    while i < members.len()
        invariant
            i <= members@.len(),
            all == types::field_tys(members@),
            error_chain::keys_ty(keys@) == add_keys(start, all.take(i as int)),
        decreases members@.len() - i,
    {
        proof {
            assert(all.take(i + 1).drop_last() =~= all.take(i as int));
            assert(all.take(i + 1).last() == all[i as int]);
        }
        insert_key(keys, &members[i].0);
        i += 1;
    }
    assert(all.take(i as int) =~= all);
}

fn insert_literals(keys: &mut Vec<LuaMemberKey>, types: &Vec<LuaType>)
    ensures
        error_chain::keys_ty(final(keys)@) == add_literals(error_chain::keys_ty(old(keys)@), types::tys(types@)),
{
    let ghost start = error_chain::keys_ty(keys@);
    let ghost all = types::tys(types@);
    let mut i: usize = 0;
    assert(all.take(0) =~= Seq::<Ty>::empty());
    while i < types.len()
        invariant
            i <= types@.len(),
            all == types::tys(types@),
            error_chain::keys_ty(keys@) == add_literals(start, all.take(i as int)),
        decreases types@.len() - i,
    {
        proof {
            assert(all.take(i + 1).drop_last() =~= all.take(i as int));
            assert(all.take(i + 1).last() == all[i as int]);
            assert(all[i as int] == types@[i as int]@);
        }
        if let Some(key) = key_type_to_member_key(&types[i]) {
            insert_key(keys, &key);
        }
        i += 1;
    }
    assert(all.take(i as int) =~= all);
}

fn insert_enum_keys(keys: &mut Vec<LuaMemberKey>, items: &Vec<LuaMemberIndexItem>, by_name: bool)
    ensures
        error_chain::keys_ty(final(keys)@) == add_enum_keys(error_chain::keys_ty(old(keys)@), db::item_tys(items@), by_name),
{
    let ghost start = error_chain::keys_ty(keys@);
    let ghost all = db::item_tys(items@);
    let mut i: usize = 0;
    assert(all.take(0) =~= Seq::<ItemTy>::empty());
    while i < items.len()
        invariant
            i <= items@.len(),
            all == db::item_tys(items@),
            error_chain::keys_ty(keys@) == add_enum_keys(start, all.take(i as int), by_name),
        decreases items@.len() - i,
    {
        proof {
            assert(all.take(i + 1).drop_last() =~= all.take(i as int));
            assert(all.take(i + 1).last() == all[i as int]);
            assert(all[i as int] == items@[i as int]@);
        }
        if by_name {
            insert_key(keys, &items[i].key);
        } else {
            insert_literals(keys, &items[i].types);
        }
        i += 1;
    }
    assert(all.take(i as int) =~= all);
}

fn collect_ref_keys(db: &DbIndex, id: &LuaTypeDeclId, keys: &mut Vec<LuaMemberKey>, room: usize)
    ensures
        error_chain::keys_ty(final(keys)@) == keys_of_type(
            db@,
            Ty::Ref(id@),
            error_chain::keys_ty(old(keys)@),
            room as nat,
        ),
    decreases room, 0nat,
{
    if let Some(decl) = db.get_type_decl(id) {
        if decl.is_alias() {
            if let Some(origin) = decl.get_alias_ref() {
                if room > 0 {
                    collect_keys_of_type(db, origin, keys, room - 1);
                }
                return ;
            }
        }
        if decl.is_enum() {
            if let Some(members) = db.get_owner_members(&LuaMemberOwner::Type(id.clone())) {
                insert_enum_keys(keys, &members.items, decl.is_enum_key);
            }
        }
    }
}

fn collect_keys_of_type(db: &DbIndex, t: &LuaType, keys: &mut Vec<LuaMemberKey>, room: usize)
    ensures
        error_chain::keys_ty(final(keys)@) == keys_of_type(db@, t@, error_chain::keys_ty(old(keys)@), room as nat),
    decreases room, 1nat, t, 0nat,
{
    match t {
        LuaType::StringConst(s) => {
            insert_key(keys, &LuaMemberKey::Name(s.clone()));
        },
        LuaType::DocStringConst(s) => {
            insert_key(keys, &LuaMemberKey::Name(s.clone()));
        },
        LuaType::IntegerConst(i) => {
            insert_key(keys, &LuaMemberKey::Integer(*i));
        },
        LuaType::DocIntegerConst(i) => {
            insert_key(keys, &LuaMemberKey::Integer(*i));
        },
        LuaType::Call(call) => {
            assert(call@.operand == types::tys(call.operand@));
            if matches!(call.call_kind, LuaAliasCallKind::KeyOf) && call.operand.len() == 1 {
                assert(types::tys(call.operand@)[0] == call.operand@[0]@);
                let members = list_keyof_members(db, &call.operand[0]);
                insert_member_keys(keys, &members);
            }
        },
        LuaType::MultiLineUnion(union) => {
            assert(union@ == types::line_tys(union.unions@));
            collect_keys_of_lines(db, &union.unions, keys, room);
        },
        LuaType::Union(union) => {
            assert(t@ == Ty::Union(Box::new(union@)));
            match &**union {
                LuaUnionType::Basic(kinds) => {
                    assert(union@ == UnionTy::Basic(kinds@));
                },
                LuaUnionType::Nullable(x) => {
                    assert(union@ == UnionTy::Nullable(x@));
                    collect_keys_of_type(db, x, keys, room);
                },
                LuaUnionType::Multi(members) => {
                    assert(union@ == UnionTy::Multi(members@));
                    assert(members@ == types::tys(members.types@));
                    collect_keys_of_types(db, &members.types, keys, room);
                },
            }
        },
        LuaType::TableConst(_) => {
            let key = LuaMemberKey::TypeKey(t.clone());
            assert(key@ == KeyTy::TypeKey(Box::new(t@)));
            insert_key(keys, &key);
        },
        LuaType::Tuple(_) => {
            let key = LuaMemberKey::TypeKey(t.clone());
            assert(key@ == KeyTy::TypeKey(Box::new(t@)));
            insert_key(keys, &key);
        },
        LuaType::Ref(id) => {
            collect_ref_keys(db, id, keys, room);
        },
        _ => {},
    }
}

#[verifier::loop_isolation(false)]
fn collect_keys_of_types(
    db: &DbIndex,
    types: &Vec<LuaType>,
    keys: &mut Vec<LuaMemberKey>,
    room: usize,
)
    ensures
        error_chain::keys_ty(final(keys)@) == keys_of_types(
            db@,
            types::tys(types@),
            error_chain::keys_ty(old(keys)@),
            room as nat,
        ),
    decreases room, 1nat, types, 1nat,
{
    let ghost start = error_chain::keys_ty(keys@);
    let ghost all = types::tys(types@);
    let mut i: usize = 0;
    assert(all.take(0) =~= Seq::<Ty>::empty());
    while i < types.len()
        invariant
            i <= types@.len(),
            error_chain::keys_ty(keys@) == keys_of_types(db@, all.take(i as int), start, room as nat),
        decreases types@.len() - i,
    {
        proof {
            assert(all.take(i + 1).drop_last() =~= all.take(i as int));
            assert(all.take(i + 1).last() == all[i as int]);
            assert(all[i as int] == types@[i as int]@);
        }
        collect_keys_of_type(db, &types[i], keys, room);
        i += 1;
    }
    assert(all.take(i as int) =~= all);
}

#[verifier::loop_isolation(false)]
fn collect_keys_of_lines(
    db: &DbIndex,
    lines: &Vec<(LuaType, Option<String>)>,
    keys: &mut Vec<LuaMemberKey>,
    room: usize,
)
    ensures
        error_chain::keys_ty(final(keys)@) == keys_of_lines(
            db@,
            types::line_tys(lines@),
            error_chain::keys_ty(old(keys)@),
            room as nat,
        ),
    decreases room, 1nat, lines, 1nat,
{
    let ghost start = error_chain::keys_ty(keys@);
    let ghost all = types::line_tys(lines@);
    let mut i: usize = 0;
    assert(all.take(0) =~= Seq::<(Ty, Option<Seq<char>>)>::empty());
    while i < lines.len()
        invariant
            i <= lines@.len(),
            error_chain::keys_ty(keys@) == keys_of_lines(db@, all.take(i as int), start, room as nat),
        decreases lines@.len() - i,
    {
        proof {
            assert(all.take(i + 1).drop_last() =~= all.take(i as int));
            assert(all.take(i + 1).last() == all[i as int]);
            assert(all[i as int].0 == lines@[i as int].0@);
            assert(decreases_to!(lines => lines@[i as int].0));
        }
        collect_keys_of_type(db, &lines[i].0, keys, room);
        i += 1;
    }
    assert(all.take(i as int) =~= all);
}

/// The keys that a type may stand for. No chain of aliases is longer than the list of declarations.
pub open spec fn type_keys(db: DbTy, t: Ty) -> Seq<KeyTy> {
    keys_of_type(db, t, Seq::empty(), db.type_decls.len())
}

/// Lists the keys that a type may stand for.
pub fn collect_type_member_keys(db: &DbIndex, key_type: &LuaType) -> (r: Vec<LuaMemberKey>)
    ensures
        error_chain::keys_ty(r@) == type_keys(db@, key_type@),
{
    let mut keys: Vec<LuaMemberKey> = Vec::new();
    assert(error_chain::keys_ty(keys@) =~= Seq::<KeyTy>::empty());
    collect_keys_of_type(db, key_type, &mut keys, db.decl_count());
    keys
}

/// The types of the members under keys, as far as there are such members.
pub open spec fn types_under(items: Seq<ItemTy>, keys: Seq<KeyTy>) -> Seq<Ty>
    decreases keys.len(),
{
    if keys.len() == 0 {
        Seq::empty()
    } else {
        let front = types_under(items, keys.drop_last());
        match db::find_item(items, keys.last()) {
            Some(item) => match db::item_type(item) {
                Some(t) => front.push(t),
                None => front,
            },
            None => front,
        }
    }
}

/// The type of the members under the keys that a type may stand for.
pub open spec fn type_under_keys(db: DbTy, items: Seq<ItemTy>, key_type: Ty) -> Option<Ty> {
    let types = types_under(items, type_keys(db, key_type));
    if types.len() == 0 {
        None
    } else if types.len() == 1 {
        Some(types[0])
    } else {
        Some(predicates::ty_from_list(types))
    }
}

pub fn infer_type_key_member_type(
    db: &DbIndex,
    key_type: &LuaType,
    items: &Vec<LuaMemberIndexItem>,
) -> (r: Option<LuaType>)
    ensures
        types::opt_ty(r) == type_under_keys(db@, db::item_tys(items@), key_type@),
{
    let keys = collect_type_member_keys(db, key_type);
    let ghost all = error_chain::keys_ty(keys@);
    let mut types: Vec<LuaType> = Vec::new();
    let mut i: usize = 0;
    proof {
        assert(all.take(0) =~= Seq::<KeyTy>::empty());
        assert(types::tys(types@) =~= Seq::<Ty>::empty());
    }
    while i < keys.len()
        invariant
            i <= keys@.len(),
            all == error_chain::keys_ty(keys@),
            types::tys(types@) == types_under(db::item_tys(items@), all.take(i as int)),
        decreases keys@.len() - i,
    {
        proof {
            assert(all.take(i + 1).drop_last() =~= all.take(i as int));
            assert(all.take(i + 1).last() == all[i as int]);
            assert(all[i as int] == keys@[i as int]@);
        }
        let at = item_index(items, &keys[i]);
        if at < items.len() {
            if let Some(t) = items[at].resolve_type() {
                let ghost before = types::tys(types@);
                let ghost added = t@;
                types.push(t);
                assert(types::tys(types@) =~= before.push(added));
            }
        }
        i += 1;
    }
    assert(all.take(i as int) =~= all);
    assert(types::tys(types@).len() == types@.len());
    if types.len() == 0 {
        return None;
    }
    if types.len() == 1 {
        assert(types::tys(types@)[0] == types@[0]@);
        return Some(types[0].clone());
    }
    Some(LuaType::from_vec(types))
}

/// The types of all members whose keys fit a type.
pub open spec fn types_fitting(db: DbTy, items: Seq<ItemTy>, key: Ty) -> Seq<Ty>
    decreases items.len(),
{
    if items.len() == 0 {
        Seq::empty()
    } else {
        let front = types_fitting(db, items.drop_last(), key);
        match entries::key_type(items.last().key) {
            Some(t) => if assignable::fits(db, t, key) {
                front + items.last().types
            } else {
                front
            },
            None => front,
        }
    }
}

/// The type of all members whose keys fit a type. Under a whole kind of keys there may be nothing.
pub open spec fn type_fitting(db: DbTy, items: Seq<ItemTy>, key: Ty) -> Option<Ty> {
    let types = types_fitting(db, items, key);
    if types.len() == 0 {
        None
    } else if key is String || key is Number || key is Integer {
        Some(predicates::ty_from_list(types.push(Ty::Nil)))
    } else {
        Some(predicates::ty_from_list(types))
    }
}

pub fn infer_matching_member_key_type(
    db: &DbIndex,
    items: &Vec<LuaMemberIndexItem>,
    key_type: &LuaType,
) -> (r: Option<LuaType>)
    ensures
        types::opt_ty(r) == type_fitting(db@, db::item_tys(items@), key_type@),
{
    let ghost all = db::item_tys(items@);
    let mut types: Vec<LuaType> = Vec::new();
    let mut i: usize = 0;
    proof {
        assert(all.take(0) =~= Seq::<ItemTy>::empty());
        assert(types::tys(types@) =~= Seq::<Ty>::empty());
    }
    while i < items.len()
        invariant
            i <= items@.len(),
            all == db::item_tys(items@),
            types::tys(types@) == types_fitting(db@, all.take(i as int), key_type@),
        decreases items@.len() - i,
    {
        proof {
            assert(all.take(i + 1).drop_last() =~= all.take(i as int));
            assert(all.take(i + 1).last() == all[i as int]);
            assert(all[i as int] == items@[i as int]@);
        }
        if let Some(t) = items[i].key.to_index_type() {
            if is_assignable(db, &t, key_type, None) {
                let ghost before = types@;
                let mut more = clone_types(&items[i].types);
                let ghost added = more@;
                types.append(&mut more);
                assert(types::tys(types@) =~= types::tys(before) + types::tys(added));
            }
        }
        i += 1;
    }
    assert(all.take(i as int) =~= all);
    assert(types::tys(types@).len() == types@.len());
    if types.len() == 0 {
        return None;
    }
    if matches!(key_type, LuaType::String | LuaType::Number | LuaType::Integer) {
        let ghost before = types::tys(types@);
        types.push(LuaType::Nil);
        assert(types::tys(types@) =~= before.push(Ty::Nil));
    }
    Some(LuaType::from_vec(types))
}

// ----------------------------------------------------------------------------
// Numbers as text.

pub open spec fn digit_text(d: nat) -> Seq<char> {
    if d == 0 {
        "0"@
    } else if d == 1 {
        "1"@
    } else if d == 2 {
        "2"@
    } else if d == 3 {
        "3"@
    } else if d == 4 {
        "4"@
    } else if d == 5 {
        "5"@
    } else if d == 6 {
        "6"@
    } else if d == 7 {
        "7"@
    } else if d == 8 {
        "8"@
    } else {
        "9"@
    }
}

pub open spec fn number_text(n: nat) -> Seq<char>
    decreases n,
{
    if n < 10 {
        digit_text(n)
    } else {
        number_text(n / 10) + digit_text(n % 10)
    }
}

pub open spec fn integer_text(i: i64) -> Seq<char> {
    if i < 0 {
        "-"@ + number_text((-i) as nat)
    } else {
        number_text(i as nat)
    }
}

fn push_digit(text: &mut String, d: u64)
    requires
        d < 10,
    ensures
        final(text)@ == old(text)@ + digit_text(d as nat),
{
    let digit = if d == 0 {
        "0"
    } else if d == 1 {
        "1"
    } else if d == 2 {
        "2"
    } else if d == 3 {
        "3"
    } else if d == 4 {
        "4"
    } else if d == 5 {
        "5"
    } else if d == 6 {
        "6"
    } else if d == 7 {
        "7"
    } else if d == 8 {
        "8"
    } else {
        "9"
    };
    text.append(digit);
}

fn push_number(text: &mut String, n: u64)
    ensures
        final(text)@ == old(text)@ + number_text(n as nat),
    decreases n,
{
    if n < 10 {
        push_digit(text, n);
    } else {
        let ghost before = text@;
        push_number(text, n / 10);
        push_digit(text, n % 10);
        assert(text@ =~= before + number_text(n as nat));
    }
}

pub fn push_integer(text: &mut String, i: i64)
    ensures
        final(text)@ == old(text)@ + integer_text(i),
{
    if i < 0 {
        let ghost before = text@;
        text.append("-");
        let n: u64 = (-(i + 1)) as u64 + 1;
        push_number(text, n);
        assert(text@ =~= before + integer_text(i));
    } else {
        push_number(text, i as u64);
    }
}

} // verus!
