//! The declared type of one member, without operators.

use vstd::prelude::*;

use crate::{db, types};
use crate::db::{
    DbIndex, DbTy, ItemTy, LuaMemberIndexItem, LuaMemberOwner, OwnerTy, TypeOps,
    get_buildin_type_map_type_id, item_index,
};
use crate::type_check::{assignable, entries};
use crate::type_check::assignable::is_assignable;
use crate::type_check::structured::dispatch;
use crate::type_check::structured::dispatch::apply_args;
use crate::type_check::structured::tuple::key_place;
use crate::types::{
    GenericTy, KeyTy, LuaGenericType, LuaMemberKey, LuaObjectType, LuaTupleType, LuaType,
    LuaTypeDeclId, ObjectTy, Ty, complex, predicates,
};
use crate::types::complex::clone_types;

verus! {

/// Why no type could be told.
#[derive(Debug, Clone, Copy, PartialEq, Eq, Structural)]
pub enum InferFailReason {
    Unsupported,
    FieldNotFound,
    RecursiveInfer,
    /// Something that is not analysed yet is needed.
    NeedResolve(u32),
}

pub type RawGetMemberTypeResult = Result<LuaType, InferFailReason>;

pub open spec fn res_ty(r: Result<LuaType, InferFailReason>) -> Result<Ty, InferFailReason> {
    match r {
        Ok(t) => Ok(t@),
        Err(reason) => Err(reason),
    }
}

/// How deep a member is looked for: as deep as can be counted.
pub open spec fn raw_limit() -> nat {
    usize::MAX as nat
}

/// The member of a type under a key, without metamethods.
pub open spec fn raw_member(
    db: DbTy,
    t: Ty,
    key: KeyTy,
    seen: Seq<Seq<char>>,
    room: nat,
) -> Result<Ty, InferFailReason>
    decreases room, 9nat, 0nat,
{
    match t {
        Ty::Table | Ty::Any | Ty::Unknown => Ok(Ty::Any),
        Ty::TableConst(range) => raw_owner(db, OwnerTy::Element(range), key),
        Ty::String | Ty::Io | Ty::StringConst(_) | Ty::DocStringConst(_) | Ty::Language(_) =>
            match db::member_type_name(t) {
                Some(id) => raw_owner(db, OwnerTy::Type(id), key),
                None => Err(InferFailReason::Unsupported),
            },
        Ty::Tuple(x) => raw_tuple(x.types, key),
        Ty::Object(o) => raw_object(db, *o, key),
        Ty::Array(a) => raw_array(db, a.base, key),
        Ty::TableGeneric(params) => raw_table(db, params, key),
        _ => if room == 0 {
            Err(InferFailReason::RecursiveInfer)
        } else {
            raw_inside(db, t, key, seen, (room - 1) as nat)
        },
    }
}

/// The member of a type that leads to other types.
pub open spec fn raw_inside(
    db: DbTy,
    t: Ty,
    key: KeyTy,
    seen: Seq<Seq<char>>,
    room: nat,
) -> Result<Ty, InferFailReason>
    decreases room, 12nat, 0nat,
{
    match t {
        Ty::Ref(id) => raw_declared(db, id, key, seen, room),
        Ty::Def(id) => raw_declared(db, id, key, seen, room),
        Ty::Generic(g) => raw_generic(db, *g, key, seen, room),
        Ty::Union(u) => raw_union(db, complex::union_tys(*u), key, seen, room),
        Ty::MultiLineUnion(lines) => match complex::lines_union(lines) {
            Ty::Union(u) => raw_union(db, complex::union_tys(*u), key, seen, room),
            _ => Err(InferFailReason::FieldNotFound),
        },
        Ty::Intersection(types) => raw_intersection(db, types, 0, None, key, seen, room),
        Ty::Instance(x) => raw_member(db, x.base, key, seen, room),
        Ty::TplRef(tpl) => match tpl.param.constraint {
            Some(constraint) => raw_member(db, constraint, key, seen, room),
            None => Err(InferFailReason::Unsupported),
        },
        _ => Err(InferFailReason::Unsupported),
    }
}

pub open spec fn raw_owner(db: DbTy, owner: OwnerTy, key: KeyTy) -> Result<Ty, InferFailReason> {
    match db::find_item(db::items_of(db, owner), key) {
        Some(item) => match db::item_type(item) {
            Some(t) => Ok(t),
            None => Err(InferFailReason::Unsupported),
        },
        None => Err(InferFailReason::FieldNotFound),
    }
}

pub open spec fn raw_tuple(types: Seq<Ty>, key: KeyTy) -> Result<Ty, InferFailReason> {
    match key {
        KeyTy::Integer(i) => match complex::tuple_at(
            types,
            if i > 0 {
                entries::machine_index(i) as nat
            } else {
                0
            },
        ) {
            Some(t) => Ok(t),
            None => Err(InferFailReason::FieldNotFound),
        },
        _ => Err(InferFailReason::FieldNotFound),
    }
}

/// The value of the first index whose key the key fits.
pub open spec fn fitting_index(db: DbTy, access: Ty, indexes: Seq<(Ty, Ty)>) -> Option<Ty>
    decreases indexes.len(),
{
    if indexes.len() == 0 {
        None
    } else if assignable::fits(db, access, indexes[0].0) {
        Some(indexes[0].1)
    } else {
        fitting_index(db, access, indexes.skip(1))
    }
}

pub open spec fn raw_object(db: DbTy, o: ObjectTy, key: KeyTy) -> Result<Ty, InferFailReason> {
    match complex::first_field(o.fields, key) {
        Some(t) => Ok(t),
        None => match entries::key_type(key) {
            Some(access) => match fitting_index(db, access, o.index_access) {
                Some(t) => Ok(t),
                None => Err(InferFailReason::FieldNotFound),
            },
            None => Err(InferFailReason::FieldNotFound),
        },
    }
}

pub open spec fn raw_array(db: DbTy, base: Ty, key: KeyTy) -> Result<Ty, InferFailReason> {
    let is_place = match key {
        KeyTy::Integer(_) => true,
        KeyTy::TypeKey(t) => entries::ty_is_integer(*t),
        _ => false,
    };
    if is_place {
        Ok(
            if db.strict_array_index {
                db::union_ty(base, Ty::Nil)
            } else {
                base
            },
        )
    } else {
        Err(InferFailReason::FieldNotFound)
    }
}

pub open spec fn raw_table(db: DbTy, params: Seq<Ty>, key: KeyTy) -> Result<Ty, InferFailReason> {
    if params.len() != 2 {
        Err(InferFailReason::Unsupported)
    } else {
        match entries::key_type(key) {
            Some(access) => if assignable::fits(db, access, params[0]) {
                Ok(params[1])
            } else {
                Err(InferFailReason::FieldNotFound)
            },
            None => Err(InferFailReason::FieldNotFound),
        }
    }
}

/// The types of all members under a type that the key fits.
pub open spec fn fitting_items(db: DbTy, access: Ty, items: Seq<ItemTy>) -> Seq<Ty>
    decreases items.len(),
{
    if items.len() == 0 {
        Seq::empty()
    } else {
        let front = fitting_items(db, access, items.drop_last());
        match items.last().key {
            KeyTy::TypeKey(t) => if assignable::fits(db, access, *t) {
                front + items.last().types
            } else {
                front
            },
            _ => front,
        }
    }
}

/// What a declared type has itself under a key.
pub open spec fn raw_own(db: DbTy, id: Seq<char>, key: KeyTy) -> Option<Result<Ty, InferFailReason>> {
    let items = db::items_of(db, OwnerTy::Type(id));
    match db::find_item(items, key) {
        Some(_) => Some(raw_owner(db, OwnerTy::Type(id), key)),
        None => match entries::key_type(key) {
            Some(access) => if fitting_items(db, access, items).len() > 0 {
                Some(Ok(predicates::ty_from_list(fitting_items(db, access, items))))
            } else {
                None
            },
            None => None,
        },
    }
}

/// The member of a declared type: of an alias, that of what it stands for; of a class, its own one or
/// that of the first super type that has it. A type that leads back to itself has none.
pub open spec fn raw_declared(
    db: DbTy,
    id: Seq<char>,
    key: KeyTy,
    seen: Seq<Seq<char>>,
    room: nat,
) -> Result<Ty, InferFailReason>
    decreases room, 11nat, 0nat,
{
    if seen.contains(id) {
        Err(InferFailReason::RecursiveInfer)
    } else {
        match db::decl_of(db, id) {
            None => Err(InferFailReason::Unsupported),
            Some(decl) => if decl.kind is Alias {
                match decl.alias_ref {
                    Some(origin) => raw_member(db, origin, key, seen.push(id), room),
                    None => Err(InferFailReason::Unsupported),
                }
            } else {
                match raw_own(db, id, key) {
                    Some(r) => r,
                    None => if decl.kind is Class {
                        raw_inherited(db, decl.super_types, 0, key, seen.push(id), room)
                    } else {
                        Err(InferFailReason::FieldNotFound)
                    },
                }
            },
        }
    }
}

pub open spec fn raw_inherited(
    db: DbTy,
    types: Seq<Ty>,
    i: nat,
    key: KeyTy,
    seen: Seq<Seq<char>>,
    room: nat,
) -> Result<Ty, InferFailReason>
    decreases room, 10nat, types.len() - i,
{
    if i >= types.len() {
        Err(InferFailReason::FieldNotFound)
    } else {
        let r = raw_member(db, types[i as int], key, seen, room);
        if r == Err::<Ty, InferFailReason>(InferFailReason::FieldNotFound) {
            raw_inherited(db, types, i + 1, key, seen, room)
        } else {
            r
        }
    }
}

/// The member of an applied generic type, with the arguments filled in.
pub open spec fn raw_generic(
    db: DbTy,
    g: GenericTy,
    key: KeyTy,
    seen: Seq<Seq<char>>,
    room: nat,
) -> Result<Ty, InferFailReason>
    decreases room, 11nat, 1nat,
{
    match db::decl_of(db, g.base) {
        None => Err(InferFailReason::Unsupported),
        Some(decl) => match decl.alias_ref {
            Some(origin) => raw_member(db, dispatch::applied(db, origin, g.params), key, Seq::empty(), room),
            None => match raw_declared(db, g.base, key, seen, room) {
                Ok(t) => Ok(dispatch::applied(db, t, g.params)),
                Err(reason) => Err(reason),
            },
        },
    }
}

/// The members of the types of a union, from type `i` on: what was found and whether one was
/// missing. Of strings only the first is looked at.
pub open spec fn raw_members(
    db: DbTy,
    types: Seq<Ty>,
    i: nat,
    found: Seq<Ty>,
    missing: bool,
    met_string: bool,
    key: KeyTy,
    seen: Seq<Seq<char>>,
    room: nat,
) -> (Seq<Ty>, bool)
    decreases room, 10nat, types.len() - i,
{
    if i >= types.len() {
        (found, missing)
    } else {
        let is_string = ty_is_string(types[i as int]);
        if is_string && met_string {
            raw_members(db, types, i + 1, found, missing, true, key, seen, room)
        } else {
            match raw_member(db, types[i as int], key, seen, room) {
                Ok(t) => raw_members(
                    db,
                    types,
                    i + 1,
                    found.push(t),
                    missing,
                    met_string || is_string,
                    key,
                    seen,
                    room,
                ),
                Err(_) => raw_members(
                    db,
                    types,
                    i + 1,
                    found,
                    true,
                    met_string || is_string,
                    key,
                    seen,
                    room,
                ),
            }
        }
    }
}

pub open spec fn ty_is_string(t: Ty) -> bool {
    t is StringConst || t is String || t is DocStringConst || t is Language
}

/// The member of a union: the union of the members of its types, or nil where one has none.
pub open spec fn raw_union(
    db: DbTy,
    types: Seq<Ty>,
    key: KeyTy,
    seen: Seq<Seq<char>>,
    room: nat,
) -> Result<Ty, InferFailReason>
    decreases room, 11nat, 0nat,
{
    let (found, missing) = raw_members(
        db,
        types,
        0,
        Seq::empty(),
        false,
        false,
        key,
        seen,
        room,
    );
    if found.len() == 0 {
        Err(InferFailReason::FieldNotFound)
    } else if missing {
        Ok(db::union_all_ty(found.push(Ty::Nil)))
    } else {
        Ok(db::union_all_ty(found))
    }
}

/// The member of an intersection: what the members of its parts have in common, from part `i` on.
pub open spec fn raw_intersection(
    db: DbTy,
    types: Seq<Ty>,
    i: nat,
    result: Option<Ty>,
    key: KeyTy,
    seen: Seq<Seq<char>>,
    room: nat,
) -> Result<Ty, InferFailReason>
    decreases room, 10nat, types.len() - i,
{
    if i >= types.len() || result == Some(Ty::Never) {
        match result {
            Some(t) => Ok(t),
            None => Err(InferFailReason::FieldNotFound),
        }
    } else {
        match raw_member(db, types[i as int], key, seen, room) {
            Ok(t) => raw_intersection(
                db,
                types,
                i + 1,
                Some(
                    match result {
                        Some(prev) => db::intersect_ty(prev, t),
                        None => t,
                    },
                ),
                key,
                seen,
                room,
            ),
            Err(InferFailReason::FieldNotFound) => raw_intersection(
                db,
                types,
                i + 1,
                result,
                key,
                seen,
                room,
            ),
            Err(reason) => Err(reason),
        }
    }
}

/// The member of a type under a key, without metamethods.
pub open spec fn raw_type(db: DbTy, t: Ty, key: KeyTy) -> Result<Ty, InferFailReason> {
    raw_member(db, t, key, Seq::empty(), raw_limit())
}

pub open spec fn id_tys(ids: Seq<LuaTypeDeclId>) -> Seq<Seq<char>> {
    Seq::new(ids.len(), |i: int| ids[i]@)
}

/// The declared types on the way to a member.
#[derive(Debug)]
pub struct InferGuard {
    pub ids: Vec<LuaTypeDeclId>,
}

impl View for InferGuard {
    type V = Seq<Seq<char>>;

    open spec fn view(&self) -> Seq<Seq<char>> {
        id_tys(self.ids@)
    }
}

impl InferGuard {
    pub fn new() -> (r: Self)
        ensures
            r@ == Seq::<Seq<char>>::empty(),
    {
        let r = InferGuard { ids: Vec::new() };
        assert(r@ =~= Seq::<Seq<char>>::empty());
        r
    }

    /// The guard with one more type, unless that is already on the way.
    pub fn check(&self, id: &LuaTypeDeclId) -> (r: Option<InferGuard>)
        ensures
            r is Some == !self@.contains(id@),
            r matches Some(guard) ==> guard@ == self@.push(id@),
    {
        let ghost all = self@;
        let mut ids: Vec<LuaTypeDeclId> = Vec::new();
        let mut i: usize = 0;
        while i < self.ids.len()
            invariant
                i <= self.ids@.len(),
                all == self@,
                ids@.len() == i,
                forall|j: int| 0 <= j < i ==> (#[trigger] ids@[j])@ == all[j],
                forall|j: int| 0 <= j < i ==> #[trigger] all[j] != id@,
            decreases self.ids@.len() - i,
        {
            assert(all[i as int] == self.ids@[i as int]@);
            if self.ids[i].same(id) {
                assert(all.contains(id@));
                return None;
            }
            ids.push(self.ids[i].clone());
            i += 1;
        }
        ids.push(id.clone());
        let guard = InferGuard { ids };
        proof {
            assert(guard@ =~= all.push(id@));
        }
        Some(guard)
    }
}

fn infer_owner_raw_member_type(
    db: &DbIndex,
    member_owner: &LuaMemberOwner,
    member_key: &LuaMemberKey,
) -> (r: RawGetMemberTypeResult)
    ensures
        res_ty(r) == raw_owner(db@, member_owner@, member_key@),
{
    match db.get_owner_members(member_owner) {
        Some(members) => {
            let i = item_index(&members.items, member_key);
            if i < members.items.len() {
                match members.items[i].resolve_type() {
                    Some(t) => Ok(t),
                    None => Err(InferFailReason::Unsupported),
                }
            } else {
                Err(InferFailReason::FieldNotFound)
            }
        },
        None => Err(InferFailReason::FieldNotFound),
    }
}

fn infer_tuple_raw_member_type(tuple: &LuaTupleType, member_key: &LuaMemberKey) -> (r:
    RawGetMemberTypeResult)
    ensures
        res_ty(r) == raw_tuple(tuple@.types, member_key@),
{
    if let LuaMemberKey::Integer(i) = member_key {
        let index = if *i > 0 {
            key_place(*i)
        } else {
            0
        };
        return match tuple.get_type(index) {
            Some(typ) => Ok(typ.clone()),
            None => Err(InferFailReason::FieldNotFound),
        };
    }
    Err(InferFailReason::FieldNotFound)
}

pub fn find_fitting_index(db: &DbIndex, access: &LuaType, indexes: &Vec<(LuaType, LuaType)>) -> (r:
    Option<LuaType>)
    ensures
        types::opt_ty(r) == fitting_index(db@, access@, types::pair_tys(indexes@)),
    decreases db@.room, 16nat,
{
    let ghost all = types::pair_tys(indexes@);
    let mut i: usize = 0;
    assert(all.skip(0) =~= all);
    while i < indexes.len()
        invariant
            i <= indexes@.len(),
            all == types::pair_tys(indexes@),
            fitting_index(db@, access@, all) == fitting_index(db@, access@, all.skip(i as int)),
        decreases indexes@.len() - i,
    {
        let (key, value) = &indexes[i];
        proof {
            assert(all.skip(i as int)[0] == all[i as int]);
            assert(all[i as int] == (key@, value@));
            assert(all.skip(i as int).skip(1) =~= all.skip(i + 1));
        }
        if is_assignable(db, access, key, None) {
            return Some(value.clone());
        }
        i += 1;
    }
    None
}

fn infer_object_raw_member_type(
    db: &DbIndex,
    object: &LuaObjectType,
    member_key: &LuaMemberKey,
) -> (r: RawGetMemberTypeResult)
    ensures
        res_ty(r) == raw_object(db@, object@, member_key@),
    decreases db@.room, 17nat,
{
    assert(object@.index_access == types::pair_tys(object.index_access@));
    if let Some(member_type) = object.get_field(member_key) {
        return Ok(member_type.clone());
    }
    match member_key.to_index_type() {
        Some(access) => match find_fitting_index(db, &access, &object.index_access) {
            Some(t) => Ok(t),
            None => Err(InferFailReason::FieldNotFound),
        },
        None => Err(InferFailReason::FieldNotFound),
    }
}

fn infer_array_raw_member_type(db: &DbIndex, base: &LuaType, member_key: &LuaMemberKey) -> (r:
    RawGetMemberTypeResult)
    ensures
        res_ty(r) == raw_array(db@, base@, member_key@),
{
    let is_place = match member_key {
        LuaMemberKey::Integer(_) => true,
        LuaMemberKey::TypeKey(t) => t.is_integer(),
        _ => false,
    };
    if !is_place {
        return Err(InferFailReason::FieldNotFound);
    }
    if db.is_strict_array_index() {
        Ok(TypeOps::union(base, &LuaType::Nil))
    } else {
        Ok(base.clone())
    }
}

fn infer_table_generic_raw_member_type(
    db: &DbIndex,
    params: &Vec<LuaType>,
    member_key: &LuaMemberKey,
) -> (r: RawGetMemberTypeResult)
    ensures
        res_ty(r) == raw_table(db@, types::tys(params@), member_key@),
    decreases db@.room, 16nat,
{
    assert(types::tys(params@).len() == params@.len());
    if params.len() != 2 {
        return Err(InferFailReason::Unsupported);
    }
    assert(types::tys(params@)[0] == params@[0]@ && types::tys(params@)[1] == params@[1]@);
    match member_key.to_index_type() {
        Some(access) => if is_assignable(db, &access, &params[0], None) {
            Ok(params[1].clone())
        } else {
            Err(InferFailReason::FieldNotFound)
        },
        None => Err(InferFailReason::FieldNotFound),
    }
}

fn list_fitting_items(db: &DbIndex, access: &LuaType, items: &Vec<LuaMemberIndexItem>) -> (r: Vec<
    LuaType,
>)
    ensures
        types::tys(r@) == fitting_items(db@, access@, db::item_tys(items@)),
    decreases db@.room, 16nat,
{
    let ghost all = db::item_tys(items@);
    let mut r: Vec<LuaType> = Vec::new();
    let mut i: usize = 0;
    proof {
        assert(all.take(0) =~= Seq::<ItemTy>::empty());
        assert(types::tys(r@) =~= fitting_items(db@, access@, all.take(0)));
    }
    while i < items.len()
        invariant
            i <= items@.len(),
            all == db::item_tys(items@),
            types::tys(r@) == fitting_items(db@, access@, all.take(i as int)),
        decreases items@.len() - i,
    {
        proof {
            assert(all.take(i + 1).drop_last() =~= all.take(i as int));
            assert(all.take(i + 1).last() == all[i as int]);
            assert(all[i as int] == items@[i as int]@);
        }
        if let LuaMemberKey::TypeKey(t) = &items[i].key {
            if is_assignable(db, access, t, None) {
                let ghost before = r@;
                let mut more = clone_types(&items[i].types);
                let ghost added = more@;
                r.append(&mut more);
                assert(types::tys(r@) =~= types::tys(before) + types::tys(added));
            }
        }
        i += 1;
    }
    assert(all.take(i as int) =~= all);
    r
}

fn infer_own_raw_member_type(db: &DbIndex, id: &LuaTypeDeclId, member_key: &LuaMemberKey) -> (r:
    Option<RawGetMemberTypeResult>)
    ensures
        (match r {
            Some(r) => Some(res_ty(r)),
            None => None,
        }) == raw_own(db@, id@, member_key@),
    decreases db@.room, 17nat,
{
    let owner = LuaMemberOwner::Type(id.clone());
    match db.get_owner_members(&owner) {
        Some(members) => {
            let i = item_index(&members.items, member_key);
            if i < members.items.len() {
                return Some(infer_owner_raw_member_type(db, &owner, member_key));
            }
            match member_key.to_index_type() {
                Some(access) => {
                    let types = list_fitting_items(db, &access, &members.items);
                    assert(types::tys(types@).len() == types@.len());
                    if types.len() > 0 {
                        return Some(Ok(LuaType::from_vec(types)));
                    }
                    None
                },
                None => None,
            }
        },
        None => None,
    }
}

/// The member of a type under a key, without metamethods.
pub fn infer_raw_member_type(
    db: &DbIndex,
    prefix_type: &LuaType,
    member_key: &LuaMemberKey,
) -> (r: RawGetMemberTypeResult)
    ensures
        res_ty(r) == raw_type(db@, prefix_type@, member_key@),
    decreases db@.room, 19nat,
{
    infer_raw_member_type_guard(db, prefix_type, member_key, &InferGuard::new(), usize::MAX)
}

fn infer_raw_member_type_guard(
    db: &DbIndex,
    prefix_type: &LuaType,
    member_key: &LuaMemberKey,
    infer_guard: &InferGuard,
    room: usize,
) -> (r: RawGetMemberTypeResult)
    ensures
        res_ty(r) == raw_member(db@, prefix_type@, member_key@, infer_guard@, room as nat),
    decreases db@.room, 18nat, room, 9nat, 0nat,
{
    match prefix_type {
        LuaType::Table => Ok(LuaType::Any),
        LuaType::Any => Ok(LuaType::Any),
        LuaType::Unknown => Ok(LuaType::Any),
        LuaType::TableConst(id) => {
            let owner = LuaMemberOwner::Element(*id);
            infer_owner_raw_member_type(db, &owner, member_key)
        },
        LuaType::String
        | LuaType::Io
        | LuaType::StringConst(_)
        | LuaType::DocStringConst(_)
        | LuaType::Language(_) => match get_buildin_type_map_type_id(prefix_type) {
            Some(id) => {
                let owner = LuaMemberOwner::Type(id);
                infer_owner_raw_member_type(db, &owner, member_key)
            },
            None => Err(InferFailReason::Unsupported),
        },
        LuaType::Tuple(tuple) => infer_tuple_raw_member_type(tuple, member_key),
        LuaType::Object(object) => infer_object_raw_member_type(db, object, member_key),
        LuaType::Array(array) => {
            assert(array@.base == array.base@);
            infer_array_raw_member_type(db, &array.base, member_key)
        },
        LuaType::TableGeneric(params) => infer_table_generic_raw_member_type(
            db,
            params,
            member_key,
        ),
        _ => {
            if room == 0 {
                return Err(InferFailReason::RecursiveInfer);
            }
            infer_inner_raw_member_type(db, prefix_type, member_key, infer_guard, room - 1)
        },
    }
}

fn infer_inner_raw_member_type(
    db: &DbIndex,
    prefix_type: &LuaType,
    member_key: &LuaMemberKey,
    infer_guard: &InferGuard,
    room: usize,
) -> (r: RawGetMemberTypeResult)
    ensures
        res_ty(r) == raw_inside(db@, prefix_type@, member_key@, infer_guard@, room as nat),
    decreases db@.room, 18nat, room, 12nat, 0nat,
{
    match prefix_type {
        LuaType::Ref(id) => infer_custom_type_raw_member_type(
            db,
            id,
            member_key,
            infer_guard,
            room,
        ),
        LuaType::Def(id) => infer_custom_type_raw_member_type(
            db,
            id,
            member_key,
            infer_guard,
            room,
        ),
        LuaType::Generic(generic) => infer_generic_raw_member_type(
            db,
            generic,
            member_key,
            infer_guard,
            room,
        ),
        LuaType::Union(union) => {
            let types = union.into_vec();
            infer_union_raw_member_type(db, &types, member_key, infer_guard, room)
        },
        LuaType::MultiLineUnion(multi_union) => {
            let union = multi_union.to_union();
            if let LuaType::Union(union) = &union {
                let types = union.into_vec();
                return infer_union_raw_member_type(db, &types, member_key, infer_guard, room);
            }
            Err(InferFailReason::FieldNotFound)
        },
        LuaType::Intersection(intersection) => {
            assert(intersection@ == types::tys(intersection.types@));
            infer_intersection_raw_member_type(
                db,
                &intersection.types,
                member_key,
                infer_guard,
                room,
            )
        },
        LuaType::Instance(inst) => infer_raw_member_type_guard(
            db,
            inst.get_base(),
            member_key,
            infer_guard,
            room,
        ),
        LuaType::TplRef(tpl) => match tpl.get_constraint() {
            Some(constraint) => infer_raw_member_type_guard(
                db,
                constraint,
                member_key,
                infer_guard,
                room,
            ),
            None => Err(InferFailReason::Unsupported),
        },
        _ => Err(InferFailReason::Unsupported),
    }
}

fn infer_custom_type_raw_member_type(
    db: &DbIndex,
    type_id: &LuaTypeDeclId,
    member_key: &LuaMemberKey,
    infer_guard: &InferGuard,
    room: usize,
) -> (r: RawGetMemberTypeResult)
    ensures
        res_ty(r) == raw_declared(db@, type_id@, member_key@, infer_guard@, room as nat),
    decreases db@.room, 18nat, room, 11nat, 0nat,
{
    let guard = match infer_guard.check(type_id) {
        Some(guard) => guard,
        None => {
            return Err(InferFailReason::RecursiveInfer);
        },
    };
    let decl = match db.get_type_decl(type_id) {
        Some(decl) => decl,
        None => {
            return Err(InferFailReason::Unsupported);
        },
    };
    if decl.is_alias() {
        return match decl.get_alias_ref() {
            Some(origin) => infer_raw_member_type_guard(db, origin, member_key, &guard, room),
            None => Err(InferFailReason::Unsupported),
        };
    }
    if let Some(r) = infer_own_raw_member_type(db, type_id, member_key) {
        return r;
    }
    if decl.is_class() {
        return infer_super_raw_member_type(db, &decl.super_types, member_key, &guard, room);
    }
    Err(InferFailReason::FieldNotFound)
}

#[verifier::loop_isolation(false)]
fn infer_super_raw_member_type(
    db: &DbIndex,
    types: &Vec<LuaType>,
    member_key: &LuaMemberKey,
    infer_guard: &InferGuard,
    room: usize,
) -> (r: RawGetMemberTypeResult)
    ensures
        res_ty(r) == raw_inherited(
            db@,
            types::tys(types@),
            0,
            member_key@,
            infer_guard@,
            room as nat,
        ),
    decreases db@.room, 18nat, room, 10nat, 0nat,
{
    let ghost all = types::tys(types@);
    let ghost whole = raw_inherited(db@, all, 0, member_key@, infer_guard@, room as nat);
    let mut i: usize = 0;
    while i < types.len()
        invariant
            i <= types@.len(),
            whole == raw_inherited(
                db@,
                all,
                i as nat,
                member_key@,
                infer_guard@,
                room as nat,
            ),
        decreases types@.len() - i,
    {
        assert(all[i as int] == types@[i as int]@);
        match infer_raw_member_type_guard(db, &types[i], member_key, infer_guard, room) {
            Ok(t) => {
                return Ok(t);
            },
            Err(InferFailReason::FieldNotFound) => {},
            Err(reason) => {
                return Err(reason);
            },
        }
        i += 1;
    }
    Err(InferFailReason::FieldNotFound)
}

fn infer_generic_raw_member_type(
    db: &DbIndex,
    generic: &LuaGenericType,
    member_key: &LuaMemberKey,
    infer_guard: &InferGuard,
    room: usize,
) -> (r: RawGetMemberTypeResult)
    ensures
        res_ty(r) == raw_generic(db@, generic@, member_key@, infer_guard@, room as nat),
    decreases db@.room, 18nat, room, 11nat, 1nat,
{
    assert(generic@.base == generic.base@ && generic@.params == types::tys(generic.params@));
    let decl = match db.get_type_decl(&generic.base) {
        Some(decl) => decl,
        None => {
            return Err(InferFailReason::Unsupported);
        },
    };
    if let Some(origin) = decl.get_alias_ref() {
        let origin = apply_args(db, origin, &generic.params);
        return infer_raw_member_type_guard(db, &origin, member_key, &InferGuard::new(), room);
    }
    match infer_custom_type_raw_member_type(db, &generic.base, member_key, infer_guard, room) {
        Ok(t) => Ok(apply_args(db, &t, &generic.params)),
        Err(reason) => Err(reason),
    }
}

#[verifier::loop_isolation(false)]
fn infer_union_raw_member_type(
    db: &DbIndex,
    types: &Vec<LuaType>,
    member_key: &LuaMemberKey,
    infer_guard: &InferGuard,
    room: usize,
) -> (r: RawGetMemberTypeResult)
    ensures
        res_ty(r) == raw_union(db@, types::tys(types@), member_key@, infer_guard@, room as nat),
    decreases db@.room, 18nat, room, 11nat, 0nat,
{
    let ghost all = types::tys(types@);
    let ghost whole = raw_members(
        db@,
        all,
        0,
        Seq::empty(),
        false,
        false,
        member_key@,
        infer_guard@,
        room as nat,
    );
    let mut member_types: Vec<LuaType> = Vec::new();
    let mut has_missing_member = false;
    let mut meet_string = false;
    let mut i: usize = 0;
    assert(types::tys(member_types@) =~= Seq::<Ty>::empty());
    while i < types.len()
        invariant
            i <= types@.len(),
            whole == raw_members(
                db@,
                all,
                i as nat,
                types::tys(member_types@),
                has_missing_member,
                meet_string,
                member_key@,
                infer_guard@,
                room as nat,
            ),
        decreases types@.len() - i,
    {
        let sub_type = &types[i];
        assert(all[i as int] == sub_type@);
        let is_string = sub_type.is_string();
        if !(is_string && meet_string) {
            match infer_raw_member_type_guard(db, sub_type, member_key, infer_guard, room) {
                Ok(t) => {
                    let ghost before = types::tys(member_types@);
                    let ghost added = t@;
                    member_types.push(t);
                    assert(types::tys(member_types@) =~= before.push(added));
                },
                Err(_) => {
                    has_missing_member = true;
                },
            }
            meet_string = meet_string || is_string;
        }
        i += 1;
    }
    assert(types::tys(member_types@).len() == member_types@.len());
    if member_types.len() == 0 {
        return Err(InferFailReason::FieldNotFound);
    }
    if has_missing_member {
        let ghost before = types::tys(member_types@);
        member_types.push(LuaType::Nil);
        assert(types::tys(member_types@) =~= before.push(Ty::Nil));
    }
    Ok(TypeOps::union_all(&member_types))
}

#[verifier::loop_isolation(false)]
fn infer_intersection_raw_member_type(
    db: &DbIndex,
    types: &Vec<LuaType>,
    member_key: &LuaMemberKey,
    infer_guard: &InferGuard,
    room: usize,
) -> (r: RawGetMemberTypeResult)
    ensures
        res_ty(r) == raw_intersection(
            db@,
            types::tys(types@),
            0,
            None,
            member_key@,
            infer_guard@,
            room as nat,
        ),
    decreases db@.room, 18nat, room, 10nat, 0nat,
{
    let ghost all = types::tys(types@);
    let ghost whole = raw_intersection(
        db@,
        all,
        0,
        None,
        member_key@,
        infer_guard@,
        room as nat,
    );
    let mut result: Option<LuaType> = None;
    let mut i: usize = 0;
    while i < types.len()
        invariant
            i <= types@.len(),
            whole == raw_intersection(
                db@,
                all,
                i as nat,
                types::opt_ty(result),
                member_key@,
                infer_guard@,
                room as nat,
            ),
        decreases types@.len() - i,
    {
        assert(all[i as int] == types@[i as int]@);
        if let Some(LuaType::Never) = &result {
            return Ok(LuaType::Never);
        }
        match infer_raw_member_type_guard(db, &types[i], member_key, infer_guard, room) {
            Ok(t) => {
                let next = match &result {
                    Some(prev) => TypeOps::intersect(prev, &t),
                    None => t,
                };
                result = Some(next);
            },
            Err(InferFailReason::FieldNotFound) => {},
            Err(reason) => {
                return Err(reason);
            },
        }
        i += 1;
    }
    match result {
        Some(t) => Ok(t),
        None => Err(InferFailReason::FieldNotFound),
    }
}

} // verus!
