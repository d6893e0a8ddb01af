//! Finding a member by its key.

use vstd::prelude::*;
use vstd::string::*;

use crate::{db, types};
use crate::db::{
    DbIndex, DbTy, ItemTy, LuaMemberIndexItem, LuaMemberOwner, OwnerTy, TypeOps,
    get_buildin_type_map_type_id, item_index,
};
use crate::generic::substitutor::{TypeSubstitutor, instantiate_type_generic};
use crate::infer::keys;
use crate::infer::keys::{
    infer_matching_member_key_type, infer_type_key_member_type, member_key_from_type, push_integer,
};
use crate::member::raw;
use crate::member::raw::{InferFailReason, InferGuard, find_fitting_index};
use crate::type_check::{assignable, entries, simple};
use crate::type_check::assignable::is_assignable;
use crate::type_check::structured::dispatch;
use crate::type_check::structured::dispatch::apply_args;
use crate::type_check::structured::tuple::key_place;
use crate::types::{
    ArrayTy, GenericTy, InFiled, InstanceTy, KeyTy, LuaAliasCallKind, LuaAliasCallType, LuaArrayLen,
    LuaArrayType, LuaGenericType, LuaInstanceType, LuaMemberKey, LuaObjectType, LuaTupleType,
    LuaType, LuaTypeDeclId, ObjectTy, Ty, complex, equality, traverse,
};
use crate::types::complex::clone_types;

verus! {

/// What is looked up: the type of the key, the key, and what the expression tells: whether it is a
/// field of a table that is written, whether the key is an expression, whether that is known to lie
/// within the prefix, and whether the prefix is a parameter that stands for a value of an
/// enumeration.
#[derive(Debug)]
pub struct MemberLookupQuery {
    pub key_type: LuaType,
    pub key: LuaMemberKey,
    pub is_table_field: bool,
    pub is_key_expr: bool,
    pub in_range: bool,
    pub is_enum_param: bool,
}

pub struct LookupTy {
    pub key_type: Ty,
    pub key: KeyTy,
    pub is_table_field: bool,
    pub is_key_expr: bool,
    pub in_range: bool,
    pub is_enum_param: bool,
}

impl View for MemberLookupQuery {
    type V = LookupTy;

    open spec fn view(&self) -> LookupTy {
        LookupTy {
            key_type: self.key_type@,
            key: self.key@,
            is_table_field: self.is_table_field,
            is_key_expr: self.is_key_expr,
            in_range: self.in_range,
            is_enum_param: self.is_enum_param,
        }
    }
}

impl MemberLookupQuery {
    /// Looks up a key of the given type, in an expression that tells nothing.
    pub fn from_key_type(key_type: LuaType) -> (r: Self)
        ensures
            r@ == (LookupTy {
                key_type: key_type@,
                key: keys::key_from_type(key_type@),
                is_table_field: false,
                is_key_expr: false,
                in_range: false,
                is_enum_param: false,
            }),
    {
        let key = member_key_from_type(&key_type);
        MemberLookupQuery {
            key_type,
            key,
            is_table_field: false,
            is_key_expr: false,
            in_range: false,
            is_enum_param: false,
        }
    }
}

// ----------------------------------------------------------------------------
// Types that answer on their own.

pub open spec fn is_exact_key(key: KeyTy) -> bool {
    key is Name || key is Integer
}

pub open spec fn item_answer(item: ItemTy) -> Result<Ty, InferFailReason> {
    match db::item_type(item) {
        Some(t) => Ok(t),
        None => Err(InferFailReason::Unsupported),
    }
}

pub open spec fn or_not_found(t: Option<Ty>) -> Result<Ty, InferFailReason> {
    match t {
        Some(t) => Ok(t),
        None => Err(InferFailReason::FieldNotFound),
    }
}

/// The member of a table: under its key, or under a kind of keys.
pub open spec fn look_table(db: DbTy, range: InFiled, key_type: Ty, key: KeyTy) -> Result<
    Ty,
    InferFailReason,
> {
    let items = db::items_of(db, OwnerTy::Element(range));
    match db::find_item(items, key) {
        Some(item) => item_answer(item),
        None => if is_exact_key(key) {
            Err(InferFailReason::FieldNotFound)
        } else {
            match keys::type_under_keys(db, items, key_type) {
                Some(t) => Ok(t),
                None => or_not_found(keys::type_fitting(db, items, key_type)),
            }
        },
    }
}

pub fn to_not_found(t: Option<LuaType>) -> (r: Result<LuaType, InferFailReason>)
    ensures
        raw::res_ty(r) == or_not_found(types::opt_ty(t)),
{
    match t {
        Some(t) => Ok(t),
        None => Err(InferFailReason::FieldNotFound),
    }
}

fn no_items() -> (r: Vec<LuaMemberIndexItem>)
    ensures
        db::item_tys(r@) == Seq::<ItemTy>::empty(),
{
    let r: Vec<LuaMemberIndexItem> = Vec::new();
    assert(db::item_tys(r@) =~= Seq::<ItemTy>::empty());
    r
}

fn infer_listed_member(
    db: &DbIndex,
    items: &Vec<LuaMemberIndexItem>,
    key_type: &LuaType,
    key: &LuaMemberKey,
) -> (r: Result<LuaType, InferFailReason>)
    ensures
        raw::res_ty(r) == (match db::find_item(db::item_tys(items@), key@) {
            Some(item) => item_answer(item),
            None => if is_exact_key(key@) {
                Err(InferFailReason::FieldNotFound)
            } else {
                match keys::type_under_keys(db@, db::item_tys(items@), key_type@) {
                    Some(t) => Ok(t),
                    None => or_not_found(keys::type_fitting(db@, db::item_tys(items@), key_type@)),
                }
            },
        }),
{
    let at = item_index(items, key);
    if at < items.len() {
        return match items[at].resolve_type() {
            Some(t) => Ok(t),
            None => Err(InferFailReason::Unsupported),
        };
    }
    if matches!(key, LuaMemberKey::Name(_) | LuaMemberKey::Integer(_)) {
        return Err(InferFailReason::FieldNotFound);
    }
    if let Some(t) = infer_type_key_member_type(db, key_type, items) {
        return Ok(t);
    }
    to_not_found(infer_matching_member_key_type(db, items, key_type))
}

pub fn infer_table_member(db: &DbIndex, inst: InFiled, key_type: &LuaType, key: &LuaMemberKey) -> (r:
    Result<LuaType, InferFailReason>)
    ensures
        raw::res_ty(r) == look_table(db@, inst, key_type@, key@),
{
    match db.get_owner_members(&LuaMemberOwner::Element(inst)) {
        Some(members) => infer_listed_member(db, &members.items, key_type, key),
        None => {
            let items = no_items();
            infer_listed_member(db, &items, key_type, key)
        },
    }
}

/// The place in a tuple that an integer stands for.
pub open spec fn tuple_place(i: i64) -> nat {
    if i > 0 {
        entries::machine_index(i) as nat
    } else {
        0
    }
}

/// The element of a tuple. Under any integer it may be each of them, and missing where the integer
/// is not known to lie within.
pub open spec fn look_tuple(types: Seq<Ty>, q: LookupTy) -> Result<Ty, InferFailReason> {
    match q.key {
        KeyTy::Integer(i) => or_not_found(complex::tuple_at(types, tuple_place(i))),
        KeyTy::TypeKey(t) => match *t {
            Ty::IntegerConst(i) => or_not_found(complex::tuple_at(types, tuple_place(i))),
            Ty::Integer => Ok(
                db::union_all_ty(
                    if !q.is_table_field && q.is_key_expr && !q.in_range {
                        types.push(Ty::Nil)
                    } else {
                        types
                    },
                ),
            ),
            _ => Err(InferFailReason::FieldNotFound),
        },
        _ => Err(InferFailReason::FieldNotFound),
    }
}

fn tuple_element_at(tuple: &LuaTupleType, i: i64) -> (r: Result<LuaType, InferFailReason>)
    ensures
        raw::res_ty(r) == or_not_found(complex::tuple_at(tuple@.types, tuple_place(i))),
{
    let index = if i > 0 {
        key_place(i)
    } else {
        0
    };
    match tuple.get_type(index) {
        Some(t) => Ok(t.clone()),
        None => Err(InferFailReason::FieldNotFound),
    }
}

pub fn infer_tuple_member(tuple_type: &LuaTupleType, lookup: &MemberLookupQuery) -> (r: Result<
    LuaType,
    InferFailReason,
>)
    ensures
        raw::res_ty(r) == look_tuple(tuple_type@.types, lookup@),
{
    assert(tuple_type@.types == types::tys(tuple_type.types@));
    match &lookup.key {
        LuaMemberKey::Integer(i) => tuple_element_at(tuple_type, *i),
        LuaMemberKey::TypeKey(t) => match t {
            LuaType::IntegerConst(i) => tuple_element_at(tuple_type, *i),
            LuaType::Integer => {
                let mut types = clone_types(&tuple_type.types);
                if !lookup.is_table_field && lookup.is_key_expr && !lookup.in_range {
                    let ghost before = types::tys(types@);
                    types.push(LuaType::Nil);
                    assert(types::tys(types@) =~= before.push(Ty::Nil));
                }
                Ok(TypeOps::union_all(&types))
            },
            _ => Err(InferFailReason::FieldNotFound),
        },
        _ => Err(InferFailReason::FieldNotFound),
    }
}

/// The member of an object: a field, or the first index that the key fits.
pub open spec fn look_object(db: DbTy, o: ObjectTy, key_type: Ty, key: KeyTy) -> Result<
    Ty,
    InferFailReason,
> {
    match complex::first_field(o.fields, key) {
        Some(t) => Ok(t),
        None => or_not_found(raw::fitting_index(db, key_type, o.index_access)),
    }
}

pub fn infer_object_member(
    db: &DbIndex,
    object_type: &LuaObjectType,
    key_type: &LuaType,
    member_key: &LuaMemberKey,
) -> (r: Result<LuaType, InferFailReason>)
    ensures
        raw::res_ty(r) == look_object(db@, object_type@, key_type@, member_key@),
{
    assert(object_type@.index_access == types::pair_tys(object_type.index_access@));
    if let Some(t) = object_type.get_field(member_key) {
        return Ok(t.clone());
    }
    to_not_found(find_fitting_index(db, key_type, &object_type.index_access))
}

pub open spec fn key_matches(db: DbTy, expected: Ty, actual: Ty) -> bool {
    !(actual is Any) && !(actual is Unknown) && !(actual is TplRef) && !(actual is StrTplRef)
        && assignable::fits(db, actual, expected)
}

pub fn key_type_matches(db: &DbIndex, expected: &LuaType, actual: &LuaType) -> (r: bool)
    ensures
        r == key_matches(db@, expected@, actual@),
{
    !matches!(
        actual,
        LuaType::Any | LuaType::Unknown | LuaType::TplRef(_) | LuaType::StrTplRef(_)
    ) && is_assignable(db, actual, expected, None)
}

/// The element of an array at an index that may lie outside.
pub open spec fn array_fallback(db: DbTy, base: Ty) -> Ty {
    if base is Any || base is Unknown || !db.strict_array_index {
        base
    } else {
        db::union_ty(base, Ty::Nil)
    }
}

pub fn array_member_fallback(db: &DbIndex, base: &LuaType) -> (r: LuaType)
    ensures
        r@ == array_fallback(db@, base@),
{
    if base.is_any() || base.is_unknown() || !db.is_strict_array_index() {
        base.clone()
    } else {
        TypeOps::union(base, &LuaType::Nil)
    }
}

pub open spec fn ty_is_number(t: Ty) -> bool {
    t is Number || t is Integer || t is IntegerConst || t is DocIntegerConst || t is FloatConst
}

pub open spec fn within(len: LuaArrayLen, i: i64) -> bool {
    match len {
        LuaArrayLen::Max(n) => 0 < i && i <= n,
        LuaArrayLen::Unbounded => false,
    }
}

/// The element of an array. It is there within the known length and in a loop over the array.
pub open spec fn look_array(db: DbTy, a: ArrayTy, q: LookupTy) -> Result<Ty, InferFailReason> {
    if q.is_table_field {
        Ok(a.base)
    } else {
        match q.key {
            KeyTy::Integer(i) => Ok(
                if !db.strict_array_index || within(a.len, i) {
                    a.base
                } else {
                    array_fallback(db, a.base)
                },
            ),
            _ => if entries::ty_is_integer(q.key_type) || key_matches(db, Ty::Integer, q.key_type) {
                if simple::integer_value(q.key_type) is Some && within(
                    a.len,
                    simple::integer_value(q.key_type).unwrap(),
                ) {
                    Ok(a.base)
                } else if q.is_key_expr && q.in_range {
                    Ok(a.base)
                } else {
                    Ok(array_fallback(db, a.base))
                }
            } else if ty_is_number(q.key_type) || key_matches(db, Ty::Number, q.key_type) {
                Ok(array_fallback(db, a.base))
            } else {
                Err(InferFailReason::FieldNotFound)
            },
        }
    }
}

fn is_within(len: LuaArrayLen, i: i64) -> (r: bool)
    ensures
        r == within(len, i),
{
    match len {
        LuaArrayLen::Max(n) => 0 < i && i <= n,
        LuaArrayLen::Unbounded => false,
    }
}

pub fn infer_array_member_by_key(
    db: &DbIndex,
    array_type: &LuaArrayType,
    lookup: &MemberLookupQuery,
) -> (r: Result<LuaType, InferFailReason>)
    ensures
        raw::res_ty(r) == look_array(db@, array_type@, lookup@),
{
    assert(array_type@.base == array_type.base@);
    let base = &array_type.base;
    if lookup.is_table_field {
        return Ok(base.clone());
    }
    if let LuaMemberKey::Integer(i) = &lookup.key {
        if !db.is_strict_array_index() || is_within(array_type.len, *i) {
            return Ok(base.clone());
        }
        return Ok(array_member_fallback(db, base));
    }
    let key_type = &lookup.key_type;
    if !(key_type.is_integer() || key_type_matches(db, &LuaType::Integer, key_type)) {
        if key_type.is_number() || key_type_matches(db, &LuaType::Number, key_type) {
            return Ok(array_member_fallback(db, base));
        }
        return Err(InferFailReason::FieldNotFound);
    }
    let constant = match key_type {
        LuaType::IntegerConst(i) => Some(*i),
        LuaType::DocIntegerConst(i) => Some(*i),
        _ => None,
    };
    assert(constant == simple::integer_value(key_type@));
    if let Some(i) = constant {
        if is_within(array_type.len, i) {
            return Ok(base.clone());
        }
    }
    if lookup.is_key_expr && lookup.in_range {
        return Ok(base.clone());
    }
    Ok(array_member_fallback(db, base))
}

pub open spec fn look_table_generic(db: DbTy, params: Seq<Ty>, key_type: Ty) -> Result<
    Ty,
    InferFailReason,
> {
    if params.len() != 2 {
        Err(InferFailReason::Unsupported)
    } else if assignable::fits(db, key_type, params[0]) {
        Ok(params[1])
    } else {
        Err(InferFailReason::FieldNotFound)
    }
}

pub fn infer_table_generic_member_by_key_type(
    db: &DbIndex,
    table_params: &Vec<LuaType>,
    key_type: &LuaType,
) -> (r: Result<LuaType, InferFailReason>)
    ensures
        raw::res_ty(r) == look_table_generic(db@, types::tys(table_params@), key_type@),
{
    assert(types::tys(table_params@).len() == table_params@.len());
    if table_params.len() != 2 {
        return Err(InferFailReason::Unsupported);
    }
    assert(types::tys(table_params@)[0] == table_params@[0]@ && types::tys(table_params@)[1]
        == table_params@[1]@);
    if is_assignable(db, key_type, &table_params[0], None) {
        Ok(table_params[1].clone())
    } else {
        Err(InferFailReason::FieldNotFound)
    }
}

/// A global variable.
pub open spec fn look_global(db: DbTy, key: KeyTy) -> Result<Ty, InferFailReason> {
    match key {
        KeyTy::Name(name) => match db::first_value(db.globals, name) {
            Some(Some(t)) => Ok(t),
            _ => Err(InferFailReason::Unsupported),
        },
        _ => Err(InferFailReason::Unsupported),
    }
}

pub fn infer_global_field_member(db: &DbIndex, key: &LuaMemberKey) -> (r: Result<
    LuaType,
    InferFailReason,
>)
    ensures
        raw::res_ty(r) == look_global(db@, key@),
{
    match key {
        LuaMemberKey::Name(name) => match db.get_global(name) {
            Some(Some(t)) => Ok(t.clone()),
            _ => Err(InferFailReason::Unsupported),
        },
        _ => Err(InferFailReason::Unsupported),
    }
}

pub open spec fn key_text(key: KeyTy) -> Option<Seq<char>> {
    match key {
        KeyTy::Name(name) => Some(name),
        KeyTy::Integer(i) => Some(keys::integer_text(i)),
        _ => None,
    }
}

/// What a namespace holds under a name: a declared type, or a namespace inside it.
pub open spec fn look_namespace(db: DbTy, ns: Seq<char>, key: KeyTy) -> Result<
    Ty,
    InferFailReason,
> {
    match key_text(key) {
        Some(name) => {
            let path = ns + "."@ + name;
            if db::decl_of(db, path) is Some {
                Ok(Ty::Def(path))
            } else {
                Ok(Ty::Namespace(path))
            }
        },
        None => Err(InferFailReason::Unsupported),
    }
}

pub fn infer_namespace_member(db: &DbIndex, ns: &String, key: &LuaMemberKey) -> (r: Result<
    LuaType,
    InferFailReason,
>)
    ensures
        raw::res_ty(r) == look_namespace(db@, ns@, key@),
{
    let mut path = ns.clone();
    path.append(".");
    match key {
        LuaMemberKey::Name(name) => {
            path.append(name.as_str());
        },
        LuaMemberKey::Integer(i) => {
            push_integer(&mut path, *i);
        },
        _ => {
            return Err(InferFailReason::Unsupported);
        },
    }
    let id = LuaTypeDeclId::global(path.as_str());
    if db.get_type_decl(&id).is_some() {
        return Ok(LuaType::Def(id));
    }
    Ok(LuaType::Namespace(path))
}

// ----------------------------------------------------------------------------
// Types that lead to others.

/// How deep a member is looked for.
pub open spec fn look_limit() -> nat {
    usize::MAX as nat
}

/// The member of a type.
pub open spec fn look_member(
    db: DbTy,
    t: Ty,
    q: LookupTy,
    seen: Seq<Seq<char>>,
    room: nat,
) -> Result<Ty, InferFailReason>
    decreases room, 9nat, 0nat,
{
    match t {
        Ty::Table | Ty::Any | Ty::Unknown => Ok(Ty::Any),
        Ty::Nil => Ok(Ty::Never),
        Ty::TableConst(range) => look_table(db, range, q.key_type, q.key),
        Ty::Tuple(x) => look_tuple(x.types, q),
        Ty::Object(o) => look_object(db, *o, q.key_type, q.key),
        Ty::Global => look_global(db, q.key),
        Ty::Namespace(ns) => look_namespace(db, ns, q.key),
        Ty::Array(a) => look_array(db, *a, q),
        Ty::TableGeneric(params) => look_table_generic(db, params, q.key_type),
        _ => if room == 0 {
            Err(InferFailReason::RecursiveInfer)
        } else {
            look_inside(db, t, q, seen, (room - 1) as nat)
        },
    }
}

pub open spec fn look_inside(
    db: DbTy,
    t: Ty,
    q: LookupTy,
    seen: Seq<Seq<char>>,
    room: nat,
) -> Result<Ty, InferFailReason>
    decreases room, 12nat, 0nat,
{
    match t {
        Ty::String | Ty::Io | Ty::StringConst(_) | Ty::DocStringConst(_) | Ty::Language(_) =>
            match db::member_type_name(t) {
                Some(id) => look_declared(db, id, q, seen, room),
                None => Err(InferFailReason::Unsupported),
            },
        Ty::Ref(id) => look_declared(db, id, q, seen, room),
        Ty::Def(id) => look_declared(db, id, q, seen, room),
        Ty::Generic(g) => look_generic(db, *g, q, seen, room),
        Ty::Union(u) => look_union(db, complex::union_tys(*u), q, seen, room),
        Ty::MultiLineUnion(lines) => match complex::lines_union(lines) {
            Ty::Union(u) => look_union(db, complex::union_tys(*u), q, seen, room),
            _ => Err(InferFailReason::FieldNotFound),
        },
        Ty::Intersection(types) => look_intersection(db, types, 0, None, q, seen, room),
        Ty::Instance(x) => look_instance(db, *x, q, seen, room),
        Ty::Call(call) => if call.call_kind is Index && !traverse::holds_tpl(traverse::preorder(t)) && !equality::ty_eq(
            db::evaluated(db, t, Seq::empty()),
            t,
        ) {
            look_member(db, db::evaluated(db, t, Seq::empty()), q, seen, room)
        } else {
            Err(InferFailReason::FieldNotFound)
        },
        Ty::TplRef(tpl) => match tpl.param.constraint {
            Some(constraint) => look_member(db, constraint, q, seen, room),
            None => Err(InferFailReason::Unsupported),
        },
        Ty::ModuleRef(file) => match db::first_value(db.modules, file) {
            Some(Some(export)) => if export is ModuleRef {
                Err(InferFailReason::RecursiveInfer)
            } else {
                look_member(db, export, q, seen, room)
            },
            Some(None) => Err(InferFailReason::NeedResolve(file.id)),
            None => Err(InferFailReason::FieldNotFound),
        },
        _ => Err(InferFailReason::FieldNotFound),
    }
}

/// What a declared type has itself.
pub open spec fn look_own(db: DbTy, id: Seq<char>, q: LookupTy) -> Option<
    Result<Ty, InferFailReason>,
> {
    let items = db::items_of(db, OwnerTy::Type(id));
    match db::find_item(items, q.key) {
        Some(item) => Some(item_answer(item)),
        None => if is_exact_key(q.key) {
            None
        } else {
            match keys::type_under_keys(db, items, q.key_type) {
                Some(t) => Some(Ok(t)),
                None => None,
            }
        },
    }
}

pub open spec fn look_declared(
    db: DbTy,
    id: Seq<char>,
    q: LookupTy,
    seen: Seq<Seq<char>>,
    room: nat,
) -> Result<Ty, InferFailReason>
    decreases room, 11nat, 0nat,
{
    if seen.contains(id) {
        Err(InferFailReason::RecursiveInfer)
    } else {
        match db::decl_of(db, id) {
            None => Err(InferFailReason::Unsupported),
            Some(decl) => if decl.kind is Alias {
                match decl.alias_ref {
                    Some(origin) => look_member(db, origin, q, seen.push(id), room),
                    None => Err(InferFailReason::FieldNotFound),
                }
            } else if q.is_enum_param && decl.kind is Enum {
                Err(InferFailReason::Unsupported)
            } else {
                match look_own(db, id, q) {
                    Some(r) => r,
                    None => if decl.kind is Class {
                        look_inherited(db, decl.super_types, 0, q, seen.push(id), room)
                    } else {
                        Err(InferFailReason::FieldNotFound)
                    },
                }
            },
        }
    }
}

pub open spec fn look_inherited(
    db: DbTy,
    types: Seq<Ty>,
    i: nat,
    q: LookupTy,
    seen: Seq<Seq<char>>,
    room: nat,
) -> Result<Ty, InferFailReason>
    decreases room, 10nat, types.len() - i,
{
    if i >= types.len() {
        Err(InferFailReason::FieldNotFound)
    } else {
        let r = look_member(db, types[i as int], q, seen, room);
        if r == Err::<Ty, InferFailReason>(InferFailReason::FieldNotFound) {
            look_inherited(db, types, i + 1, q, seen, room)
        } else {
            r
        }
    }
}

/// The first member among super types with the arguments filled in.
pub open spec fn look_super_generics(
    db: DbTy,
    types: Seq<Ty>,
    i: nat,
    args: Seq<Ty>,
    q: LookupTy,
    seen: Seq<Seq<char>>,
    room: nat,
) -> Option<Ty>
    decreases room, 10nat, types.len() - i,
{
    if i >= types.len() {
        None
    } else {
        match look_member(db, dispatch::applied(db, types[i as int], args), q, seen, room) {
            Ok(t) => Some(t),
            Err(_) => look_super_generics(db, types, i + 1, args, q, seen, room),
        }
    }
}

/// The member of an applied generic type: of an alias, that of what it stands for; of a class, that of
/// a super type, or its own with the arguments filled in.
pub open spec fn look_generic(
    db: DbTy,
    g: GenericTy,
    q: LookupTy,
    seen: Seq<Seq<char>>,
    room: nat,
) -> Result<Ty, InferFailReason>
    decreases room, 11nat, 1nat,
{
    let inherited = match db::decl_of(db, g.base) {
        Some(decl) => if decl.kind is Class {
            look_super_generics(db, decl.super_types, 0, g.params, q, seen, room)
        } else {
            None
        },
        None => None,
    };
    let origin = match db::decl_of(db, g.base) {
        Some(decl) => if decl.kind is Alias {
            decl.alias_ref
        } else {
            None
        },
        None => None,
    };
    match origin {
        Some(origin) => look_member(db, dispatch::applied(db, origin, g.params), q, seen, room),
        None => match inherited {
            Some(t) => Ok(t),
            None => match look_declared(db, g.base, q, seen, room) {
                Ok(t) => Ok(dispatch::applied(db, t, g.params)),
                Err(reason) => Err(reason),
            },
        },
    }
}

/// The members of the types of a union from type `i` on: what was found and whether one was missing.
pub open spec fn look_members(
    db: DbTy,
    types: Seq<Ty>,
    i: nat,
    found: Seq<Ty>,
    missing: bool,
    met_string: bool,
    q: LookupTy,
    seen: Seq<Seq<char>>,
    room: nat,
) -> (Seq<Ty>, bool)
    decreases room, 10nat, types.len() - i,
{
    if i >= types.len() {
        (found, missing)
    } else {
        let is_string = raw::ty_is_string(types[i as int]);
        if is_string && met_string {
            look_members(db, types, i + 1, found, missing, true, q, seen, room)
        } else {
            match look_member(db, types[i as int], q, seen, room) {
                Ok(t) => look_members(
                    db,
                    types,
                    i + 1,
                    found.push(t),
                    missing,
                    met_string || is_string,
                    q,
                    seen,
                    room,
                ),
                Err(_) => look_members(
                    db,
                    types,
                    i + 1,
                    found,
                    true,
                    met_string || is_string,
                    q,
                    seen,
                    room,
                ),
            }
        }
    }
}

pub open spec fn look_union(
    db: DbTy,
    types: Seq<Ty>,
    q: LookupTy,
    seen: Seq<Seq<char>>,
    room: nat,
) -> Result<Ty, InferFailReason>
    decreases room, 11nat, 0nat,
{
    let (found, missing) = look_members(
        db,
        types,
        0,
        Seq::empty(),
        false,
        false,
        q,
        seen,
        room,
    );
    if found.len() == 0 {
        Err(InferFailReason::FieldNotFound)
    } else if missing {
        Ok(db::union_all_ty(found.push(Ty::Nil)))
    } else {
        Ok(db::union_all_ty(found))
    }
}

pub open spec fn look_intersection(
    db: DbTy,
    types: Seq<Ty>,
    i: nat,
    result: Option<Ty>,
    q: LookupTy,
    seen: Seq<Seq<char>>,
    room: nat,
) -> Result<Ty, InferFailReason>
    decreases room, 10nat, types.len() - i,
{
    if i >= types.len() || result == Some(Ty::Never) {
        or_not_found(result)
    } else {
        match look_member(db, types[i as int], q, seen, room) {
            Ok(t) => look_intersection(
                db,
                types,
                i + 1,
                Some(
                    match result {
                        Some(prev) => db::intersect_ty(prev, t),
                        None => t,
                    },
                ),
                q,
                seen,
                room,
            ),
            Err(InferFailReason::FieldNotFound) => look_intersection(
                db,
                types,
                i + 1,
                result,
                q,
                seen,
                room,
            ),
            Err(reason) => Err(reason),
        }
    }
}

/// The member of an instance: what its type and its table have in common, or that of either.
pub open spec fn look_instance(
    db: DbTy,
    x: InstanceTy,
    q: LookupTy,
    seen: Seq<Seq<char>>,
    room: nat,
) -> Result<Ty, InferFailReason>
    decreases room, 11nat, 0nat,
{
    let table = look_table(db, x.range, q.key_type, q.key);
    match look_member(db, x.base, q, seen, room) {
        Ok(t) => match table {
            Ok(own) => Ok(
                if db::intersect_ty(t, own) is Never {
                    t
                } else {
                    db::intersect_ty(t, own)
                },
            ),
            Err(InferFailReason::FieldNotFound) => Ok(t),
            Err(reason) => Err(reason),
        },
        Err(InferFailReason::FieldNotFound) => table,
        Err(reason) => Err(reason),
    }
}

/// The member of a type.
pub open spec fn looked_up(db: DbTy, t: Ty, q: LookupTy) -> Result<Ty, InferFailReason> {
    look_member(db, t, q, Seq::empty(), look_limit())
}

/// Looks up the member of a type.
pub fn infer_member_by_member_key(
    db: &DbIndex,
    prefix_type: &LuaType,
    lookup: &MemberLookupQuery,
) -> (r: Result<LuaType, InferFailReason>)
    ensures
        raw::res_ty(r) == looked_up(db@, prefix_type@, lookup@),
{
    infer_member_by_lookup(db, prefix_type, lookup, &InferGuard::new(), usize::MAX)
}

fn infer_member_by_lookup(
    db: &DbIndex,
    prefix_type: &LuaType,
    lookup: &MemberLookupQuery,
    infer_guard: &InferGuard,
    room: usize,
) -> (r: Result<LuaType, InferFailReason>)
    ensures
        raw::res_ty(r) == look_member(db@, prefix_type@, lookup@, infer_guard@, room as nat),
    decreases room, 9nat, 0nat,
{
    match prefix_type {
        LuaType::Table => Ok(LuaType::Any),
        LuaType::Any => Ok(LuaType::Any),
        LuaType::Unknown => Ok(LuaType::Any),
        LuaType::Nil => Ok(LuaType::Never),
        LuaType::TableConst(id) => infer_table_member(db, *id, &lookup.key_type, &lookup.key),
        LuaType::Tuple(tuple) => infer_tuple_member(tuple, lookup),
        LuaType::Object(object) => infer_object_member(
            db,
            object,
            &lookup.key_type,
            &lookup.key,
        ),
        LuaType::Global => infer_global_field_member(db, &lookup.key),
        LuaType::Namespace(ns) => infer_namespace_member(db, ns, &lookup.key),
        LuaType::Array(array) => infer_array_member_by_key(db, array, lookup),
        LuaType::TableGeneric(params) => infer_table_generic_member_by_key_type(
            db,
            params,
            &lookup.key_type,
        ),
        _ => {
            if room == 0 {
                return Err(InferFailReason::RecursiveInfer);
            }
            infer_inner_member(db, prefix_type, lookup, infer_guard, room - 1)
        },
    }
}

fn infer_inner_member(
    db: &DbIndex,
    prefix_type: &LuaType,
    lookup: &MemberLookupQuery,
    infer_guard: &InferGuard,
    room: usize,
) -> (r: Result<LuaType, InferFailReason>)
    ensures
        raw::res_ty(r) == look_inside(db@, prefix_type@, lookup@, infer_guard@, room as nat),
    decreases room, 12nat, 0nat,
{
    match prefix_type {
        LuaType::String
        | LuaType::Io
        | LuaType::StringConst(_)
        | LuaType::DocStringConst(_)
        | LuaType::Language(_) => match get_buildin_type_map_type_id(prefix_type) {
            Some(id) => infer_custom_type_member(db, &id, lookup, infer_guard, room),
            None => Err(InferFailReason::Unsupported),
        },
        LuaType::Ref(id) => infer_custom_type_member(db, id, lookup, infer_guard, room),
        LuaType::Def(id) => infer_custom_type_member(db, id, lookup, infer_guard, room),
        LuaType::Generic(generic) => infer_generic_member(db, generic, lookup, infer_guard, room),
        LuaType::Union(union) => {
            let types = union.into_vec();
            infer_union_member(db, &types, lookup, infer_guard, room)
        },
        LuaType::MultiLineUnion(multi_union) => {
            let union = multi_union.to_union();
            if let LuaType::Union(union) = &union {
                let types = union.into_vec();
                return infer_union_member(db, &types, lookup, infer_guard, room);
            }
            Err(InferFailReason::FieldNotFound)
        },
        LuaType::Intersection(intersection) => {
            assert(intersection@ == types::tys(intersection.types@));
            infer_intersection_member(db, &intersection.types, lookup, infer_guard, room)
        },
        LuaType::Instance(inst) => infer_instance_member(db, inst, lookup, infer_guard, room),
        LuaType::Call(call) => infer_call_member(db, call, prefix_type, lookup, infer_guard, room),
        LuaType::TplRef(tpl) => match tpl.get_constraint() {
            Some(constraint) => infer_member_by_lookup(db, constraint, lookup, infer_guard, room),
            None => Err(InferFailReason::Unsupported),
        },
        LuaType::ModuleRef(file_id) => match db.get_module(*file_id) {
            Some(Some(export)) => {
                if export.is_module_ref() {
                    return Err(InferFailReason::RecursiveInfer);
                }
                infer_member_by_lookup(db, export, lookup, infer_guard, room)
            },
            Some(None) => Err(InferFailReason::NeedResolve(file_id.id)),
            None => Err(InferFailReason::FieldNotFound),
        },
        _ => Err(InferFailReason::FieldNotFound),
    }
}

fn infer_call_member(
    db: &DbIndex,
    call: &LuaAliasCallType,
    prefix_type: &LuaType,
    lookup: &MemberLookupQuery,
    infer_guard: &InferGuard,
    room: usize,
) -> (r: Result<LuaType, InferFailReason>)
    requires
        prefix_type@ == Ty::Call(Box::new(call@)),
    ensures
        raw::res_ty(r) == look_inside(db@, prefix_type@, lookup@, infer_guard@, room as nat),
    decreases room, 11nat, 0nat,
{
    if matches!(call.call_kind, LuaAliasCallKind::Index) && !prefix_type.contain_tpl() {
        let resolved = instantiate_type_generic(db, prefix_type, &TypeSubstitutor::new());
        if !resolved.same(prefix_type) {
            return infer_member_by_lookup(db, &resolved, lookup, infer_guard, room);
        }
    }
    Err(InferFailReason::FieldNotFound)
}

fn infer_own_member(db: &DbIndex, id: &LuaTypeDeclId, lookup: &MemberLookupQuery) -> (r: Option<
    Result<LuaType, InferFailReason>,
>)
    ensures
        (match r {
            Some(r) => Some(raw::res_ty(r)),
            None => None,
        }) == look_own(db@, id@, lookup@),
{
    match db.get_owner_members(&LuaMemberOwner::Type(id.clone())) {
        Some(members) => {
            let at = item_index(&members.items, &lookup.key);
            if at < members.items.len() {
                return match members.items[at].resolve_type() {
                    Some(t) => Some(Ok(t)),
                    None => Some(Err(InferFailReason::Unsupported)),
                };
            }
            if matches!(lookup.key, LuaMemberKey::Name(_) | LuaMemberKey::Integer(_)) {
                return None;
            }
            match infer_type_key_member_type(db, &lookup.key_type, &members.items) {
                Some(t) => Some(Ok(t)),
                None => None,
            }
        },
        None => {
            if matches!(lookup.key, LuaMemberKey::Name(_) | LuaMemberKey::Integer(_)) {
                return None;
            }
            let items = no_items();
            match infer_type_key_member_type(db, &lookup.key_type, &items) {
                Some(t) => Some(Ok(t)),
                None => None,
            }
        },
    }
}

fn infer_custom_type_member(
    db: &DbIndex,
    prefix_type_id: &LuaTypeDeclId,
    lookup: &MemberLookupQuery,
    infer_guard: &InferGuard,
    room: usize,
) -> (r: Result<LuaType, InferFailReason>)
    ensures
        raw::res_ty(r) == look_declared(db@, prefix_type_id@, lookup@, infer_guard@, room as nat),
    decreases room, 11nat, 0nat,
{
    let guard = match infer_guard.check(prefix_type_id) {
        Some(guard) => guard,
        None => {
            return Err(InferFailReason::RecursiveInfer);
        },
    };
    let decl = match db.get_type_decl(prefix_type_id) {
        Some(decl) => decl,
        None => {
            return Err(InferFailReason::Unsupported);
        },
    };
    if decl.is_alias() {
        return match decl.get_alias_ref() {
            Some(origin) => infer_member_by_lookup(db, origin, lookup, &guard, room),
            None => Err(InferFailReason::FieldNotFound),
        };
    }
    if lookup.is_enum_param && decl.is_enum() {
        return Err(InferFailReason::Unsupported);
    }
    if let Some(r) = infer_own_member(db, prefix_type_id, lookup) {
        return r;
    }
    if decl.is_class() {
        return infer_super_member(db, &decl.super_types, lookup, &guard, room);
    }
    Err(InferFailReason::FieldNotFound)
}

#[verifier::loop_isolation(false)]
fn infer_super_member(
    db: &DbIndex,
    types: &Vec<LuaType>,
    lookup: &MemberLookupQuery,
    infer_guard: &InferGuard,
    room: usize,
) -> (r: Result<LuaType, InferFailReason>)
    ensures
        raw::res_ty(r) == look_inherited(db@, types::tys(types@), 0, lookup@, infer_guard@, room as nat),
    decreases room, 10nat, 0nat,
{
    let ghost all = types::tys(types@);
    let ghost whole = look_inherited(db@, all, 0, lookup@, infer_guard@, room as nat);
    let mut i: usize = 0;
    while i < types.len()
        invariant
            i <= types@.len(),
            whole == look_inherited(db@, all, i as nat, lookup@, infer_guard@, room as nat),
        decreases types@.len() - i,
    {
        assert(all[i as int] == types@[i as int]@);
        match infer_member_by_lookup(db, &types[i], lookup, infer_guard, room) {
            Ok(t) => {
                return Ok(t);
            },
            Err(InferFailReason::FieldNotFound) => {},
            Err(reason) => {
                return Err(reason);
            },
        }
        i += 1;
    }
    Err(InferFailReason::FieldNotFound)
}

#[verifier::loop_isolation(false)]
fn infer_generic_members_from_super_generics(
    db: &DbIndex,
    types: &Vec<LuaType>,
    args: &Vec<LuaType>,
    lookup: &MemberLookupQuery,
    infer_guard: &InferGuard,
    room: usize,
) -> (r: Option<LuaType>)
    ensures
        types::opt_ty(r) == look_super_generics(
            db@,
            types::tys(types@),
            0,
            types::tys(args@),
            lookup@,
            infer_guard@,
            room as nat,
        ),
    decreases room, 10nat, 0nat,
{
    let ghost all = types::tys(types@);
    let ghost whole = look_super_generics(
        db@,
        all,
        0,
        types::tys(args@),
        lookup@,
        infer_guard@,
        room as nat,
    );
    let mut i: usize = 0;
    while i < types.len()
        invariant
            i <= types@.len(),
            whole == look_super_generics(
                db@,
                all,
                i as nat,
                types::tys(args@),
                lookup@,
                infer_guard@,
                room as nat,
            ),
        decreases types@.len() - i,
    {
        assert(all[i as int] == types@[i as int]@);
        let super_type = apply_args(db, &types[i], args);
        if let Ok(t) = infer_member_by_lookup(db, &super_type, lookup, infer_guard, room) {
            return Some(t);
        }
        i += 1;
    }
    None
}

fn infer_generic_member(
    db: &DbIndex,
    generic: &LuaGenericType,
    lookup: &MemberLookupQuery,
    infer_guard: &InferGuard,
    room: usize,
) -> (r: Result<LuaType, InferFailReason>)
    ensures
        raw::res_ty(r) == look_generic(db@, generic@, lookup@, infer_guard@, room as nat),
    decreases room, 11nat, 1nat,
{
    assert(generic@.base == generic.base@ && generic@.params == types::tys(generic.params@));
    if let Some(decl) = db.get_type_decl(&generic.base) {
        if decl.is_alias() {
            if let Some(origin) = decl.get_alias_ref() {
                let origin = apply_args(db, origin, &generic.params);
                return infer_member_by_lookup(db, &origin, lookup, infer_guard, room);
            }
        }
        if decl.is_class() {
            if let Some(t) = infer_generic_members_from_super_generics(
                db,
                &decl.super_types,
                &generic.params,
                lookup,
                infer_guard,
                room,
            ) {
                return Ok(t);
            }
        }
    }
    match infer_custom_type_member(db, &generic.base, lookup, infer_guard, room) {
        Ok(t) => Ok(apply_args(db, &t, &generic.params)),
        Err(reason) => Err(reason),
    }
}

fn infer_instance_member(
    db: &DbIndex,
    inst: &LuaInstanceType,
    lookup: &MemberLookupQuery,
    infer_guard: &InferGuard,
    room: usize,
) -> (r: Result<LuaType, InferFailReason>)
    ensures
        raw::res_ty(r) == look_instance(db@, inst@, lookup@, infer_guard@, room as nat),
    decreases room, 11nat, 0nat,
{
    assert(inst@.base == inst.base@);
    let table = infer_table_member(db, inst.range, &lookup.key_type, &lookup.key);
    match infer_member_by_lookup(db, &inst.base, lookup, infer_guard, room) {
        Ok(t) => match table {
            Ok(own) => {
                let common = TypeOps::intersect(&t, &own);
                if common.is_never() {
                    Ok(t)
                } else {
                    Ok(common)
                }
            },
            Err(InferFailReason::FieldNotFound) => Ok(t),
            Err(reason) => Err(reason),
        },
        Err(InferFailReason::FieldNotFound) => table,
        Err(reason) => Err(reason),
    }
}

#[verifier::loop_isolation(false)]
fn infer_union_member(
    db: &DbIndex,
    types: &Vec<LuaType>,
    lookup: &MemberLookupQuery,
    infer_guard: &InferGuard,
    room: usize,
) -> (r: Result<LuaType, InferFailReason>)
    ensures
        raw::res_ty(r) == look_union(db@, types::tys(types@), lookup@, infer_guard@, room as nat),
    decreases room, 11nat, 0nat,
{
    let ghost all = types::tys(types@);
    let ghost whole = look_members(
        db@,
        all,
        0,
        Seq::empty(),
        false,
        false,
        lookup@,
        infer_guard@,
        room as nat,
    );
    let mut member_types: Vec<LuaType> = Vec::new();
    let mut has_missing_member = false;
    let mut meet_string = false;
    let mut i: usize = 0;
    assert(types::tys(member_types@) =~= Seq::<Ty>::empty());
    while i < types.len()
        invariant
            i <= types@.len(),
            whole == look_members(
                db@,
                all,
                i as nat,
                types::tys(member_types@),
                has_missing_member,
                meet_string,
                lookup@,
                infer_guard@,
                room as nat,
            ),
        decreases types@.len() - i,
    {
        let sub_type = &types[i];
        assert(all[i as int] == sub_type@);
        let is_string = sub_type.is_string();
        if !(is_string && meet_string) {
            match infer_member_by_lookup(db, sub_type, lookup, infer_guard, room) {
                Ok(t) => {
                    let ghost before = types::tys(member_types@);
                    let ghost added = t@;
                    member_types.push(t);
                    assert(types::tys(member_types@) =~= before.push(added));
                },
                Err(_) => {
                    has_missing_member = true;
                },
            }
            meet_string = meet_string || is_string;
        }
        i += 1;
    }
    assert(types::tys(member_types@).len() == member_types@.len());
    if member_types.len() == 0 {
        return Err(InferFailReason::FieldNotFound);
    }
    if has_missing_member {
        let ghost before = types::tys(member_types@);
        member_types.push(LuaType::Nil);
        assert(types::tys(member_types@) =~= before.push(Ty::Nil));
    }
    Ok(TypeOps::union_all(&member_types))
}

#[verifier::loop_isolation(false)]
fn infer_intersection_member(
    db: &DbIndex,
    types: &Vec<LuaType>,
    lookup: &MemberLookupQuery,
    infer_guard: &InferGuard,
    room: usize,
) -> (r: Result<LuaType, InferFailReason>)
    ensures
        raw::res_ty(r) == look_intersection(
            db@,
            types::tys(types@),
            0,
            None,
            lookup@,
            infer_guard@,
            room as nat,
        ),
    decreases room, 10nat, 0nat,
{
    let ghost all = types::tys(types@);
    let ghost whole = look_intersection(
        db@,
        all,
        0,
        None,
        lookup@,
        infer_guard@,
        room as nat,
    );
    let mut result: Option<LuaType> = None;
    let mut i: usize = 0;
    while i < types.len()
        invariant
            i <= types@.len(),
            whole == look_intersection(
                db@,
                all,
                i as nat,
                types::opt_ty(result),
                lookup@,
                infer_guard@,
                room as nat,
            ),
        decreases types@.len() - i,
    {
        assert(all[i as int] == types@[i as int]@);
        if let Some(LuaType::Never) = &result {
            return Ok(LuaType::Never);
        }
        match infer_member_by_lookup(db, &types[i], lookup, infer_guard, room) {
            Ok(t) => {
                let next = match &result {
                    Some(prev) => TypeOps::intersect(prev, &t),
                    None => t,
                };
                result = Some(next);
            },
            Err(InferFailReason::FieldNotFound) => {},
            Err(reason) => {
                return Err(reason);
            },
        }
        i += 1;
    }
    to_not_found(result)
}

} // verus!
