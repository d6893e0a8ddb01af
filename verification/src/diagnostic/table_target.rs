//! The types against which the fields of a table are checked.

use vstd::prelude::*;

use crate::{db, types};
use crate::db::{DbIndex, DbTy};
use crate::type_check::union;
use crate::type_check::structured::{declared, dispatch};
use crate::type_check::structured::declared::get_alias_origin;
use crate::type_check::structured::dispatch::declared_source_id;
use crate::types::{LuaType, LuaTypeDeclId, LuaUnionType, Ty, UnionTy};

verus! {

/// The type behind aliases, as far as ten of them lead.
pub open spec fn real_type(db: DbTy, t: Ty, room: nat) -> Ty
    decreases room,
{
    match t {
        Ty::Ref(id) => match db::decl_of(db, id) {
            Some(decl) => match decl.alias_ref {
                Some(origin) => if decl.kind is Alias && room > 0 {
                    real_type(db, origin, (room - 1) as nat)
                } else {
                    t
                },
                None => t,
            },
            None => t,
        },
        _ => t,
    }
}

pub open spec fn unaliased(db: DbTy, t: Ty) -> Ty {
    real_type(db, t, 10)
}

fn real_type_within(db: &DbIndex, t: &LuaType, room: usize) -> (r: LuaType)
    ensures
        r@ == real_type(db@, t@, room as nat),
    decreases room,
{
    if let LuaType::Ref(id) = t {
        if let Some(decl) = db.get_type_decl(id) {
            if let Some(origin) = decl.get_alias_ref() {
                if decl.is_alias() && room > 0 {
                    return real_type_within(db, origin, room - 1);
                }
            }
        }
    }
    t.clone()
}

pub fn get_real_type(db: &DbIndex, t: &LuaType) -> (r: LuaType)
    ensures
        r@ == unaliased(db@, t@),
{
    real_type_within(db, t, 10)
}

pub open spec fn is_class_name(db: DbTy, id: Seq<char>) -> bool {
    match db::decl_of(db, id) {
        Some(decl) => decl.kind is Class,
        None => false,
    }
}

fn names_class(db: &DbIndex, id: &LuaTypeDeclId) -> (r: bool)
    ensures
        r == is_class_name(db@, id@),
{
    match db.get_type_decl(id) {
        Some(decl) => decl.is_class(),
        None => false,
    }
}

/// How deep types are looked into: as deep as can be counted.
pub open spec fn target_limit() -> nat {
    usize::MAX as nat
}

/// Missing fields of the type can be told.
pub open spec fn tells_fields(db: DbTy, t: Ty, room: nat) -> bool
    decreases room, 0nat,
{
    match unaliased(db, t) {
        Ty::Object(_) => true,
        Ty::Ref(id) => is_class_name(db, id),
        Ty::Generic(g) => is_class_name(db, g.base),
        Ty::Intersection(types) => room > 0 && some_tells_fields(db, types, (room - 1) as nat),
        _ => false,
    }
}

pub open spec fn some_tells_fields(db: DbTy, types: Seq<Ty>, room: nat) -> bool
    decreases room, 1nat,
{
    exists|i: int| 0 <= i < types.len() && tells_fields(db, #[trigger] types[i], room)
}

fn tells_fields_within(db: &DbIndex, t: &LuaType, room: usize) -> (r: bool)
    ensures
        r == tells_fields(db@, t@, room as nat),
    decreases room, 0nat,
{
    let t = get_real_type(db, t);
    match &t {
        LuaType::Object(_) => true,
        LuaType::Ref(id) => names_class(db, id),
        LuaType::Generic(generic) => {
            assert(generic@.base == generic.base@);
            names_class(db, &generic.base)
        },
        LuaType::Intersection(intersection) => {
            assert(intersection@ == types::tys(intersection.types@));
            room > 0 && any_tells_fields(db, &intersection.types, room - 1)
        },
        _ => false,
    }
}

#[verifier::loop_isolation(false)]
fn any_tells_fields(db: &DbIndex, types: &Vec<LuaType>, room: usize) -> (r: bool)
    ensures
        r == some_tells_fields(db@, types::tys(types@), room as nat),
    decreases room, 1nat,
{
    let ghost all = types::tys(types@);
    let mut i: usize = 0;
    while i < types.len()
        invariant
            i <= types@.len(),
            forall|j: int| 0 <= j < i ==> !tells_fields(db@, #[trigger] all[j], room as nat),
        decreases types@.len() - i,
    {
        assert(all[i as int] == types@[i as int]@);
        if tells_fields_within(db, &types[i], room) {
            return true;
        }
        i += 1;
    }
    false
}

/// Whether missing fields of the type can be told.
pub fn can_check_missing_fields(db: &DbIndex, table_type: &LuaType) -> (r: bool)
    ensures
        r == tells_fields(db@, table_type@, target_limit()),
{
    tells_fields_within(db, table_type, usize::MAX)
}

pub open spec fn ty_is_table(t: Ty) -> bool {
    t is Table || t is TableGeneric || t is TableConst || t is Global || t is Tuple || t is Array
}

/// The fields of a written table can be compared with the type.
pub open spec fn has_fields(db: DbTy, t: Ty, room: nat) -> bool
    decreases room, 0nat,
{
    let t = unaliased(db, t);
    ty_is_table(t) || match t {
        Ty::Object(_) => true,
        Ty::Ref(id) => is_class_name(db, id),
        Ty::Def(id) => is_class_name(db, id),
        Ty::Generic(g) => is_class_name(db, g.base),
        Ty::Intersection(types) => room > 0 && some_has_fields(db, types, (room - 1) as nat),
        Ty::Union(u) => room > 0 && match *u {
            UnionTy::Nullable(x) => has_fields(db, x, (room - 1) as nat),
            UnionTy::Basic(_) => false,
            UnionTy::Multi(types) => union::non_nil(types).len() > 0 && all_have_fields(
                db,
                union::non_nil(types),
                (room - 1) as nat,
            ),
        },
        _ => false,
    }
}

pub open spec fn some_has_fields(db: DbTy, types: Seq<Ty>, room: nat) -> bool
    decreases room, 1nat,
{
    exists|i: int| 0 <= i < types.len() && has_fields(db, #[trigger] types[i], room)
}

pub open spec fn all_have_fields(db: DbTy, types: Seq<Ty>, room: nat) -> bool
    decreases room, 1nat,
{
    forall|i: int| 0 <= i < types.len() ==> has_fields(db, #[trigger] types[i], room)
}

fn list_non_nil(types: &Vec<LuaType>) -> (r: Vec<LuaType>)
    ensures
        types::tys(r@) == union::non_nil(types::tys(types@)),
{
    let ghost all = types::tys(types@);
    let mut r: Vec<LuaType> = Vec::new();
    let mut i: usize = 0;
    proof {
        assert(all.take(0) =~= Seq::<Ty>::empty());
        assert(types::tys(r@) =~= Seq::<Ty>::empty());
    }
    while i < types.len()
        invariant
            i <= types@.len(),
            all == types::tys(types@),
            types::tys(r@) == union::non_nil(all.take(i as int)),
        decreases types@.len() - i,
    {
        proof {
            assert(all.take(i + 1).drop_last() =~= all.take(i as int));
            assert(all.take(i + 1).last() == all[i as int]);
            assert(all[i as int] == types@[i as int]@);
        }
        if !types[i].is_nil() {
            let ghost before = types::tys(r@);
            r.push(types[i].clone());
            assert(types::tys(r@) =~= before.push(all[i as int]));
        }
        i += 1;
    }
    assert(all.take(i as int) =~= all);
    r
}

fn has_fields_within(db: &DbIndex, t: &LuaType, room: usize) -> (r: bool)
    ensures
        r == has_fields(db@, t@, room as nat),
    decreases room, 0nat,
{
    let t = get_real_type(db, t);
    if t.is_table() {
        return true;
    }
    match &t {
        LuaType::Object(_) => true,
        LuaType::Ref(id) => names_class(db, id),
        LuaType::Def(id) => names_class(db, id),
        LuaType::Generic(generic) => {
            assert(generic@.base == generic.base@);
            names_class(db, &generic.base)
        },
        LuaType::Intersection(intersection) => {
            assert(intersection@ == types::tys(intersection.types@));
            room > 0 && any_has_fields(db, &intersection.types, room - 1)
        },
        LuaType::Union(union) => {
            assert(t@ == Ty::Union(Box::new(union@)));
            if room == 0 {
                return false;
            }
            match &**union {
                LuaUnionType::Nullable(x) => {
                    assert(union@ == UnionTy::Nullable(x@));
                    has_fields_within(db, x, room - 1)
                },
                LuaUnionType::Basic(kinds) => {
                    assert(union@ == UnionTy::Basic(kinds@));
                    false
                },
                LuaUnionType::Multi(members) => {
                    assert(union@ == UnionTy::Multi(members@));
                    assert(members@ == types::tys(members.types@));
                    let types = list_non_nil(&members.types);
                    assert(types::tys(types@).len() == types@.len());
                    types.len() > 0 && each_has_fields(db, &types, room - 1)
                },
            }
        },
        _ => false,
    }
}

#[verifier::loop_isolation(false)]
fn any_has_fields(db: &DbIndex, types: &Vec<LuaType>, room: usize) -> (r: bool)
    ensures
        r == some_has_fields(db@, types::tys(types@), room as nat),
    decreases room, 1nat,
{
    let ghost all = types::tys(types@);
    let mut i: usize = 0;
    while i < types.len()
        invariant
            i <= types@.len(),
            forall|j: int| 0 <= j < i ==> !has_fields(db@, #[trigger] all[j], room as nat),
        decreases types@.len() - i,
    {
        assert(all[i as int] == types@[i as int]@);
        if has_fields_within(db, &types[i], room) {
            return true;
        }
        i += 1;
    }
    false
}

#[verifier::loop_isolation(false)]
fn each_has_fields(db: &DbIndex, types: &Vec<LuaType>, room: usize) -> (r: bool)
    ensures
        r == all_have_fields(db@, types::tys(types@), room as nat),
    decreases room, 1nat,
{
    let ghost all = types::tys(types@);
    let mut i: usize = 0;
    while i < types.len()
        invariant
            i <= types@.len(),
            forall|j: int| 0 <= j < i ==> has_fields(db@, #[trigger] all[j], room as nat),
        decreases types@.len() - i,
    {
        assert(all[i as int] == types@[i as int]@);
        if !has_fields_within(db, &types[i], room) {
            return false;
        }
        i += 1;
    }
    true
}

/// Whether the fields of a written table can be compared with the type.
pub fn is_table_field_target(db: &DbIndex, typ: &LuaType) -> (r: bool)
    ensures
        r == has_fields(db@, typ@, target_limit()),
{
    has_fields_within(db, typ, usize::MAX)
}

// ----------------------------------------------------------------------------
// The type that the fields of a written table are compared with.

pub open spec fn real_types(db: DbTy, types: Seq<Ty>) -> Seq<Ty> {
    Seq::new(types.len(), |i: int| unaliased(db, types[i]))
}

pub open spec fn has_list(types: Seq<Ty>) -> bool {
    exists|i: int| 0 <= i < types.len() && (#[trigger] types[i] is Array || types[i] is Tuple)
}

/// The types of a list whose missing fields can be told, or whose fields can be compared.
pub open spec fn chosen_types(db: DbTy, types: Seq<Ty>, telling: bool) -> Seq<Ty>
    decreases types.len(),
{
    if types.len() == 0 {
        Seq::empty()
    } else {
        let front = chosen_types(db, types.drop_last(), telling);
        let t = types.last();
        if (telling && tells_fields(db, t, target_limit())) || (!telling && has_fields(
            db,
            t,
            target_limit(),
        )) {
            front.push(t)
        } else {
            front
        }
    }
}

/// The type of a union that a written table is compared with: the only one that it can be, or all.
pub open spec fn union_target(db: DbTy, whole: Ty, types: Seq<Ty>, is_array: bool) -> Option<Ty> {
    let behind = union::non_nil(real_types(db, types));
    if behind.len() == 0 {
        None
    } else if all_have_fields(db, behind, target_limit()) {
        let telling = chosen_types(db, behind, true);
        if !is_array && has_list(behind) && telling.len() == 1 {
            Some(telling[0])
        } else {
            Some(whole)
        }
    } else if !is_array && chosen_types(db, behind, false).len() == 1 {
        Some(chosen_types(db, behind, false)[0])
    } else {
        None
    }
}

/// The type that the fields of a written table are compared with.
pub open spec fn field_target(db: DbTy, t: Ty, is_array: bool, room: nat) -> Option<Ty>
    decreases room,
{
    let t = unaliased(db, t);
    match t {
        Ty::Union(u) => match *u {
            UnionTy::Nullable(x) => if room > 0 {
                field_target(db, x, is_array, (room - 1) as nat)
            } else {
                None
            },
            UnionTy::Basic(_) => None,
            UnionTy::Multi(types) => union_target(db, t, types, is_array),
        },
        _ => if has_fields(db, t, target_limit()) {
            Some(t)
        } else {
            None
        },
    }
}

fn list_real_types(db: &DbIndex, types: &Vec<LuaType>) -> (r: Vec<LuaType>)
    ensures
        types::tys(r@) == real_types(db@, types::tys(types@)),
{
    let ghost all = types::tys(types@);
    let mut r: Vec<LuaType> = Vec::new();
    let mut i: usize = 0;
    while i < types.len()
        invariant
            i <= types@.len(),
            all == types::tys(types@),
            r@.len() == i,
            forall|j: int| 0 <= j < i ==> (#[trigger] r@[j])@ == unaliased(db@, all[j]),
        decreases types@.len() - i,
    {
        assert(all[i as int] == types@[i as int]@);
        r.push(get_real_type(db, &types[i]));
        i += 1;
    }
    assert(types::tys(r@) =~= real_types(db@, all));
    r
}

fn holds_list(types: &Vec<LuaType>) -> (r: bool)
    ensures
        r == has_list(types::tys(types@)),
{
    let ghost all = types::tys(types@);
    let mut i: usize = 0;
    while i < types.len()
        invariant
            i <= types@.len(),
            all == types::tys(types@),
            forall|j: int| 0 <= j < i ==> !(#[trigger] all[j] is Array || all[j] is Tuple),
        decreases types@.len() - i,
    {
        assert(all[i as int] == types@[i as int]@);
        if matches!(types[i], LuaType::Array(_) | LuaType::Tuple(_)) {
            return true;
        }
        i += 1;
    }
    false
}

fn choose_types(db: &DbIndex, types: &Vec<LuaType>, telling: bool) -> (r: Vec<LuaType>)
    ensures
        types::tys(r@) == chosen_types(db@, types::tys(types@), telling),
{
    let ghost all = types::tys(types@);
    let mut r: Vec<LuaType> = Vec::new();
    let mut i: usize = 0;
    proof {
        assert(all.take(0) =~= Seq::<Ty>::empty());
        assert(types::tys(r@) =~= Seq::<Ty>::empty());
    }
    while i < types.len()
        invariant
            i <= types@.len(),
            all == types::tys(types@),
            types::tys(r@) == chosen_types(db@, all.take(i as int), telling),
        decreases types@.len() - i,
    {
        proof {
            assert(all.take(i + 1).drop_last() =~= all.take(i as int));
            assert(all.take(i + 1).last() == all[i as int]);
            assert(all[i as int] == types@[i as int]@);
        }
        let chosen = if telling {
            can_check_missing_fields(db, &types[i])
        } else {
            is_table_field_target(db, &types[i])
        };
        if chosen {
            let ghost before = types::tys(r@);
            r.push(types[i].clone());
            assert(types::tys(r@) =~= before.push(all[i as int]));
        }
        i += 1;
    }
    assert(all.take(i as int) =~= all);
    r
}

fn get_union_target(db: &DbIndex, whole: &LuaType, types: &Vec<LuaType>, is_array: bool) -> (r:
    Option<LuaType>)
    ensures
        types::opt_ty(r) == union_target(db@, whole@, types::tys(types@), is_array),
{
    let all = list_real_types(db, types);
    let behind = list_non_nil(&all);
    assert(types::tys(behind@).len() == behind@.len());
    if behind.len() == 0 {
        return None;
    }
    if each_has_fields(db, &behind, usize::MAX) {
        if !is_array && holds_list(&behind) {
            let telling = choose_types(db, &behind, true);
            assert(types::tys(telling@).len() == telling@.len());
            if telling.len() == 1 {
                assert(types::tys(telling@)[0] == telling@[0]@);
                return Some(telling[0].clone());
            }
        }
        return Some(whole.clone());
    }
    if !is_array {
        let fitting = choose_types(db, &behind, false);
        assert(types::tys(fitting@).len() == fitting@.len());
        if fitting.len() == 1 {
            assert(types::tys(fitting@)[0] == fitting@[0]@);
            return Some(fitting[0].clone());
        }
    }
    None
}

fn field_target_within(db: &DbIndex, is_array: bool, typ: &LuaType, room: usize) -> (r: Option<
    LuaType,
>)
    ensures
        types::opt_ty(r) == field_target(db@, typ@, is_array, room as nat),
    decreases room,
{
    let t = get_real_type(db, typ);
    if let LuaType::Union(union) = &t {
        assert(t@ == Ty::Union(Box::new(union@)));
        return match &**union {
            LuaUnionType::Nullable(x) => {
                assert(union@ == UnionTy::Nullable(x@));
                if room == 0 {
                    return None;
                }
                field_target_within(db, is_array, x, room - 1)
            },
            LuaUnionType::Basic(kinds) => {
                assert(union@ == UnionTy::Basic(kinds@));
                None
            },
            LuaUnionType::Multi(members) => {
                assert(union@ == UnionTy::Multi(members@));
                assert(members@ == types::tys(members.types@));
                get_union_target(db, &t, &members.types, is_array)
            },
        };
    }
    if is_table_field_target(db, &t) {
        Some(t)
    } else {
        None
    }
}

/// The type that the fields of a written table are compared with.
pub fn get_table_field_target(db: &DbIndex, is_array: bool, typ: &LuaType) -> (r: Option<LuaType>)
    ensures
        types::opt_ty(r) == field_target(db@, typ@, is_array, target_limit()),
{
    field_target_within(db, is_array, typ, usize::MAX)
}

// ----------------------------------------------------------------------------
// Aliases.

/// One step of an alias: the type it stands for, None where that is not known; the type itself where
/// it is no alias.
pub open spec fn alias_step(db: DbTy, t: Ty) -> Option<Option<Ty>> {
    match dispatch::source_name(t) {
        Some(id) => if t is Def {
            None
        } else {
            match db::decl_of(db, id) {
                Some(decl) => if decl.kind is Alias {
                    Some(declared::alias_origin(db, decl, t))
                } else {
                    None
                },
                None => Some(None),
            }
        },
        None => None,
    }
}

/// The type behind all aliases, over at most `room` of them.
pub open spec fn expanded(db: DbTy, t: Ty, room: nat) -> Option<Ty>
    decreases room,
{
    if room == 0 {
        None
    } else {
        match alias_step(db, t) {
            None => Some(t),
            Some(None) => None,
            Some(Some(next)) => expanded(db, next, (room - 1) as nat),
        }
    }
}

pub open spec fn names_alias(db: DbTy, t: Ty) -> bool {
    match t {
        Ty::Ref(id) => is_alias_name(db, id),
        Ty::Generic(g) => is_alias_name(db, g.base),
        _ => false,
    }
}

pub open spec fn is_alias_name(db: DbTy, id: Seq<char>) -> bool {
    match db::decl_of(db, id) {
        Some(decl) => decl.kind is Alias,
        None => false,
    }
}

/// The type behind aliases that fields are compared with.
pub open spec fn expanded_target(db: DbTy, t: Ty) -> Option<Ty> {
    if names_alias(db, t) {
        expanded(db, t, 32)
    } else {
        Some(t)
    }
}

fn take_alias_step(db: &DbIndex, t: &LuaType) -> (r: Option<Option<LuaType>>)
    ensures
        (match r {
            Some(t) => Some(types::opt_ty(t)),
            None => None,
        }) == alias_step(db@, t@),
{
    if let LuaType::Def(_) = t {
        return None;
    }
    match declared_source_id(t) {
        Some(id) => match db.get_type_decl(id) {
            Some(decl) => if decl.is_alias() {
                Some(get_alias_origin(db, decl, t))
            } else {
                None
            },
            None => Some(None),
        },
        None => None,
    }
}

fn expand_within(db: &DbIndex, t: &LuaType, room: usize) -> (r: Option<LuaType>)
    ensures
        types::opt_ty(r) == expanded(db@, t@, room as nat),
    decreases room,
{
    if room == 0 {
        return None;
    }
    match take_alias_step(db, t) {
        None => Some(t.clone()),
        Some(None) => None,
        Some(Some(next)) => expand_within(db, &next, room - 1),
    }
}

/// The type behind aliases that fields are compared with.
pub fn expand_field_check_type(db: &DbIndex, typ: &LuaType) -> (r: Option<LuaType>)
    ensures
        types::opt_ty(r) == expanded_target(db@, typ@),
{
    let needs_expand = match typ {
        LuaType::Ref(id) => match db.get_type_decl(id) {
            Some(decl) => decl.is_alias(),
            None => false,
        },
        LuaType::Generic(generic) => {
            assert(generic@.base == generic.base@);
            match db.get_type_decl(&generic.base) {
                Some(decl) => decl.is_alias(),
                None => false,
            }
        },
        _ => false,
    };
    if !needs_expand {
        return Some(typ.clone());
    }
    expand_within(db, typ, 32)
}

/// A condition lies behind aliases, over at most `room` of them.
pub open spec fn leads_to_condition(db: DbTy, t: Ty, room: nat) -> bool
    decreases room,
{
    room > 0 && match t {
        Ty::Conditional(_) => true,
        _ => match dispatch::source_name(t) {
            Some(id) => match db::decl_of(db, id) {
                Some(decl) => match decl.alias_ref {
                    Some(origin) => decl.kind is Alias && leads_to_condition(
                        db,
                        origin,
                        (room - 1) as nat,
                    ),
                    None => false,
                },
                None => false,
            },
            None => false,
        },
    }
}

fn leads_to_condition_within(db: &DbIndex, t: &LuaType, room: usize) -> (r: bool)
    ensures
        r == leads_to_condition(db@, t@, room as nat),
    decreases room,
{
    if room == 0 {
        return false;
    }
    if let LuaType::Conditional(_) = t {
        return true;
    }
    match declared_source_id(t) {
        Some(id) => match db.get_type_decl(id) {
            Some(decl) => match decl.get_alias_ref() {
                Some(origin) => decl.is_alias() && leads_to_condition_within(db, origin, room - 1),
                None => false,
            },
            None => false,
        },
        None => false,
    }
}

/// Whether a condition lies behind the aliases of a type.
pub fn is_generic_conditional_type(db: &DbIndex, typ: &LuaType) -> (r: bool)
    ensures
        r == leads_to_condition(db@, typ@, 32),
{
    leads_to_condition_within(db, typ, 32)
}

} // verus!
