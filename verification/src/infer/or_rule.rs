//! The type of `a or b`.

use vstd::prelude::*;

use crate::{db, types};
use crate::db::{DbIndex, DbTy, ItemTy, LuaMemberIndexItem, LuaMemberOwner, OwnerTy, TypeOps};
use crate::type_check::{assignable, simple};
use crate::type_check::assignable::is_assignable;
use crate::types::{
    BasicTypeKind, LuaType, LuaTypeDeclId, LuaUnionType, Ty, UnionTy, complex, predicates,
};

verus! {

/// Some member of the declared type has to be given.
pub open spec fn requires_fields(db: DbTy, id: Seq<char>) -> bool {
    any_required(db::items_of(db, OwnerTy::Type(id)))
}

pub open spec fn any_required(items: Seq<ItemTy>) -> bool {
    exists|i: int| 0 <= i < items.len() && is_required_item(#[trigger] items[i])
}

pub open spec fn is_required_item(item: ItemTy) -> bool {
    exists|j: int| 0 <= j < item.types.len() && !predicates::ty_is_optional(#[trigger] item.types[j])
}

fn is_required(item: &LuaMemberIndexItem) -> (r: bool)
    ensures
        r == is_required_item(item@),
{
    let ghost all = types::tys(item.types@);
    assert(item@.types == all);
    let mut j: usize = 0;
    while j < item.types.len()
        invariant
            j <= item.types@.len(),
            all == types::tys(item.types@),
            item@.types == all,
            forall|k: int| 0 <= k < j ==> predicates::ty_is_optional(#[trigger] all[k]),
        decreases item.types@.len() - j,
    {
        assert(all[j as int] == item.types@[j as int]@);
        if !item.types[j].is_optional() {
            assert(!predicates::ty_is_optional(item@.types[j as int]));
            return true;
        }
        j += 1;
    }
    false
}

pub fn has_required_fields(db: &DbIndex, type_decl_id: &LuaTypeDeclId) -> (r: bool)
    ensures
        r == requires_fields(db@, type_decl_id@),
{
    match db.get_owner_members(&LuaMemberOwner::Type(type_decl_id.clone())) {
        Some(members) => {
            let ghost all = db::item_tys(members.items@);
            let mut i: usize = 0;
            while i < members.items.len()
                invariant
                    i <= members.items@.len(),
                    all == db::item_tys(members.items@),
                    all == db::items_of(db@, OwnerTy::Type(type_decl_id@)),
                    forall|j: int| 0 <= j < i ==> !is_required_item(#[trigger] all[j]),
                decreases members.items@.len() - i,
            {
                assert(all[i as int] == members.items@[i as int]@);
                if is_required(&members.items[i]) {
                    return true;
                }
                i += 1;
            }
            false
        },
        None => false,
    }
}

/// A declared type or one of its super types has a member that has to be given.
pub open spec fn requires_any(db: DbTy, id: Seq<char>, room: nat) -> bool
    decreases room, 0nat,
{
    requires_fields(db, id) || (room > 0 && match db::decl_of(db, id) {
        Some(decl) => some_requires(db, decl.super_types, (room - 1) as nat),
        None => false,
    })
}

pub open spec fn some_requires(db: DbTy, types: Seq<Ty>, room: nat) -> bool
    decreases room, 2nat,
{
    exists|i: int| 0 <= i < types.len() && super_requires(db, #[trigger] types[i], room)
}

pub open spec fn super_requires(db: DbTy, t: Ty, room: nat) -> bool
    decreases room, 1nat,
{
    match simple::decl_name(t) {
        Some(id) => requires_any(db, id, room),
        None => false,
    }
}

fn has_any_required(db: &DbIndex, id: &LuaTypeDeclId, room: usize) -> (r: bool)
    ensures
        r == requires_any(db@, id@, room as nat),
    decreases room, 0nat,
{
    if has_required_fields(db, id) {
        return true;
    }
    if room == 0 {
        return false;
    }
    match db.get_type_decl(id) {
        Some(decl) => has_required_super(db, &decl.super_types, room - 1),
        None => false,
    }
}

#[verifier::loop_isolation(false)]
fn has_required_super(db: &DbIndex, types: &Vec<LuaType>, room: usize) -> (r: bool)
    ensures
        r == some_requires(db@, types::tys(types@), room as nat),
    decreases room, 1nat,
{
    let ghost all = types::tys(types@);
    let mut i: usize = 0;
    while i < types.len()
        invariant
            i <= types@.len(),
            forall|j: int| 0 <= j < i ==> !super_requires(db@, #[trigger] all[j], room as nat),
        decreases types@.len() - i,
    {
        assert(all[i as int] == types@[i as int]@);
        let required = match &types[i] {
            LuaType::Ref(id) => has_any_required(db, id, room),
            LuaType::Def(id) => has_any_required(db, id, room),
            _ => false,
        };
        if required {
            assert(super_requires(db@, all[i as int], room as nat));
            return true;
        }
        assert(!super_requires(db@, all[i as int], room as nat));
        i += 1;
    }
    false
}

/// An empty table is a value of the type: no member has to be given. Of a union, one type is enough.
pub open spec fn allows_empty(db: DbTy, t: Ty) -> bool
    decreases t, 0nat,
{
    match t {
        Ty::Table | Ty::TableConst(_) => true,
        Ty::Ref(id) => !requires_any(db, id, db.type_decls.len()),
        Ty::Def(id) => !requires_any(db, id, db.type_decls.len()),
        Ty::Union(u) => match *u {
            UnionTy::Basic(kinds) => kinds.contains(BasicTypeKind::Table),
            UnionTy::Nullable(x) => allows_empty(db, x),
            UnionTy::Multi(types) => some_allows_empty(db, types),
        },
        _ => false,
    }
}

pub open spec fn some_allows_empty(db: DbTy, types: Seq<Ty>) -> bool
    decreases types, 1nat,
{
    exists|i: int| 0 <= i < types.len() && allows_empty(db, #[trigger] types[i])
}

/// Whether an empty table is a value of the type.
pub fn can_empty_table_satisfy_type(db: &DbIndex, ty: &LuaType) -> (r: bool)
    ensures
        r == allows_empty(db@, ty@),
    decreases ty, 0nat,
{
    match ty {
        LuaType::Table => true,
        LuaType::TableConst(_) => true,
        LuaType::Ref(id) => !has_any_required(db, id, db.decl_count()),
        LuaType::Def(id) => !has_any_required(db, id, db.decl_count()),
        LuaType::Union(union) => {
            assert(ty@ == Ty::Union(Box::new(union@)));
            match &**union {
                LuaUnionType::Basic(basic) => {
                    assert(union@ == UnionTy::Basic(basic@));
                    basic.contains(BasicTypeKind::Table)
                },
                LuaUnionType::Nullable(x) => {
                    assert(union@ == UnionTy::Nullable(x@));
                    can_empty_table_satisfy_type(db, x)
                },
                LuaUnionType::Multi(members) => {
                    assert(union@ == UnionTy::Multi(members@));
                    assert(members@ == types::tys(members.types@));
                    let r = can_empty_table_satisfy_any(db, &members.types);
                    assert(r == allows_empty(db@, ty@));
                    r
                },
            }
        },
        _ => false,
    }
}

#[verifier::loop_isolation(false)]
fn can_empty_table_satisfy_any(db: &DbIndex, types: &Vec<LuaType>) -> (r: bool)
    ensures
        r == some_allows_empty(db@, types::tys(types@)),
    decreases types, 1nat,
{
    let ghost all = types::tys(types@);
    let mut i: usize = 0;
    while i < types.len()
        invariant
            i <= types@.len(),
            forall|j: int| 0 <= j < i ==> !allows_empty(db@, #[trigger] all[j]),
        decreases types@.len() - i,
    {
        assert(all[i as int] == types@[i as int]@);
        if can_empty_table_satisfy_type(db, &types[i]) {
            return true;
        }
        i += 1;
    }
    false
}

// ----------------------------------------------------------------------------
// What is left of a value that is neither false nor nil.

/// The type of a value that counts as true.
pub open spec fn truthy_part(t: Ty) -> Option<Ty> {
    match t {
        Ty::Nil => None,
        Ty::BooleanConst(false) => None,
        Ty::DocBooleanConst(false) => None,
        Ty::Boolean => Some(Ty::BooleanConst(true)),
        _ => Some(t),
    }
}

pub open spec fn truthy_parts(types: Seq<Ty>) -> Seq<Ty>
    decreases types.len(),
{
    if types.len() == 0 {
        Seq::empty()
    } else {
        let front = truthy_parts(types.drop_last());
        match truthy_part(types.last()) {
            Some(t) => front.push(t),
            None => front,
        }
    }
}

/// The type without what counts as false.
pub open spec fn truthy_ty(t: Ty) -> Ty {
    match t {
        Ty::Union(u) => predicates::ty_from_list(truthy_parts(complex::union_tys(*u))),
        Ty::MultiLineUnion(lines) => predicates::ty_from_list(truthy_parts(complex::line_types(lines))),
        _ => match truthy_part(t) {
            Some(t) => t,
            None => Ty::Unknown,
        },
    }
}

fn keep_truthy(t: &LuaType) -> (r: Option<LuaType>)
    ensures
        types::opt_ty(r) == truthy_part(t@),
{
    match t {
        LuaType::Nil => None,
        LuaType::BooleanConst(b) => if *b {
            Some(t.clone())
        } else {
            None
        },
        LuaType::DocBooleanConst(b) => if *b {
            Some(t.clone())
        } else {
            None
        },
        LuaType::Boolean => Some(LuaType::BooleanConst(true)),
        _ => Some(t.clone()),
    }
}

fn list_truthy(types: &Vec<LuaType>) -> (r: Vec<LuaType>)
    ensures
        types::tys(r@) == truthy_parts(types::tys(types@)),
{
    let ghost all = types::tys(types@);
    let mut r: Vec<LuaType> = Vec::new();
    let mut i: usize = 0;
    proof {
        assert(all.take(0) =~= Seq::<Ty>::empty());
        assert(types::tys(r@) =~= Seq::<Ty>::empty());
    }
    while i < types.len()
        invariant
            i <= types@.len(),
            all == types::tys(types@),
            types::tys(r@) == truthy_parts(all.take(i as int)),
        decreases types@.len() - i,
    {
        proof {
            assert(all.take(i + 1).drop_last() =~= all.take(i as int));
            assert(all.take(i + 1).last() == all[i as int]);
            assert(all[i as int] == types@[i as int]@);
        }
        if let Some(t) = keep_truthy(&types[i]) {
            let ghost before = types::tys(r@);
            let ghost added = t@;
            r.push(t);
            assert(types::tys(r@) =~= before.push(added));
        }
        i += 1;
    }
    assert(all.take(i as int) =~= all);
    r
}

/// The type of a value that counts as true.
pub fn remove_false_or_nil(t: &LuaType) -> (r: LuaType)
    ensures
        r@ == truthy_ty(t@),
{
    match t {
        LuaType::Union(union) => {
            let types = union.into_vec();
            LuaType::from_vec(list_truthy(&types))
        },
        LuaType::MultiLineUnion(union) => {
            let types = union.iter();
            LuaType::from_vec(list_truthy(&types))
        },
        _ => match keep_truthy(t) {
            Some(t) => t,
            None => LuaType::Unknown,
        },
    }
}

/// What is left of a type of one part where the value counts as false.
pub open spec fn falsy_part(t: Ty) -> Option<Ty> {
    if t is Boolean {
        Some(Ty::BooleanConst(false))
    } else if predicates::ty_is_always_truthy(t) {
        None
    } else {
        Some(t)
    }
}

pub open spec fn falsy_parts(types: Seq<Ty>) -> Seq<Ty>
    decreases types.len(),
{
    if types.len() == 0 {
        Seq::empty()
    } else {
        let front = falsy_parts(types.drop_last());
        match falsy_part(types.last()) {
            Some(t) => front.push(t),
            None => front,
        }
    }
}

pub open spec fn list_or_never(types: Seq<Ty>) -> Ty {
    if types.len() == 0 {
        Ty::Never
    } else {
        predicates::ty_from_list(types)
    }
}

/// The type of what counts as false.
pub open spec fn falsy_ty(t: Ty) -> Ty {
    match t {
        Ty::Union(u) => list_or_never(falsy_parts(complex::union_tys(*u))),
        Ty::MultiLineUnion(lines) => list_or_never(falsy_parts(complex::line_types(lines))),
        _ => match falsy_part(t) {
            Some(t) => t,
            None => Ty::Never,
        },
    }
}

fn keep_falsy(t: &LuaType) -> (r: Option<LuaType>)
    ensures
        types::opt_ty(r) == falsy_part(t@),
{
    if let LuaType::Boolean = t {
        return Some(LuaType::BooleanConst(false));
    }
    if t.is_always_truthy() {
        None
    } else {
        Some(t.clone())
    }
}

fn list_falsy(types: &Vec<LuaType>) -> (r: Vec<LuaType>)
    ensures
        types::tys(r@) == falsy_parts(types::tys(types@)),
{
    let ghost all = types::tys(types@);
    let mut r: Vec<LuaType> = Vec::new();
    let mut i: usize = 0;
    proof {
        assert(all.take(0) =~= Seq::<Ty>::empty());
        assert(types::tys(r@) =~= Seq::<Ty>::empty());
    }
    while i < types.len()
        invariant
            i <= types@.len(),
            all == types::tys(types@),
            types::tys(r@) == falsy_parts(all.take(i as int)),
        decreases types@.len() - i,
    {
        proof {
            assert(all.take(i + 1).drop_last() =~= all.take(i as int));
            assert(all.take(i + 1).last() == all[i as int]);
            assert(all[i as int] == types@[i as int]@);
        }
        if let Some(t) = keep_falsy(&types[i]) {
            let ghost before = types::tys(r@);
            let ghost added = t@;
            r.push(t);
            assert(types::tys(r@) =~= before.push(added));
        }
        i += 1;
    }
    assert(all.take(i as int) =~= all);
    r
}

fn union_or_never(types: Vec<LuaType>) -> (r: LuaType)
    ensures
        r@ == list_or_never(types::tys(types@)),
{
    if types.len() == 0 {
        return LuaType::Never;
    }
    LuaType::from_vec(types)
}

/// The type of a value that counts as false.
pub fn narrow_false_or_nil(t: &LuaType) -> (r: LuaType)
    ensures
        r@ == falsy_ty(t@),
{
    match t {
        LuaType::Union(union) => {
            let types = union.into_vec();
            union_or_never(list_falsy(&types))
        },
        LuaType::MultiLineUnion(union) => {
            let types = union.iter();
            union_or_never(list_falsy(&types))
        },
        _ => match keep_falsy(t) {
            Some(t) => t,
            None => LuaType::Never,
        },
    }
}

/// What `or` yields: the left side if it counts as true, else the right side.
pub open spec fn or_type(left: Ty, right: Ty) -> Ty {
    if predicates::ty_is_always_truthy(left) {
        left
    } else if predicates::ty_is_always_falsy(left) {
        right
    } else {
        db::union_ty(truthy_ty(left), right)
    }
}

pub fn infer_binary_expr_or(left: LuaType, right: LuaType) -> (r: LuaType)
    ensures
        r@ == or_type(left@, right@),
{
    if left.is_always_truthy() {
        return left;
    }
    if left.is_always_falsy() {
        return right;
    }
    TypeOps::union(&remove_false_or_nil(&left), &right)
}

/// A side of `or`, as far as it matters.
#[derive(Debug, Clone, Copy, PartialEq, Eq, Structural)]
pub enum OrSide {
    /// A call that raises an error.
    ErrorCall,
    Call,
    Name,
    Index,
    EmptyTable,
    Table,
    Literal,
    Other,
}

/// What `or` yields in special cases: the right side only makes sure that there is a value.
pub open spec fn special_or(db: DbTy, left: Ty, right: Ty, left_side: OrSide, right_side: OrSide) ->
    Option<Ty> {
    match right_side {
        OrSide::ErrorCall => Some(truthy_ty(left)),
        OrSide::EmptyTable => if assignable::fits(db, Ty::Table, truthy_ty(left)) && allows_empty(
            db,
            truthy_ty(left),
        ) {
            Some(truthy_ty(left))
        } else {
            None
        },
        OrSide::Table => if assignable::fits(db, right, truthy_ty(left)) {
            Some(truthy_ty(left))
        } else {
            None
        },
        OrSide::Literal => if (left_side == OrSide::ErrorCall || left_side == OrSide::Call || left_side
            == OrSide::Name || left_side == OrSide::Index) && !(right is Nil) && !predicates::ty_is_const(left)
            && assignable::fits(db, right, left) {
            Some(truthy_ty(left))
        } else {
            None
        },
        _ => None,
    }
}

pub fn special_or_rule(
    db: &DbIndex,
    left_type: &LuaType,
    right_type: &LuaType,
    left_side: OrSide,
    right_side: OrSide,
) -> (r: Option<LuaType>)
    ensures
        types::opt_ty(r) == special_or(db@, left_type@, right_type@, left_side, right_side),
{
    match right_side {
        OrSide::ErrorCall => Some(remove_false_or_nil(left_type)),
        OrSide::EmptyTable => {
            let left = remove_false_or_nil(left_type);
            if is_assignable(db, &LuaType::Table, &left, None) && can_empty_table_satisfy_type(
                db,
                &left,
            ) {
                Some(left)
            } else {
                None
            }
        },
        OrSide::Table => {
            let left = remove_false_or_nil(left_type);
            if is_assignable(db, right_type, &left, None) {
                Some(left)
            } else {
                None
            }
        },
        OrSide::Literal => {
            if !matches!(
                left_side,
                OrSide::ErrorCall | OrSide::Call | OrSide::Name | OrSide::Index
            ) {
                return None;
            }
            if right_type.is_nil() || left_type.is_const() {
                return None;
            }
            if is_assignable(db, right_type, left_type, None) {
                return Some(remove_false_or_nil(left_type));
            }
            None
        },
        _ => None,
    }
}

} // verus!
