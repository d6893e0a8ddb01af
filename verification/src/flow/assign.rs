//! What an assignment makes of the type that a variable had.

use vstd::prelude::*;

use crate::{db, types};
use crate::db::{DbIndex, DbTy};
use crate::member::collect;
use crate::member::collect::{SymbolTy, TypeMembers, collect_members, find_members, member_index};
use crate::type_check::{assignable, simple};
use crate::type_check::assignable::is_assignable;
use crate::type_check::structured::declared;
use crate::type_check::structured::declared::is_integer_enum;
use crate::types::{KeyTy, LuaType, LuaUnionType, Ty, UnionTy, complex, equality, predicates};

verus! {

/// A table or an object that is written where it is assigned.
pub open spec fn is_written_table(t: Ty) -> bool {
    t is TableConst || t is Object
}

/// The type tells the value, as far as `room` lists of lines lead.
pub open spec fn tells_value(t: Ty, room: nat) -> bool
    decreases room, t, 0nat,
{
    match t {
        Ty::Nil | Ty::DocBooleanConst(_) => true,
        Ty::Union(u) => match *u {
            UnionTy::Basic(_) => all_nil(complex::union_tys(*u)),
            UnionTy::Nullable(x) => tells_value(x, room),
            UnionTy::Multi(types) => all_tell_value(types, room),
        },
        Ty::MultiLineUnion(lines) => room > 0 && tells_value(
            complex::lines_union(lines),
            (room - 1) as nat,
        ),
        Ty::TypeGuard(x) => tells_value(*x, room),
        _ => predicates::ty_is_const(t) && !(t is TableConst),
    }
}

pub open spec fn all_nil(types: Seq<Ty>) -> bool {
    forall|i: int| 0 <= i < types.len() ==> #[trigger] types[i] is Nil
}

pub open spec fn all_tell_value(types: Seq<Ty>, room: nat) -> bool
    decreases room, types, 1nat,
{
    forall|i: int| 0 <= i < types.len() ==> tells_value(#[trigger] types[i], room)
}

/// The type tells the value.
pub open spec fn is_exact(t: Ty) -> bool {
    tells_value(t, usize::MAX as nat)
}

/// Whether the type of an assigned expression tells its value.
pub fn is_exact_assignment_expr_type(typ: &LuaType) -> (r: bool)
    ensures
        r == is_exact(typ@),
{
    is_exact_within(typ, usize::MAX)
}

fn is_exact_within(typ: &LuaType, room: usize) -> (r: bool)
    ensures
        r == tells_value(typ@, room as nat),
    decreases room, typ, 0nat,
{
    match typ {
        LuaType::Nil => true,
        LuaType::DocBooleanConst(_) => true,
        LuaType::Union(union) => {
            assert(typ@ == Ty::Union(Box::new(union@)));
            match &**union {
                LuaUnionType::Basic(kinds) => {
                    assert(union@ == UnionTy::Basic(kinds@));
                    let types = union.into_vec();
                    is_all_nil(&types)
                },
                LuaUnionType::Nullable(x) => {
                    assert(union@ == UnionTy::Nullable(x@));
                    is_exact_within(x, room)
                },
                LuaUnionType::Multi(members) => {
                    assert(union@ == UnionTy::Multi(members@));
                    assert(members@ == types::tys(members.types@));
                    is_all_exact(&members.types, room)
                },
            }
        },
        LuaType::MultiLineUnion(lines) => {
            if room == 0 {
                return false;
            }
            is_exact_within(&lines.to_union(), room - 1)
        },
        LuaType::TypeGuard(x) => is_exact_within(x, room),
        _ => typ.is_const() && !matches!(typ, LuaType::TableConst(_)),
    }
}

fn is_all_nil(types: &Vec<LuaType>) -> (r: bool)
    ensures
        r == all_nil(types::tys(types@)),
{
    let ghost all = types::tys(types@);
    let mut i: usize = 0;
    while i < types.len()
        invariant
            i <= types@.len(),
            all == types::tys(types@),
            forall|j: int| 0 <= j < i ==> #[trigger] all[j] is Nil,
        decreases types@.len() - i,
    {
        assert(all[i as int] == types@[i as int]@);
        if !types[i].is_nil() {
            return false;
        }
        i += 1;
    }
    true
}

#[verifier::loop_isolation(false)]
fn is_all_exact(types: &Vec<LuaType>, room: usize) -> (r: bool)
    ensures
        r == all_tell_value(types::tys(types@), room as nat),
    decreases room, types, 1nat,
{
    let ghost all = types::tys(types@);
    let mut i: usize = 0;
    while i < types.len()
        invariant
            i <= types@.len(),
            forall|j: int| 0 <= j < i ==> tells_value(#[trigger] all[j], room as nat),
        decreases types@.len() - i,
    {
        assert(all[i as int] == types@[i as int]@);
        if !is_exact_within(&types[i], room) {
            return false;
        }
        i += 1;
    }
    true
}

/// An assigned expression whose type is kept next to what was known before.
pub open spec fn keeps_type(t: Ty) -> bool {
    is_written_table(t) || is_exact(t)
}

pub fn preserves_assignment_expr_type(typ: &LuaType) -> (r: bool)
    ensures
        r == keeps_type(typ@),
{
    matches!(typ, LuaType::TableConst(_) | LuaType::Object(_)) || is_exact_assignment_expr_type(typ)
}

/// A written table fits a type as far as it goes: what it has fits, what it lacks may be added later.
pub open spec fn partly_fits(db: DbTy, source: Ty, expr: Ty, room: nat) -> bool
    decreases room, 0nat,
{
    assignable::fits(db, expr, source) || (is_written_table(expr) && room > 0 && parts_fit(
        db,
        source,
        collect::members_of_type(db, expr),
        (room - 1) as nat,
    ))
}

pub open spec fn parts_fit(
    db: DbTy,
    source: Ty,
    members: Seq<(KeyTy, SymbolTy)>,
    room: nat,
) -> bool
    decreases room, 3nat,
{
    members.len() == 0 || match collect::possible_members(db, source) {
        None => false,
        Some(known) => each_part_fits(db, known, members, room),
    }
}

pub open spec fn each_part_fits(
    db: DbTy,
    known: Seq<(KeyTy, SymbolTy)>,
    members: Seq<(KeyTy, SymbolTy)>,
    room: nat,
) -> bool
    decreases room, 2nat,
{
    forall|i: int| 0 <= i < members.len() ==> part_fits(db, known, #[trigger] members[i], room)
}

pub open spec fn part_fits(
    db: DbTy,
    known: Seq<(KeyTy, SymbolTy)>,
    member: (KeyTy, SymbolTy),
    room: nat,
) -> bool
    decreases room, 1nat,
{
    match collect::find_member(known, member.0) {
        Some(symbol) => partly_fits(db, collect::symbol_type(db, symbol), collect::symbol_type(db, member.1), room),
        None => true,
    }
}

fn is_partly_fitting(db: &DbIndex, source: &LuaType, expr: &LuaType, room: usize) -> (r: bool)
    ensures
        r == partly_fits(db@, source@, expr@, room as nat),
    decreases room, 0nat,
{
    if is_assignable(db, expr, source, None) {
        return true;
    }
    if !matches!(expr, LuaType::TableConst(_) | LuaType::Object(_)) || room == 0 {
        return false;
    }
    let members = collect_members(db, expr);
    assert(collect::member_tys(members@).len() == members@.len());
    if members.len() == 0 {
        return true;
    }
    match find_members(db, source) {
        None => false,
        Some(known) => is_each_part_fitting(db, &known, &members, room - 1),
    }
}

#[verifier::loop_isolation(false)]
fn is_each_part_fitting(
    db: &DbIndex,
    known: &TypeMembers,
    members: &TypeMembers,
    room: usize,
) -> (r: bool)
    ensures
        r == each_part_fits(db@, collect::member_tys(known@), collect::member_tys(members@), room as nat),
    decreases room, 2nat,
{
    let ghost all = collect::member_tys(members@);
    let mut i: usize = 0;
    while i < members.len()
        invariant
            i <= members@.len(),
            forall|j: int|
                0 <= j < i ==> part_fits(
                    db@,
                    collect::member_tys(known@),
                    #[trigger] all[j],
                    room as nat,
                ),
        decreases members@.len() - i,
    {
        assert(all[i as int] == (members@[i as int].0@, members@[i as int].1@));
        let at = member_index(known, &members[i].0);
        if at < known.len() {
            let source = known[at].1.typ(db);
            let expr = members[i].1.typ(db);
            if !is_partly_fitting(db, &source, &expr, room) {
                assert(!part_fits(db@, collect::member_tys(known@), all[i as int], room as nat));
                return false;
            }
        }
        i += 1;
    }
    true
}

/// Whether a written table fits a type as far as it goes.
pub fn is_partial_assignment_expr_compatible(
    db: &DbIndex,
    source_type: &LuaType,
    expr_type: &LuaType,
) -> (r: bool)
    ensures
        r == partly_fits(db@, source_type@, expr_type@, usize::MAX as nat),
{
    is_partly_fitting(db, source_type, expr_type, usize::MAX)
}

/// What was known before the assignment may be narrowed by it. `narrowed` is what narrowing it by
/// the type of the expression leaves.
pub open spec fn is_reusable(db: DbTy, source: Ty, expr: Ty, narrowed: Option<Ty>) -> bool {
    if is_written_table(expr) {
        partly_fits(db, source, expr, usize::MAX as nat)
    } else {
        is_exact(expr) && match narrowed {
            Some(t) => equality::ty_eq(t, expr),
            None => true,
        }
    }
}

pub fn can_reuse_narrowed_assignment_source(
    db: &DbIndex,
    narrowed_source_type: &LuaType,
    expr_type: &LuaType,
    narrowed_expr_type: &Option<LuaType>,
) -> (r: bool)
    ensures
        r == is_reusable(
            db@,
            narrowed_source_type@,
            expr_type@,
            types::opt_ty(*narrowed_expr_type),
        ),
{
    if matches!(expr_type, LuaType::TableConst(_) | LuaType::Object(_)) {
        return is_partial_assignment_expr_compatible(db, narrowed_source_type, expr_type);
    }
    if !is_exact_assignment_expr_type(expr_type) {
        return false;
    }
    match narrowed_expr_type {
        Some(t) => t.same(expr_type),
        None => true,
    }
}

/// The type of a variable after an assignment. `slot` is what narrowing the declared type without
/// false and nil by the type of the expression leaves, `narrowed` the same of the type before.
pub open spec fn assigned_type(
    source: Ty,
    expr: Ty,
    slot: Option<Ty>,
    narrowed: Option<Ty>,
    reuse: bool,
    fallback: Option<Ty>,
) -> Ty {
    if expr is Unknown {
        source
    } else if source is Nil && is_written_table(expr) && slot is Some {
        slot.unwrap()
    } else if reuse || keeps_type(expr) {
        if !(source is Nil) && narrowed is Some {
            narrowed.unwrap()
        } else {
            match fallback {
                Some(t) => t,
                None => expr,
            }
        }
    } else {
        expr
    }
}

pub fn finish_assignment_result(
    source_type: &LuaType,
    expr_type: &LuaType,
    slot: &Option<LuaType>,
    narrowed: &Option<LuaType>,
    reuse_source_narrowing: bool,
    fallback_type: &Option<LuaType>,
) -> (r: LuaType)
    ensures
        r@ == assigned_type(
            source_type@,
            expr_type@,
            types::opt_ty(*slot),
            types::opt_ty(*narrowed),
            reuse_source_narrowing,
            types::opt_ty(*fallback_type),
        ),
{
    if expr_type.is_unknown() {
        return source_type.clone();
    }
    if source_type.is_nil() && matches!(expr_type, LuaType::TableConst(_) | LuaType::Object(_)) {
        if let Some(slot) = slot {
            return slot.clone();
        }
    }
    if !reuse_source_narrowing && !preserves_assignment_expr_type(expr_type) {
        return expr_type.clone();
    }
    if !source_type.is_nil() {
        if let Some(narrowed) = narrowed {
            return narrowed.clone();
        }
    }
    match fallback_type {
        Some(t) => t.clone(),
        None => expr_type.clone(),
    }
}

/// An expression of unknown type changes nothing.
pub proof fn unknown_assignment_keeps_type(
    source: Ty,
    slot: Option<Ty>,
    narrowed: Option<Ty>,
    reuse: bool,
    fallback: Option<Ty>,
)
    ensures
        assigned_type(source, Ty::Unknown, slot, narrowed, reuse, fallback) == source,
{
}

/// The declared type that a variable keeps when flags of an enumeration are assigned to it.
pub open spec fn kept_enum(db: DbTy, declared: Option<Ty>, expr: Ty) -> Option<Ty> {
    match declared {
        Some(t) => match simple::decl_name(t) {
            Some(id) => match db::decl_of(db, id) {
                Some(decl) => match decl.enum_fields {
                    Some(values) => if expr is Integer && decl.kind is Enum && declared::all_integer_values(
                        values,
                    ) {
                        declared
                    } else {
                        None
                    },
                    None => None,
                },
                None => None,
            },
            None => None,
        },
        None => None,
    }
}

pub fn integer_enum_assignment_declared_type(
    db: &DbIndex,
    declared_type: &Option<LuaType>,
    expr_type: &LuaType,
) -> (r: Option<LuaType>)
    ensures
        types::opt_ty(r) == kept_enum(db@, types::opt_ty(*declared_type), expr_type@),
{
    if !matches!(expr_type, LuaType::Integer) {
        return None;
    }
    let declared = match declared_type {
        Some(t) => t,
        None => {
            return None;
        },
    };
    let id = match declared {
        LuaType::Def(id) => id,
        LuaType::Ref(id) => id,
        _ => {
            return None;
        },
    };
    match db.get_type_decl(id) {
        Some(decl) => match &decl.enum_fields {
            Some(values) => if decl.is_enum() && is_integer_enum(values) {
                Some(declared.clone())
            } else {
                None
            },
            None => None,
        },
        None => None,
    }
}

} // verus!
