//! Indexing where there is no member.

use vstd::prelude::*;

use crate::{db, types};
use crate::db::{DbIndex, DbTy, TypeOps};
use crate::infer::{keys, lookup};
use crate::infer::keys::member_key_from_type;
use crate::infer::lookup::{
    LookupTy, MemberLookupQuery, array_member_fallback, infer_member_by_member_key,
    infer_object_member, infer_table_generic_member_by_key_type, infer_table_member, to_not_found,
};
use crate::member::raw;
use crate::member::raw::{InferFailReason, InferGuard, find_fitting_index};
use crate::type_check::assignable;
use crate::type_check::assignable::is_assignable;
use crate::type_check::structured::dispatch;
use crate::type_check::structured::dispatch::apply_args;
use crate::types::{GenericTy, InFiled, LuaGenericType, LuaType, LuaTypeDeclId, Ty, complex};

verus! {

/// The first operator that the key fits whose result is not nil, with the arguments filled in.
pub open spec fn fitting_operator(
    db: DbTy,
    key: Ty,
    operators: Seq<(Ty, Ty)>,
    args: Seq<Ty>,
) -> Option<Ty>
    decreases operators.len(),
{
    if operators.len() == 0 {
        None
    } else if assignable::fits(db, key, dispatch::applied(db, operators[0].0, args)) && !(dispatch::applied(
        db,
        operators[0].1,
        args,
    ) is Nil) {
        Some(dispatch::applied(db, operators[0].1, args))
    } else {
        fitting_operator(db, key, operators.skip(1), args)
    }
}

fn find_fitting_operator(
    db: &DbIndex,
    key: &LuaType,
    operators: &Vec<(LuaType, LuaType)>,
    args: &Vec<LuaType>,
) -> (r: Option<LuaType>)
    ensures
        types::opt_ty(r) == fitting_operator(db@, key@, types::pair_tys(operators@), types::tys(args@)),
{
    let ghost all = types::pair_tys(operators@);
    let mut i: usize = 0;
    assert(all.skip(0) =~= all);
    while i < operators.len()
        invariant
            i <= operators@.len(),
            all == types::pair_tys(operators@),
            fitting_operator(db@, key@, all, types::tys(args@)) == fitting_operator(
                db@,
                key@,
                all.skip(i as int),
                types::tys(args@),
            ),
        decreases operators@.len() - i,
    {
        let (operand, result) = &operators[i];
        proof {
            assert(all.skip(i as int)[0] == all[i as int]);
            assert(all[i as int] == (operand@, result@));
            assert(all.skip(i as int).skip(1) =~= all.skip(i + 1));
        }
        let operand = apply_args(db, operand, args);
        let result = apply_args(db, result, args);
        if is_assignable(db, key, &operand, None) && !result.is_nil() {
            return Some(result);
        }
        i += 1;
    }
    None
}

/// What indexing a type yields by its operators.
pub open spec fn operate(db: DbTy, t: Ty, key: Ty, seen: Seq<Seq<char>>, room: nat) -> Result<
    Ty,
    InferFailReason,
>
    decreases room, 9nat, 0nat,
{
    match t {
        Ty::TableConst(range) => match db::first_value(db.metatables, range) {
            Some(operators) => lookup::or_not_found(raw::fitting_index(db, key, operators)),
            None => lookup::look_table(db, range, key, keys::key_from_type(key)),
        },
        Ty::Array(a) => if lookup::ty_is_number(key) {
            Ok(lookup::array_fallback(db, a.base))
        } else {
            Err(InferFailReason::FieldNotFound)
        },
        Ty::Object(o) => lookup::look_object(db, *o, key, keys::key_from_type(key)),
        Ty::TableGeneric(params) => lookup::look_table_generic(db, params, key),
        _ => if room == 0 {
            Err(InferFailReason::RecursiveInfer)
        } else {
            operate_inside(db, t, key, seen, (room - 1) as nat)
        },
    }
}

pub open spec fn operate_inside(
    db: DbTy,
    t: Ty,
    key: Ty,
    seen: Seq<Seq<char>>,
    room: nat,
) -> Result<Ty, InferFailReason>
    decreases room, 12nat, 0nat,
{
    match t {
        Ty::Ref(id) => operate_declared(db, id, key, seen, room),
        Ty::Def(id) => operate_declared(db, id, key, seen, room),
        Ty::Union(u) => operate_union(db, complex::union_tys(*u), 0, Seq::empty(), key, seen, room),
        Ty::Intersection(types) => operate_intersection(db, types, 0, None, key, seen, room),
        Ty::Generic(g) => operate_generic(db, *g, key, seen, room),
        Ty::Instance(x) => operate(db, x.base, key, seen, room),
        Ty::ModuleRef(file) => match db::first_value(db.modules, file) {
            Some(Some(export)) => operate(db, export, key, seen, room),
            Some(None) => Err(InferFailReason::NeedResolve(file.id)),
            None => Err(InferFailReason::FieldNotFound),
        },
        _ => Err(InferFailReason::FieldNotFound),
    }
}

pub open spec fn operate_declared(
    db: DbTy,
    id: Seq<char>,
    key: Ty,
    seen: Seq<Seq<char>>,
    room: nat,
) -> Result<Ty, InferFailReason>
    decreases room, 11nat, 0nat,
{
    if seen.contains(id) {
        Err(InferFailReason::RecursiveInfer)
    } else {
        match db::decl_of(db, id) {
            None => Err(InferFailReason::Unsupported),
            Some(decl) => if decl.kind is Alias {
                match decl.alias_ref {
                    Some(origin) => operate(db, origin, key, seen.push(id), room),
                    None => Err(InferFailReason::Unsupported),
                }
            } else {
                match raw::fitting_index(db, key, decl.index_operators) {
                    Some(t) => Ok(t),
                    None => if decl.kind is Class {
                        operate_inherited(
                            db,
                            decl.super_types,
                            0,
                            Seq::empty(),
                            key,
                            seen.push(id),
                            room,
                        )
                    } else {
                        Err(InferFailReason::FieldNotFound)
                    },
                }
            },
        }
    }
}

/// What the super types yield, from type `i` on, with the arguments filled in.
pub open spec fn operate_inherited(
    db: DbTy,
    types: Seq<Ty>,
    i: nat,
    args: Seq<Ty>,
    key: Ty,
    seen: Seq<Seq<char>>,
    room: nat,
) -> Result<Ty, InferFailReason>
    decreases room, 10nat, types.len() - i,
{
    if i >= types.len() {
        Err(InferFailReason::FieldNotFound)
    } else {
        let r = operate(db, dispatch::applied(db, types[i as int], args), key, seen, room);
        if r == Err::<Ty, InferFailReason>(InferFailReason::FieldNotFound) {
            operate_inherited(db, types, i + 1, args, key, seen, room)
        } else {
            r
        }
    }
}

pub open spec fn operate_generic(
    db: DbTy,
    g: GenericTy,
    key: Ty,
    seen: Seq<Seq<char>>,
    room: nat,
) -> Result<Ty, InferFailReason>
    decreases room, 11nat, 0nat,
{
    match db::decl_of(db, g.base) {
        None => Err(InferFailReason::Unsupported),
        Some(decl) => if decl.kind is Alias {
            match decl.alias_ref {
                Some(origin) => operate(db, dispatch::applied(db, origin, g.params), key, seen, room),
                None => Err(InferFailReason::Unsupported),
            }
        } else {
            match fitting_operator(db, key, decl.index_operators, g.params) {
                Some(t) => Ok(t),
                None => operate_inherited(db, decl.super_types, 0, g.params, key, seen, room),
            }
        },
    }
}

/// What the types of a union yield, from type `i` on.
pub open spec fn operate_union(
    db: DbTy,
    types: Seq<Ty>,
    i: nat,
    found: Seq<Ty>,
    key: Ty,
    seen: Seq<Seq<char>>,
    room: nat,
) -> Result<Ty, InferFailReason>
    decreases room, 10nat, types.len() - i,
{
    if i >= types.len() {
        if found.len() == 0 {
            Err(InferFailReason::FieldNotFound)
        } else {
            Ok(db::union_all_ty(found))
        }
    } else {
        match operate(db, types[i as int], key, seen, room) {
            Ok(t) => operate_union(db, types, i + 1, found.push(t), key, seen, room),
            Err(InferFailReason::FieldNotFound) => operate_union(
                db,
                types,
                i + 1,
                found,
                key,
                seen,
                room,
            ),
            Err(reason) => Err(reason),
        }
    }
}

pub open spec fn operate_intersection(
    db: DbTy,
    types: Seq<Ty>,
    i: nat,
    result: Option<Ty>,
    key: Ty,
    seen: Seq<Seq<char>>,
    room: nat,
) -> Result<Ty, InferFailReason>
    decreases room, 10nat, types.len() - i,
{
    if i >= types.len() || result == Some(Ty::Never) {
        lookup::or_not_found(result)
    } else {
        match operate(db, types[i as int], key, seen, room) {
            Ok(t) => operate_intersection(
                db,
                types,
                i + 1,
                Some(
                    match result {
                        Some(prev) => db::intersect_ty(prev, t),
                        None => t,
                    },
                ),
                key,
                seen,
                room,
            ),
            Err(InferFailReason::FieldNotFound) => operate_intersection(
                db,
                types,
                i + 1,
                result,
                key,
                seen,
                room,
            ),
            Err(reason) => Err(reason),
        }
    }
}

/// The member of a type; where there is none, what indexing yields.
pub open spec fn member_or_index(db: DbTy, t: Ty, q: LookupTy) -> Result<Ty, InferFailReason> {
    match lookup::looked_up(db, t, q) {
        Err(InferFailReason::FieldNotFound) => operate(
            db,
            t,
            q.key_type,
            Seq::empty(),
            lookup::look_limit(),
        ),
        other => other,
    }
}

/// A member is found without a look at operators.
pub proof fn member_goes_before_index(db: DbTy, t: Ty, q: LookupTy)
    requires
        lookup::looked_up(db, t, q) is Ok,
    ensures
        member_or_index(db, t, q) == lookup::looked_up(db, t, q),
{
}

/// Looks up the member of a type; where there is none, what indexing yields.
pub fn infer_member(db: &DbIndex, prefix_type: &LuaType, lookup: &MemberLookupQuery) -> (r: Result<
    LuaType,
    InferFailReason,
>)
    ensures
        raw::res_ty(r) == member_or_index(db@, prefix_type@, lookup@),
{
    match infer_member_by_member_key(db, prefix_type, lookup) {
        Err(InferFailReason::FieldNotFound) => infer_member_by_operator_key_type(
            db,
            prefix_type,
            &lookup.key_type,
            &InferGuard::new(),
            usize::MAX,
        ),
        Ok(t) => Ok(t),
        Err(reason) => Err(reason),
    }
}

/// Looks up the member of a type under a key of the given type.
pub fn infer_member_by_key_type(db: &DbIndex, prefix_type: &LuaType, key_type: &LuaType) -> (r:
    Result<LuaType, InferFailReason>)
    ensures
        raw::res_ty(r) == lookup::looked_up(
            db@,
            prefix_type@,
            (LookupTy {
                key_type: key_type@,
                key: keys::key_from_type(key_type@),
                is_table_field: false,
                is_key_expr: false,
                in_range: false,
                is_enum_param: false,
            }),
        ),
{
    let lookup = MemberLookupQuery::from_key_type(key_type.clone());
    infer_member_by_member_key(db, prefix_type, &lookup)
}

fn infer_member_by_index_table(db: &DbIndex, range: InFiled, key_type: &LuaType) -> (r: Result<
    LuaType,
    InferFailReason,
>)
    ensures
        raw::res_ty(r) == (match db::first_value(db@.metatables, range) {
            Some(operators) => lookup::or_not_found(raw::fitting_index(db@, key_type@, operators)),
            None => lookup::look_table(db@, range, key_type@, keys::key_from_type(key_type@)),
        }),
{
    match db.get_metatable(range) {
        Some(operators) => to_not_found(find_fitting_index(db, key_type, operators)),
        None => {
            let key = member_key_from_type(key_type);
            infer_table_member(db, range, key_type, &key)
        },
    }
}

fn infer_member_by_operator_key_type(
    db: &DbIndex,
    prefix_type: &LuaType,
    key_type: &LuaType,
    infer_guard: &InferGuard,
    room: usize,
) -> (r: Result<LuaType, InferFailReason>)
    ensures
        raw::res_ty(r) == operate(db@, prefix_type@, key_type@, infer_guard@, room as nat),
    decreases room, 9nat, 0nat,
{
    match prefix_type {
        LuaType::TableConst(range) => infer_member_by_index_table(db, *range, key_type),
        LuaType::Array(array) => {
            assert(array@.base == array.base@);
            if key_type.is_number() {
                Ok(array_member_fallback(db, &array.base))
            } else {
                Err(InferFailReason::FieldNotFound)
            }
        },
        LuaType::Object(object) => {
            let key = member_key_from_type(key_type);
            infer_object_member(db, object, key_type, &key)
        },
        LuaType::TableGeneric(params) => infer_table_generic_member_by_key_type(
            db,
            params,
            key_type,
        ),
        _ => {
            if room == 0 {
                return Err(InferFailReason::RecursiveInfer);
            }
            infer_member_by_inner_operator(db, prefix_type, key_type, infer_guard, room - 1)
        },
    }
}

fn infer_member_by_inner_operator(
    db: &DbIndex,
    prefix_type: &LuaType,
    key_type: &LuaType,
    infer_guard: &InferGuard,
    room: usize,
) -> (r: Result<LuaType, InferFailReason>)
    ensures
        raw::res_ty(r) == operate_inside(db@, prefix_type@, key_type@, infer_guard@, room as nat),
    decreases room, 12nat, 0nat,
{
    match prefix_type {
        LuaType::Ref(id) => infer_member_by_index_custom_type(
            db,
            id,
            key_type,
            infer_guard,
            room,
        ),
        LuaType::Def(id) => infer_member_by_index_custom_type(
            db,
            id,
            key_type,
            infer_guard,
            room,
        ),
        LuaType::Union(union) => {
            let types = union.into_vec();
            infer_member_by_index_union(db, &types, key_type, infer_guard, room)
        },
        LuaType::Intersection(intersection) => {
            assert(intersection@ == types::tys(intersection.types@));
            infer_member_by_index_intersection(
                db,
                &intersection.types,
                key_type,
                infer_guard,
                room,
            )
        },
        LuaType::Generic(generic) => infer_member_by_index_generic(
            db,
            generic,
            key_type,
            infer_guard,
            room,
        ),
        LuaType::Instance(inst) => {
            assert(inst@.base == inst.base@);
            infer_member_by_operator_key_type(db, &inst.base, key_type, infer_guard, room)
        },
        LuaType::ModuleRef(file_id) => match db.get_module(*file_id) {
            Some(Some(export)) => infer_member_by_operator_key_type(
                db,
                export,
                key_type,
                infer_guard,
                room,
            ),
            Some(None) => Err(InferFailReason::NeedResolve(file_id.id)),
            None => Err(InferFailReason::FieldNotFound),
        },
        _ => Err(InferFailReason::FieldNotFound),
    }
}

fn infer_member_by_index_custom_type(
    db: &DbIndex,
    prefix_type_id: &LuaTypeDeclId,
    key_type: &LuaType,
    infer_guard: &InferGuard,
    room: usize,
) -> (r: Result<LuaType, InferFailReason>)
    ensures
        raw::res_ty(r) == operate_declared(
            db@,
            prefix_type_id@,
            key_type@,
            infer_guard@,
            room as nat,
        ),
    decreases room, 11nat, 0nat,
{
    let guard = match infer_guard.check(prefix_type_id) {
        Some(guard) => guard,
        None => {
            return Err(InferFailReason::RecursiveInfer);
        },
    };
    let decl = match db.get_type_decl(prefix_type_id) {
        Some(decl) => decl,
        None => {
            return Err(InferFailReason::Unsupported);
        },
    };
    if decl.is_alias() {
        return match decl.get_alias_ref() {
            Some(origin) => infer_member_by_operator_key_type(db, origin, key_type, &guard, room),
            None => Err(InferFailReason::Unsupported),
        };
    }
    if let Some(t) = find_fitting_index(db, key_type, &decl.index_operators) {
        return Ok(t);
    }
    if decl.is_class() {
        let args: Vec<LuaType> = Vec::new();
        assert(types::tys(args@) =~= Seq::<Ty>::empty());
        return infer_member_by_super_operator(
            db,
            &decl.super_types,
            &args,
            key_type,
            &guard,
            room,
        );
    }
    Err(InferFailReason::FieldNotFound)
}

#[verifier::loop_isolation(false)]
fn infer_member_by_super_operator(
    db: &DbIndex,
    types: &Vec<LuaType>,
    args: &Vec<LuaType>,
    key_type: &LuaType,
    infer_guard: &InferGuard,
    room: usize,
) -> (r: Result<LuaType, InferFailReason>)
    ensures
        raw::res_ty(r) == operate_inherited(
            db@,
            types::tys(types@),
            0,
            types::tys(args@),
            key_type@,
            infer_guard@,
            room as nat,
        ),
    decreases room, 10nat, 0nat,
{
    let ghost all = types::tys(types@);
    let ghost whole = operate_inherited(
        db@,
        all,
        0,
        types::tys(args@),
        key_type@,
        infer_guard@,
        room as nat,
    );
    let mut i: usize = 0;
    while i < types.len()
        invariant
            i <= types@.len(),
            whole == operate_inherited(
                db@,
                all,
                i as nat,
                types::tys(args@),
                key_type@,
                infer_guard@,
                room as nat,
            ),
        decreases types@.len() - i,
    {
        assert(all[i as int] == types@[i as int]@);
        let super_type = apply_args(db, &types[i], args);
        match infer_member_by_operator_key_type(db, &super_type, key_type, infer_guard, room) {
            Ok(t) => {
                return Ok(t);
            },
            Err(InferFailReason::FieldNotFound) => {},
            Err(reason) => {
                return Err(reason);
            },
        }
        i += 1;
    }
    Err(InferFailReason::FieldNotFound)
}

fn infer_member_by_index_generic(
    db: &DbIndex,
    generic: &LuaGenericType,
    key_type: &LuaType,
    infer_guard: &InferGuard,
    room: usize,
) -> (r: Result<LuaType, InferFailReason>)
    ensures
        raw::res_ty(r) == operate_generic(db@, generic@, key_type@, infer_guard@, room as nat),
    decreases room, 11nat, 0nat,
{
    assert(generic@.base == generic.base@ && generic@.params == types::tys(generic.params@));
    let decl = match db.get_type_decl(&generic.base) {
        Some(decl) => decl,
        None => {
            return Err(InferFailReason::Unsupported);
        },
    };
    if decl.is_alias() {
        return match decl.get_alias_ref() {
            Some(origin) => {
                let origin = apply_args(db, origin, &generic.params);
                infer_member_by_operator_key_type(db, &origin, key_type, infer_guard, room)
            },
            None => Err(InferFailReason::Unsupported),
        };
    }
    if let Some(t) = find_fitting_operator(db, key_type, &decl.index_operators, &generic.params) {
        return Ok(t);
    }
    infer_member_by_super_operator(
        db,
        &decl.super_types,
        &generic.params,
        key_type,
        infer_guard,
        room,
    )
}

#[verifier::loop_isolation(false)]
fn infer_member_by_index_union(
    db: &DbIndex,
    types: &Vec<LuaType>,
    key_type: &LuaType,
    infer_guard: &InferGuard,
    room: usize,
) -> (r: Result<LuaType, InferFailReason>)
    ensures
        raw::res_ty(r) == operate_union(
            db@,
            types::tys(types@),
            0,
            Seq::empty(),
            key_type@,
            infer_guard@,
            room as nat,
        ),
    decreases room, 10nat, 0nat,
{
    let ghost all = types::tys(types@);
    let ghost whole = operate_union(
        db@,
        all,
        0,
        Seq::empty(),
        key_type@,
        infer_guard@,
        room as nat,
    );
    let mut member_types: Vec<LuaType> = Vec::new();
    let mut i: usize = 0;
    assert(types::tys(member_types@) =~= Seq::<Ty>::empty());
    while i < types.len()
        invariant
            i <= types@.len(),
            whole == operate_union(
                db@,
                all,
                i as nat,
                types::tys(member_types@),
                key_type@,
                infer_guard@,
                room as nat,
            ),
        decreases types@.len() - i,
    {
        assert(all[i as int] == types@[i as int]@);
        match infer_member_by_operator_key_type(db, &types[i], key_type, infer_guard, room) {
            Ok(t) => {
                let ghost before = types::tys(member_types@);
                let ghost added = t@;
                member_types.push(t);
                assert(types::tys(member_types@) =~= before.push(added));
            },
            Err(InferFailReason::FieldNotFound) => {},
            Err(reason) => {
                return Err(reason);
            },
        }
        i += 1;
    }
    assert(types::tys(member_types@).len() == member_types@.len());
    if member_types.len() == 0 {
        return Err(InferFailReason::FieldNotFound);
    }
    Ok(TypeOps::union_all(&member_types))
}

#[verifier::loop_isolation(false)]
fn infer_member_by_index_intersection(
    db: &DbIndex,
    types: &Vec<LuaType>,
    key_type: &LuaType,
    infer_guard: &InferGuard,
    room: usize,
) -> (r: Result<LuaType, InferFailReason>)
    ensures
        raw::res_ty(r) == operate_intersection(
            db@,
            types::tys(types@),
            0,
            None,
            key_type@,
            infer_guard@,
            room as nat,
        ),
    decreases room, 10nat, 0nat,
{
    let ghost all = types::tys(types@);
    let ghost whole = operate_intersection(
        db@,
        all,
        0,
        None,
        key_type@,
        infer_guard@,
        room as nat,
    );
    let mut result: Option<LuaType> = None;
    let mut i: usize = 0;
    while i < types.len()
        invariant
            i <= types@.len(),
            whole == operate_intersection(
                db@,
                all,
                i as nat,
                types::opt_ty(result),
                key_type@,
                infer_guard@,
                room as nat,
            ),
        decreases types@.len() - i,
    {
        assert(all[i as int] == types@[i as int]@);
        if let Some(LuaType::Never) = &result {
            return Ok(LuaType::Never);
        }
        match infer_member_by_operator_key_type(db, &types[i], key_type, infer_guard, room) {
            Ok(t) => {
                let next = match &result {
                    Some(prev) => TypeOps::intersect(prev, &t),
                    None => t,
                };
                result = Some(next);
            },
            Err(InferFailReason::FieldNotFound) => {},
            Err(reason) => {
                return Err(reason);
            },
        }
        i += 1;
    }
    to_not_found(result)
}

} // verus!
