//! The type of a written list, and types that a written table may have.

use std::sync::Arc;
use vstd::prelude::*;

use crate::{db, types};
use crate::db::{DbIndex, DbTy, TypeOps};
use crate::infer::lookup;
use crate::member::raw;
use crate::type_check::assignable;
use crate::type_check::assignable::is_assignable;
use crate::types::{
    ArrayTy, LuaArrayLen, LuaArrayType, LuaTupleStatus, LuaTupleType, LuaType, LuaUnionType,
    TupleTy, Ty, VariadicTy, VariadicType, complex,
};
use crate::types::complex::clone_types;

verus! {

// ----------------------------------------------------------------------------
// Tables that are written as lists.

/// A field of a list: whether it is the rest of the arguments, and its type.
#[derive(Debug)]
pub struct ListField {
    pub is_dots: bool,
    pub typ: LuaType,
}

pub open spec fn field_types(fields: Seq<ListField>) -> Seq<Ty> {
    Seq::new(fields.len(), |i: int| fields[i].typ@)
}

/// The types of a run of values in a list, those of runs inside it in their place.
pub open spec fn flat_run(v: VariadicTy) -> Seq<Ty>
    decreases v, 0nat,
{
    match v {
        VariadicTy::Base(base) => seq![Ty::Variadic(Box::new(VariadicTy::Base(base)))],
        VariadicTy::Multi(types) => flat_list(types),
    }
}

pub open spec fn flat_list(types: Seq<Ty>) -> Seq<Ty>
    decreases types, 0nat,
{
    if types.len() == 0 {
        Seq::empty()
    } else {
        flat_list(types.drop_last()) + match types.last() {
            Ty::Variadic(v) => flat_run(*v),
            t => seq![t],
        }
    }
}

pub fn flatten_multi_into_tuple(tuple_list: &mut Vec<LuaType>, multi: &VariadicType)
    ensures
        types::tys(final(tuple_list)@) == types::tys(old(tuple_list)@) + flat_run(multi@),
    decreases multi, 0nat,
{
    let ghost before = types::tys(tuple_list@);
    match multi {
        VariadicType::Base(base) => {
            let run = VariadicType::Base(base.clone());
            assert(run@ == VariadicTy::Base(base@));
            let t = LuaType::Variadic(Arc::new(run));
            let ghost added = t@;
            tuple_list.push(t);
            assert(types::tys(tuple_list@) =~= before + seq![added]);
        },
        VariadicType::Multi(types) => {
            flatten_list_into_tuple(tuple_list, types);
        },
    }
}

#[verifier::loop_isolation(false)]
fn flatten_list_into_tuple(tuple_list: &mut Vec<LuaType>, types: &Vec<LuaType>)
    ensures
        types::tys(final(tuple_list)@) == types::tys(old(tuple_list)@) + flat_list(types::tys(types@)),
    decreases types, 0nat,
{
    let ghost before = types::tys(tuple_list@);
    let ghost all = types::tys(types@);
    let mut i: usize = 0;
    proof {
        assert(all.take(0) =~= Seq::<Ty>::empty());
        assert(types::tys(tuple_list@) =~= before + flat_list(all.take(0)));
    }
    while i < types.len()
        invariant
            i <= types@.len(),
            types::tys(tuple_list@) == before + flat_list(all.take(i as int)),
        decreases types@.len() - i,
    {
        proof {
            assert(all.take(i + 1).drop_last() =~= all.take(i as int));
            assert(all.take(i + 1).last() == all[i as int]);
            assert(all[i as int] == types@[i as int]@);
        }
        let ghost middle = types::tys(tuple_list@);
        match &types[i] {
            LuaType::Variadic(multi) => {
                flatten_multi_into_tuple(tuple_list, multi);
            },
            t => {
                tuple_list.push(t.clone());
                assert(types::tys(tuple_list@) =~= middle + seq![t@]);
            },
        }
        assert(types::tys(tuple_list@) =~= before + flat_list(all.take(i + 1)));
        i += 1;
    }
    assert(all.take(i as int) =~= all);
}

pub open spec fn array_ty(base: Ty) -> Ty {
    Ty::Array(Box::new(ArrayTy { base, len: LuaArrayLen::Unbounded }))
}

pub open spec fn tuple_ty(types: Seq<Ty>) -> Ty {
    Ty::Tuple(Box::new(TupleTy { types, status: LuaTupleStatus::InferResolve }))
}

/// A list that starts with the rest of the arguments.
pub open spec fn dots_type(t: Ty) -> Ty {
    match t {
        Ty::Variadic(v) => match *v {
            VariadicTy::Base(base) => array_ty(base),
            VariadicTy::Multi(types) => tuple_ty(types),
        },
        _ => array_ty(t),
    }
}

/// All types but the last fit a type.
pub open spec fn front_fits(db: DbTy, types: Seq<Ty>, t: Ty) -> bool {
    forall|i: int| 0 <= i < types.len() - 1 ==> assignable::fits(db, #[trigger] types[i], t)
}

/// The element type of a list that ends with a run of values of one type, where all elements are of
/// it.
pub open spec fn run_base(db: DbTy, types: Seq<Ty>) -> Option<Ty> {
    if types.len() == 0 {
        None
    } else {
        match types.last() {
            Ty::Variadic(v) => match *v {
                VariadicTy::Base(base) => if front_fits(db, types, db::remove_ty(base, Ty::Nil)) {
                    Some(db::remove_ty(base, Ty::Nil))
                } else {
                    None
                },
                _ => None,
            },
            _ => None,
        }
    }
}

/// The type of a list: a long one goes by its first element, one of a run by the run, any other is a
/// tuple.
pub open spec fn list_type(db: DbTy, fields: Seq<ListField>) -> Ty {
    let types = field_types(fields);
    if fields.len() > 50 {
        array_ty(types[0])
    } else if fields.len() > 0 && fields[0].is_dots {
        dots_type(types[0])
    } else {
        match run_base(db, types) {
            Some(base) => array_ty(base),
            None => tuple_ty(flat_list(types)),
        }
    }
}

fn make_array(base: LuaType) -> (r: LuaType)
    ensures
        r@ == array_ty(base@),
{
    LuaType::Array(Arc::new(LuaArrayType::new(base, LuaArrayLen::Unbounded)))
}

fn make_tuple(types: Vec<LuaType>) -> (r: LuaType)
    ensures
        r@ == tuple_ty(types::tys(types@)),
{
    LuaType::Tuple(Arc::new(LuaTupleType::new(types, LuaTupleStatus::InferResolve)))
}

fn infer_dots_table(t: &LuaType) -> (r: LuaType)
    ensures
        r@ == dots_type(t@),
{
    match t {
        LuaType::Variadic(multi) => {
            assert(t@ == Ty::Variadic(Box::new(multi@)));
            match &**multi {
                VariadicType::Base(base) => {
                    assert(multi@ == VariadicTy::Base(base@));
                    make_array(base.clone())
                },
                VariadicType::Multi(types) => {
                    assert(multi@ == VariadicTy::Multi(types::tys(types@)));
                    make_tuple(clone_types(types))
                },
            }
        },
        _ => make_array(t.clone()),
    }
}

fn is_front_fitting(db: &DbIndex, types: &Vec<LuaType>, t: &LuaType) -> (r: bool)
    requires
        types@.len() > 0,
    ensures
        r == front_fits(db@, types::tys(types@), t@),
{
    let ghost all = types::tys(types@);
    let mut i: usize = 0;
    while i < types.len() - 1
        invariant
            types@.len() > 0,
            i <= types@.len() - 1,
            all == types::tys(types@),
            forall|j: int| 0 <= j < i ==> assignable::fits(db@, #[trigger] all[j], t@),
        decreases types@.len() - i,
    {
        assert(all[i as int] == types@[i as int]@);
        if !is_assignable(db, &types[i], t, None) {
            return false;
        }
        i += 1;
    }
    true
}

fn find_run_base(db: &DbIndex, types: &Vec<LuaType>) -> (r: Option<LuaType>)
    ensures
        types::opt_ty(r) == run_base(db@, types::tys(types@)),
{
    if types.len() == 0 {
        return None;
    }
    let last = types.len() - 1;
    assert(types::tys(types@).last() == types@[last as int]@);
    if let LuaType::Variadic(multi) = &types[last] {
        assert(types@[last as int]@ == Ty::Variadic(Box::new(multi@)));
        if let VariadicType::Base(base) = &**multi {
            assert(multi@ == VariadicTy::Base(base@));
            let non_nil_base = TypeOps::remove(base, &LuaType::Nil);
            if is_front_fitting(db, types, &non_nil_base) {
                return Some(non_nil_base);
            }
        } else {
            assert(!(multi@ is Base));
        }
    }
    None
}

/// The type of a table that is written as a list.
pub fn infer_table_tuple_or_array(db: &DbIndex, fields: &Vec<ListField>) -> (r: LuaType)
    ensures
        r@ == list_type(db@, fields@),
{
    let mut types: Vec<LuaType> = Vec::new();
    let mut i: usize = 0;
    while i < fields.len()
        invariant
            i <= fields@.len(),
            types@.len() == i,
            forall|j: int| 0 <= j < i ==> (#[trigger] types@[j])@ == fields@[j].typ@,
        decreases fields@.len() - i,
    {
        types.push(fields[i].typ.clone());
        i += 1;
    }
    assert(types::tys(types@) =~= field_types(fields@));
    if fields.len() > 50 {
        assert(field_types(fields@)[0] == fields@[0].typ@);
        return make_array(fields[0].typ.clone());
    }
    if fields.len() > 0 && fields[0].is_dots {
        assert(field_types(fields@)[0] == fields@[0].typ@);
        return infer_dots_table(&fields[0].typ);
    }
    if let Some(base) = find_run_base(db, &types) {
        return make_array(base);
    }
    let mut elements: Vec<LuaType> = Vec::new();
    assert(types::tys(elements@) =~= Seq::<Ty>::empty());
    flatten_list_into_tuple(&mut elements, &types);
    assert(types::tys(elements@) =~= flat_list(field_types(fields@)));
    make_tuple(elements)
}

// ----------------------------------------------------------------------------
// Types that a written table may have.

/// A written table may be of the type, as far as `room` steps show.
pub open spec fn may_be_table(db: DbTy, t: Ty, room: nat) -> bool
    decreases room, 0nat,
{
    if room == 0 {
        false
    } else {
        match t {
            Ty::Ref(id) => match db::decl_of(db, id) {
                Some(decl) => if decl.kind is Alias {
                    match decl.alias_ref {
                        Some(origin) => may_be_table(db, origin, (room - 1) as nat),
                        None => true,
                    }
                } else {
                    true
                },
                None => true,
            },
            Ty::Union(u) => some_may_be_table(db, complex::union_tys(*u), (room - 1) as nat),
            Ty::MultiLineUnion(lines) => some_may_be_table(
                db,
                complex::line_types(lines),
                (room - 1) as nat,
            ),
            Ty::Nil | Ty::Never => false,
            _ => !is_plain_value(t),
        }
    }
}

pub open spec fn is_plain_value(t: Ty) -> bool {
    t is DocFunction || t is Function || t is Signature || raw::ty_is_string(t) || lookup::ty_is_number(t)
        || t is BooleanConst || t is Boolean || t is DocBooleanConst
}

pub open spec fn some_may_be_table(db: DbTy, types: Seq<Ty>, room: nat) -> bool
    decreases room, 1nat,
{
    exists|i: int| 0 <= i < types.len() && may_be_table(db, #[trigger] types[i], room)
}

fn accepts_table_within(db: &DbIndex, typ: &LuaType, room: usize) -> (r: bool)
    ensures
        r == may_be_table(db@, typ@, room as nat),
    decreases room, 0nat,
{
    if room == 0 {
        return false;
    }
    match typ {
        LuaType::Ref(id) => match db.get_type_decl(id) {
            Some(decl) => {
                if !decl.is_alias() {
                    return true;
                }
                match decl.get_alias_ref() {
                    Some(origin) => accepts_table_within(db, origin, room - 1),
                    None => true,
                }
            },
            None => true,
        },
        LuaType::Union(union) => {
            let types = union.into_vec();
            any_accepts_table(db, &types, room - 1)
        },
        LuaType::MultiLineUnion(union) => {
            let types = union.iter();
            any_accepts_table(db, &types, room - 1)
        },
        LuaType::Nil => false,
        LuaType::Never => false,
        _ => !(typ.is_function() || typ.is_string() || typ.is_number() || typ.is_boolean()),
    }
}

#[verifier::loop_isolation(false)]
fn any_accepts_table(db: &DbIndex, types: &Vec<LuaType>, room: usize) -> (r: bool)
    ensures
        r == some_may_be_table(db@, types::tys(types@), room as nat),
    decreases room, 1nat,
{
    let ghost all = types::tys(types@);
    let mut i: usize = 0;
    while i < types.len()
        invariant
            i <= types@.len(),
            forall|j: int| 0 <= j < i ==> !may_be_table(db@, #[trigger] all[j], room as nat),
        decreases types@.len() - i,
    {
        assert(all[i as int] == types@[i as int]@);
        if accepts_table_within(db, &types[i], room) {
            return true;
        }
        i += 1;
    }
    false
}

/// Whether a written table may be of the type.
pub fn may_accept_table_literal(db: &DbIndex, typ: &LuaType) -> (r: bool)
    ensures
        r == may_be_table(db@, typ@, 16),
{
    accepts_table_within(db, typ, 16)
}

pub open spec fn tables_of(db: DbTy, types: Seq<Ty>) -> Seq<Ty>
    decreases types.len(),
{
    if types.len() == 0 {
        Seq::empty()
    } else {
        let front = tables_of(db, types.drop_last());
        if may_be_table(db, types.last(), 16) {
            front.push(types.last())
        } else {
            front
        }
    }
}

/// The part of a union that a written table may be of.
pub open spec fn table_part(db: DbTy, types: Seq<Ty>) -> Ty {
    let t = db::union_all_ty(tables_of(db, types));
    if t is Never {
        Ty::Unknown
    } else {
        t
    }
}

pub fn union_remove_non_table_type(db: &DbIndex, union: &LuaUnionType) -> (r: LuaType)
    ensures
        r@ == table_part(db@, complex::union_tys(union@)),
{
    let types = union.into_vec();
    let ghost all = types::tys(types@);
    let mut kept: Vec<LuaType> = Vec::new();
    let mut i: usize = 0;
    proof {
        assert(all.take(0) =~= Seq::<Ty>::empty());
        assert(types::tys(kept@) =~= Seq::<Ty>::empty());
    }
    while i < types.len()
        invariant
            i <= types@.len(),
            all == types::tys(types@),
            types::tys(kept@) == tables_of(db@, all.take(i as int)),
        decreases types@.len() - i,
    {
        proof {
            assert(all.take(i + 1).drop_last() =~= all.take(i as int));
            assert(all.take(i + 1).last() == all[i as int]);
            assert(all[i as int] == types@[i as int]@);
        }
        if may_accept_table_literal(db, &types[i]) {
            let ghost before = types::tys(kept@);
            kept.push(types[i].clone());
            assert(types::tys(kept@) =~= before.push(all[i as int]));
        }
        i += 1;
    }
    assert(all.take(i as int) =~= all);
    let result = TypeOps::union_all(&kept);
    if result.is_never() {
        LuaType::Unknown
    } else {
        result
    }
}

} // verus!
