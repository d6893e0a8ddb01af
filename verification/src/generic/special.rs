//! The operators on types.

use std::sync::Arc;
use vstd::prelude::*;

use crate::{db, types};
use crate::db::{DbIndex, DbTy, TypeOps};
use crate::generic::substitutor::{TypeSubstitutor, instantiate_type_generic, instantiate_types};
use crate::member::{collect, raw};
use crate::member::collect::{SymbolTy, TypeMembers, find_members, member_index};
use crate::member::raw::infer_raw_member_type;
use crate::type_check::{assignable, entries, normalize, simple};
use crate::type_check::assignable::is_surely_assignable;
use crate::type_check::entries::symbol_entries;
use crate::type_check::normalize::key_type_to_member_key;
use crate::types::{
    CallTy, GenericTplId, KeyTy, LuaAliasCallKind, LuaAliasCallType, LuaMemberKey, LuaObjectType,
    LuaType, LuaUnionType, ObjectTy, Ty, UnionTy, VariadicTy, VariadicType, complex, traverse,
};
use crate::types::complex::{clone_types, field_index, text_is, types_from};

verus! {

// ----------------------------------------------------------------------------
// Reading members under the keys that a type lists.

/// What is read under a key that is no union.
pub open spec fn leaf_member(db: DbTy, owner: Ty, key: Ty, indexing: bool) -> Ty {
    if indexing {
        match owner {
            Ty::Variadic(v) => match *v {
                VariadicTy::Base(base) => base,
                VariadicTy::Multi(types) => match simple::integer_value(key) {
                    Some(i) => if 0 <= i && i < types.len() {
                        types[i as int]
                    } else {
                        Ty::Never
                    },
                    None => literal_member(db, owner, key, Ty::Never),
                },
            },
            _ => literal_member(db, owner, key, Ty::Never),
        }
    } else {
        literal_member(db, owner, key, Ty::Unknown)
    }
}

pub open spec fn literal_member(db: DbTy, owner: Ty, key: Ty, missing: Ty) -> Ty {
    match normalize::literal_key(key) {
        Some(k) => match raw::raw_type(db, owner, k) {
            Ok(t) => t,
            Err(_) => missing,
        },
        None => missing,
    }
}

/// What is read under a key; under a union of keys, the union of what is read under each.
pub open spec fn read_member(db: DbTy, owner: Ty, key: Ty, indexing: bool) -> Ty
    decreases key, 1nat,
{
    match key {
        Ty::Union(u) => match *u {
            UnionTy::Basic(_) => read_leaves(db, owner, complex::union_tys(*u), indexing),
            UnionTy::Nullable(x) => db::union_ty(
                db::union_ty(Ty::Never, read_member(db, owner, x, indexing)),
                leaf_member(db, owner, Ty::Nil, indexing),
            ),
            UnionTy::Multi(types) => read_all(db, owner, types, indexing),
        },
        Ty::MultiLineUnion(lines) => read_lines(db, owner, lines, indexing),
        _ => leaf_member(db, owner, key, indexing),
    }
}

pub open spec fn read_leaves(db: DbTy, owner: Ty, keys: Seq<Ty>, indexing: bool) -> Ty
    decreases keys.len(),
{
    if keys.len() == 0 {
        Ty::Never
    } else {
        db::union_ty(
            read_leaves(db, owner, keys.drop_last(), indexing),
            leaf_member(db, owner, keys.last(), indexing),
        )
    }
}

pub open spec fn read_all(db: DbTy, owner: Ty, keys: Seq<Ty>, indexing: bool) -> Ty
    decreases keys, 0nat,
{
    if keys.len() == 0 {
        Ty::Never
    } else {
        db::union_ty(
            read_all(db, owner, keys.drop_last(), indexing),
            read_member(db, owner, keys.last(), indexing),
        )
    }
}

pub open spec fn read_lines(
    db: DbTy,
    owner: Ty,
    lines: Seq<(Ty, Option<Seq<char>>)>,
    indexing: bool,
) -> Ty
    decreases lines, 0nat,
{
    if lines.len() == 0 {
        Ty::Never
    } else {
        db::union_ty(
            read_lines(db, owner, lines.drop_last(), indexing),
            read_member(db, owner, lines.last().0, indexing),
        )
    }
}

/// What indexing a type with a key yields.
pub open spec fn indexed_type(db: DbTy, owner: Ty, key: Ty) -> Ty {
    if owner is Unknown {
        Ty::Unknown
    } else {
        read_member(db, owner, key, true)
    }
}

fn get_literal_member(db: &DbIndex, owner: &LuaType, key: &LuaType, missing: LuaType) -> (r: LuaType)
    ensures
        r@ == literal_member(db@, owner@, key@, missing@),
    decreases db@.room, 20nat,
{
    match key_type_to_member_key(key) {
        Some(k) => match infer_raw_member_type(db, owner, &k) {
            Ok(t) => t,
            Err(_) => missing,
        },
        None => missing,
    }
}

fn get_leaf_member(db: &DbIndex, owner: &LuaType, key: &LuaType, indexing: bool) -> (r: LuaType)
    ensures
        r@ == leaf_member(db@, owner@, key@, indexing),
    decreases db@.room, 21nat,
{
    if !indexing {
        return get_literal_member(db, owner, key, LuaType::Unknown);
    }
    if let LuaType::Variadic(variadic) = owner {
        assert(owner@ == Ty::Variadic(Box::new(variadic@)));
        match &**variadic {
            VariadicType::Base(base) => {
                assert(variadic@ == VariadicTy::Base(base@));
                return base.clone();
            },
            VariadicType::Multi(types) => {
                assert(variadic@ == VariadicTy::Multi(types::tys(types@)));
                let place = match key {
                    LuaType::IntegerConst(i) => Some(*i),
                    LuaType::DocIntegerConst(i) => Some(*i),
                    _ => None,
                };
                assert(place == simple::integer_value(key@));
                if let Some(i) = place {
                    if i >= 0 && (i as u64) < types.len() as u64 {
                        assert(types::tys(types@)[i as int] == types@[i as int]@);
                        return types[i as usize].clone();
                    }
                    return LuaType::Never;
                }
            },
        }
    }
    get_literal_member(db, owner, key, LuaType::Never)
}

fn get_leaf_members(db: &DbIndex, owner: &LuaType, keys: &Vec<LuaType>, indexing: bool) -> (r:
    LuaType)
    ensures
        r@ == read_leaves(db@, owner@, types::tys(keys@), indexing),
    decreases db@.room, 22nat,
{
    let ghost all = types::tys(keys@);
    let mut result = LuaType::Never;
    let mut i: usize = 0;
    assert(all.take(0) =~= Seq::<Ty>::empty());
    while i < keys.len()
        invariant
            i <= keys@.len(),
            all == types::tys(keys@),
            result@ == read_leaves(db@, owner@, all.take(i as int), indexing),
        decreases keys@.len() - i,
    {
        proof {
            assert(all.take(i + 1).drop_last() =~= all.take(i as int));
            assert(all.take(i + 1).last() == all[i as int]);
            assert(all[i as int] == keys@[i as int]@);
        }
        let member_type = get_leaf_member(db, owner, &keys[i], indexing);
        result = TypeOps::union(&result, &member_type);
        i += 1;
    }
    assert(all.take(i as int) =~= all);
    result
}

fn get_member_under(db: &DbIndex, owner: &LuaType, key: &LuaType, indexing: bool) -> (r: LuaType)
    ensures
        r@ == read_member(db@, owner@, key@, indexing),
    decreases db@.room, 23nat, key, 1nat,
{
    match key {
        LuaType::Union(union) => {
            assert(key@ == Ty::Union(Box::new(union@)));
            match &**union {
                LuaUnionType::Basic(kinds) => {
                    assert(union@ == UnionTy::Basic(kinds@));
                    let keys = union.into_vec();
                    get_leaf_members(db, owner, &keys, indexing)
                },
                LuaUnionType::Nullable(x) => {
                    assert(union@ == UnionTy::Nullable(x@));
                    let member_type = get_member_under(db, owner, x, indexing);
                    let result = TypeOps::union(&LuaType::Never, &member_type);
                    let nil_type = get_leaf_member(db, owner, &LuaType::Nil, indexing);
                    TypeOps::union(&result, &nil_type)
                },
                LuaUnionType::Multi(members) => {
                    assert(union@ == UnionTy::Multi(members@));
                    assert(members@ == types::tys(members.types@));
                    get_members_under(db, owner, &members.types, indexing)
                },
            }
        },
        LuaType::MultiLineUnion(multi) => {
            assert(key@ == Ty::MultiLineUnion(multi@));
            assert(multi@ == types::line_tys(multi.unions@));
            get_members_under_lines(db, owner, &multi.unions, indexing)
        },
        _ => get_leaf_member(db, owner, key, indexing),
    }
}

#[verifier::loop_isolation(false)]
fn get_members_under(db: &DbIndex, owner: &LuaType, keys: &Vec<LuaType>, indexing: bool) -> (r:
    LuaType)
    ensures
        r@ == read_all(db@, owner@, types::tys(keys@), indexing),
    decreases db@.room, 23nat, keys, 0nat,
{
    let ghost all = types::tys(keys@);
    let mut result = LuaType::Never;
    let mut i: usize = 0;
    assert(all.take(0) =~= Seq::<Ty>::empty());
    while i < keys.len()
        invariant
            i <= keys@.len(),
            result@ == read_all(db@, owner@, all.take(i as int), indexing),
        decreases keys@.len() - i,
    {
        proof {
            assert(all.take(i + 1).drop_last() =~= all.take(i as int));
            assert(all.take(i + 1).last() == all[i as int]);
            assert(all[i as int] == keys@[i as int]@);
        }
        let member_type = get_member_under(db, owner, &keys[i], indexing);
        result = TypeOps::union(&result, &member_type);
        i += 1;
    }
    assert(all.take(i as int) =~= all);
    result
}

#[verifier::loop_isolation(false)]
fn get_members_under_lines(
    db: &DbIndex,
    owner: &LuaType,
    lines: &Vec<(LuaType, Option<String>)>,
    indexing: bool,
) -> (r: LuaType)
    ensures
        r@ == read_lines(db@, owner@, types::line_tys(lines@), indexing),
    decreases db@.room, 23nat, lines, 0nat,
{
    let ghost all = types::line_tys(lines@);
    let mut result = LuaType::Never;
    let mut i: usize = 0;
    assert(all.take(0) =~= Seq::<(Ty, Option<Seq<char>>)>::empty());
    while i < lines.len()
        invariant
            i <= lines@.len(),
            result@ == read_lines(db@, owner@, all.take(i as int), indexing),
        decreases lines@.len() - i,
    {
        proof {
            assert(all.take(i + 1).drop_last() =~= all.take(i as int));
            assert(all.take(i + 1).last() == all[i as int]);
            assert(all[i as int].0 == lines@[i as int].0@);
            assert(decreases_to!(lines => lines@[i as int].0));
        }
        let member_type = get_member_under(db, owner, &lines[i].0, indexing);
        result = TypeOps::union(&result, &member_type);
        i += 1;
    }
    assert(all.take(i as int) =~= all);
    result
}

/// What `rawget` reads of a type under a key.
pub fn instantiate_rawget_call(db: &DbIndex, owner: &LuaType, key: &LuaType) -> (r: LuaType)
    ensures
        r@ == read_member(db@, owner@, key@, false),
    decreases db@.room, 24nat,
{
    get_member_under(db, owner, key, false)
}

/// What indexing a type with a key yields.
pub fn instantiate_index_call(db: &DbIndex, owner: &LuaType, key: &LuaType) -> (r: LuaType)
    ensures
        r@ == indexed_type(db@, owner@, key@),
    decreases db@.room, 24nat,
{
    if owner.is_unknown() {
        return LuaType::Unknown;
    }
    get_member_under(db, owner, key, true)
}

// ----------------------------------------------------------------------------
// Runs of values.

/// A length as an integer of the language.
pub open spec fn machine_int(len: usize) -> i64 {
    if len <= i64::MAX {
        len as i64
    } else {
        i64::MAX
    }
}

pub fn len_as_integer(len: usize) -> (r: i64)
    ensures
        r == machine_int(len),
{
    if len as u64 <= i64::MAX as u64 {
        len as i64
    } else {
        i64::MAX
    }
}

/// The type as a run of values.
pub open spec fn as_run(t: Ty) -> VariadicTy {
    match t {
        Ty::Variadic(v) => *v,
        _ => VariadicTy::Base(t),
    }
}

/// The values of a run from place `i` on, counted from one, or from the end where it is negative.
pub open spec fn selected_from(source: Ty, i: i64) -> Ty {
    let run = as_run(source);
    match run {
        VariadicTy::Base(_) => Ty::Variadic(Box::new(run)),
        VariadicTy::Multi(_) => match complex::machine_opt_len(complex::variadic_min_len(run)) {
            None => source,
            Some(total) => {
                let start = if i < 0 {
                    total + i
                } else {
                    i - 1
                };
                if start < 0 || start >= total {
                    source
                } else {
                    Ty::Variadic(Box::new(complex::variadic_from(run, start as nat)))
                }
            },
        },
    }
}

/// How many values a run holds.
pub open spec fn run_size(source: Ty) -> Ty {
    match complex::machine_opt_len(complex::variadic_min_len(as_run(source))) {
        Some(len) => Ty::IntegerConst(machine_int(len)),
        None => Ty::Integer,
    }
}

/// What `select` yields.
pub open spec fn selected(source: Ty, index: Ty) -> Ty {
    match simple::integer_value(index) {
        Some(i) => if i == 0 {
            Ty::Unknown
        } else {
            selected_from(source, i)
        },
        None => match simple::string_value(index) {
            Some(s) => if s == "#"@ {
                run_size(source)
            } else {
                Ty::Integer
            },
            None => Ty::Unknown,
        },
    }
}

fn run_of(t: &LuaType) -> (r: VariadicType)
    ensures
        r@ == as_run(t@),
{
    match t {
        LuaType::Variadic(v) => v.duplicate(),
        _ => {
            let run = VariadicType::Base(t.clone());
            assert(run@ == VariadicTy::Base(t@));
            run
        },
    }
}

fn select_from(source: &LuaType, i: i64) -> (r: LuaType)
    requires
        i != 0,
    ensures
        r@ == selected_from(source@, i),
{
    let run = run_of(source);
    if let VariadicType::Base(base) = &run {
        assert(run@ == VariadicTy::Base(base@));
        return LuaType::Variadic(Arc::new(run));
    }
    match run.get_min_len() {
        None => source.clone(),
        Some(total) => {
            let start = if i > 0 {
                let start: u64 = (i - 1) as u64;
                if start >= total as u64 {
                    return source.clone();
                }
                start as usize
            } else {
                let below: u64 = (-(i + 1)) as u64;
                if below >= total as u64 {
                    return source.clone();
                }
                total - 1 - below as usize
            };
            LuaType::Variadic(Arc::new(run.get_new_variadic_from(start)))
        },
    }
}

fn count_run(source: &LuaType) -> (r: LuaType)
    ensures
        r@ == run_size(source@),
{
    let run = run_of(source);
    match run.get_min_len() {
        Some(len) => LuaType::IntegerConst(len_as_integer(len)),
        None => LuaType::Integer,
    }
}

/// What `select` yields.
pub fn instantiate_select_call(source: &LuaType, index: &LuaType) -> (r: LuaType)
    ensures
        r@ == selected(source@, index@),
{
    match index {
        LuaType::DocIntegerConst(i) => if *i == 0 {
            LuaType::Unknown
        } else {
            select_from(source, *i)
        },
        LuaType::IntegerConst(i) => if *i == 0 {
            LuaType::Unknown
        } else {
            select_from(source, *i)
        },
        LuaType::DocStringConst(s) => if text_is(s, "#") {
            count_run(source)
        } else {
            LuaType::Integer
        },
        LuaType::StringConst(s) => if text_is(s, "#") {
            count_run(source)
        } else {
            LuaType::Integer
        },
        _ => LuaType::Unknown,
    }
}

/// The members under 1, 2, 3 and so on below 10, up to the first that is missing.
pub open spec fn leading_members(db: DbTy, members: Seq<(KeyTy, SymbolTy)>, i: nat) -> Seq<Ty>
    decreases 10 - i,
{
    if i >= 10 {
        Seq::empty()
    } else {
        match collect::find_member(members, KeyTy::Integer(i as i64)) {
            Some(symbol) => seq![collect::symbol_type(db, symbol)] + leading_members(db, members, i + 1),
            None => Seq::empty(),
        }
    }
}

/// The place at which unpacking starts, counted from zero.
pub open spec fn unpack_start(operands: Seq<Ty>) -> int {
    if operands.len() > 1 {
        match simple::integer_value(operands[1]) {
            Some(i) => i - 1,
            None => -1,
        }
    } else {
        -1
    }
}

pub open spec fn unpacked_tuple(types: Seq<Ty>, start: int) -> Ty {
    if start > 0 && start > types.len() {
        Ty::Unknown
    } else if 0 < start < types.len() {
        Ty::Variadic(Box::new(VariadicTy::Multi(types.skip(start))))
    } else {
        Ty::Variadic(Box::new(VariadicTy::Multi(types)))
    }
}

pub open spec fn repeated(t: Ty) -> Ty {
    Ty::Variadic(Box::new(VariadicTy::Base(db::union_ty(t, Ty::Nil))))
}

/// What `unpack` yields.
pub open spec fn unpacked(db: DbTy, operands: Seq<Ty>) -> Ty {
    if operands.len() == 0 {
        Ty::Unknown
    } else {
        match operands[0] {
            Ty::Tuple(x) => unpacked_tuple(x.types, unpack_start(operands)),
            Ty::Array(a) => repeated(a.base),
            Ty::TableGeneric(params) => if params.len() == 2 {
                repeated(params[1])
            } else {
                Ty::Unknown
            },
            Ty::Unknown | Ty::Any => Ty::Unknown,
            t => match collect::possible_members(db, t) {
                Some(members) => Ty::Variadic(
                    Box::new(VariadicTy::Multi(leading_members(db, members, 1))),
                ),
                None => Ty::Unknown,
            },
        }
    }
}

fn repeat(t: &LuaType) -> (r: LuaType)
    ensures
        r@ == repeated(t@),
{
    let base = TypeOps::union(t, &LuaType::Nil);
    let run = VariadicType::Base(base);
    assert(run@ == VariadicTy::Base(base@));
    LuaType::Variadic(Arc::new(run))
}

fn make_run(types: Vec<LuaType>) -> (r: LuaType)
    ensures
        r@ == Ty::Variadic(Box::new(VariadicTy::Multi(types::tys(types@)))),
{
    let run = VariadicType::Multi(types);
    assert(run@ == VariadicTy::Multi(types::tys(types@)));
    LuaType::Variadic(Arc::new(run))
}

fn unpack_tuple(types: &Vec<LuaType>, start: Option<i64>) -> (r: LuaType)
    ensures
        r@ == unpacked_tuple(
            types::tys(types@),
            match start {
                Some(i) => i - 1,
                None => -1,
            },
        ),
{
    assert(types::tys(types@).len() == types@.len());
    if let Some(i) = start {
        if i > 1 {
            let start: u64 = (i - 1) as u64;
            let len: u64 = types.len() as u64;
            if start > len {
                return LuaType::Unknown;
            }
            if start < len {
                return make_run(types_from(types, start as usize));
            }
        }
    }
    make_run(clone_types(types))
}

fn list_leading_members(db: &DbIndex, members: &TypeMembers) -> (r: Vec<LuaType>)
    ensures
        types::tys(r@) == leading_members(db@, collect::member_tys(members@), 1),
    decreases db@.room, 4nat,
{
    let ghost all = collect::member_tys(members@);
    let mut r: Vec<LuaType> = Vec::new();
    let mut i: i64 = 1;
    assert(types::tys(r@) + leading_members(db@, all, 1) =~= leading_members(db@, all, 1));
    while i < 10
        invariant
            1 <= i <= 10,
            all == collect::member_tys(members@),
            leading_members(db@, all, 1) == types::tys(r@) + leading_members(db@, all, i as nat),
        decreases 10 - i,
    {
        let at = member_index(members, &LuaMemberKey::Integer(i));
        if at >= members.len() {
            assert(types::tys(r@) + Seq::<Ty>::empty() =~= types::tys(r@));
            return r;
        }
        let ghost before = types::tys(r@);
        let t = members[at].1.typ(db);
        let ghost added = t@;
        r.push(t);
        proof {
            assert(types::tys(r@) =~= before.push(added));
            assert(types::tys(r@) + leading_members(db@, all, (i + 1) as nat) =~= before + (seq![added]
                + leading_members(db@, all, (i + 1) as nat)));
        }
        i += 1;
    }
    assert(types::tys(r@) + Seq::<Ty>::empty() =~= types::tys(r@));
    r
}

/// What `unpack` yields.
pub fn instantiate_unpack_call(db: &DbIndex, operands: &Vec<LuaType>) -> (r: LuaType)
    ensures
        r@ == unpacked(db@, types::tys(operands@)),
    decreases db@.room, 9nat,
{
    assert(types::tys(operands@).len() == operands@.len());
    if operands.len() == 0 {
        return LuaType::Unknown;
    }
    let mut start: Option<i64> = None;
    if operands.len() > 1 {
        assert(types::tys(operands@)[1] == operands@[1]@);
        match &operands[1] {
            LuaType::DocIntegerConst(i) => {
                start = Some(*i);
            },
            LuaType::IntegerConst(i) => {
                start = Some(*i);
            },
            _ => {},
        }
        assert(start == simple::integer_value(types::tys(operands@)[1]));
    }
    assert(unpack_start(types::tys(operands@)) == (match start {
        Some(i) => i - 1,
        None => -1,
    }));
    assert(types::tys(operands@)[0] == operands@[0]@);
    match &operands[0] {
        LuaType::Tuple(tuple) => {
            assert(tuple@.types == types::tys(tuple.types@));
            unpack_tuple(&tuple.types, start)
        },
        LuaType::Array(array) => {
            assert(array@.base == array.base@);
            repeat(&array.base)
        },
        LuaType::TableGeneric(params) => {
            assert(types::tys(params@).len() == params@.len());
            if params.len() == 2 {
                assert(types::tys(params@)[1] == params@[1]@);
                repeat(&params[1])
            } else {
                LuaType::Unknown
            }
        },
        LuaType::Unknown => LuaType::Unknown,
        LuaType::Any => LuaType::Unknown,
        t => match find_members(db, t) {
            Some(members) => make_run(list_leading_members(db, &members)),
            None => LuaType::Unknown,
        },
    }
}

// ----------------------------------------------------------------------------
// Members of a type as a whole.

/// The keys of a run of values: its places.
pub open spec fn place_members(v: VariadicTy) -> Seq<(KeyTy, Ty)> {
    match v {
        VariadicTy::Base(base) => seq![(KeyTy::Integer(0), base)],
        VariadicTy::Multi(types) => Seq::new(
            types.len(),
            |i: int| (KeyTy::Integer(machine_int(i as usize)), types[i]),
        ),
    }
}

/// The keys of a type with the types under them, where it may have any; of a run of values, its
/// places.
pub open spec fn keyed_members(db: DbTy, t: Ty) -> Option<Seq<(KeyTy, Ty)>> {
    match t {
        Ty::Variadic(v) => Some(place_members(*v)),
        _ => match collect::possible_members(db, t) {
            Some(members) => Some(entries::symbols_as_members(db, members)),
            None => None,
        },
    }
}

/// The keys of a type with the types under them, or none at all.
pub open spec fn keys_or_none(keys: Option<Seq<(KeyTy, Ty)>>) -> Seq<(KeyTy, Ty)> {
    match keys {
        Some(keys) => keys,
        None => Seq::empty(),
    }
}

pub open spec fn opt_field_tys(r: Option<Vec<(LuaMemberKey, LuaType)>>) -> Option<
    Seq<(KeyTy, Ty)>,
> {
    match r {
        Some(members) => Some(types::field_tys(members@)),
        None => None,
    }
}

/// The keys of a type with the types under them, where it may have any.
pub fn get_keyof_members(db: &DbIndex, prefix_type: &LuaType) -> (r: Option<
    Vec<(LuaMemberKey, LuaType)>,
>)
    ensures
        opt_field_tys(r) == keyed_members(db@, prefix_type@),
    decreases db@.room, 10nat,
{
    if let LuaType::Variadic(variadic) = prefix_type {
        assert(prefix_type@ == Ty::Variadic(Box::new(variadic@)));
        let mut r: Vec<(LuaMemberKey, LuaType)> = Vec::new();
        match &**variadic {
            VariadicType::Base(base) => {
                assert(variadic@ == VariadicTy::Base(base@));
                r.push((LuaMemberKey::Integer(0), base.clone()));
                assert(types::field_tys(r@) =~= place_members(variadic@));
                return Some(r);
            },
            VariadicType::Multi(types) => {
                assert(variadic@ == VariadicTy::Multi(types::tys(types@)));
                let ghost all = place_members(variadic@);
                let mut i: usize = 0;
                while i < types.len()
                    invariant
                        i <= types@.len(),
                        r@.len() == i,
                        all.len() == types@.len(),
                        forall|j: int|
                            0 <= j < types@.len() ==> #[trigger] all[j] == (
                                KeyTy::Integer(machine_int(j as usize)),
                                types@[j]@,
                            ),
                        forall|j: int|
                            0 <= j < i ==> (#[trigger] r@[j]).0@ == all[j].0 && r@[j].1@
                                == all[j].1,
                    decreases types@.len() - i,
                {
                    r.push((LuaMemberKey::Integer(len_as_integer(i)), types[i].clone()));
                    i += 1;
                }
                assert(types::field_tys(r@) =~= all);
                return Some(r);
            },
        }
    }
    match find_members(db, prefix_type) {
        Some(members) => Some(symbol_entries(db, &members)),
        None => None,
    }
}

/// The keys of a type with the types under them, or none at all.
pub fn list_keyof_members(db: &DbIndex, prefix_type: &LuaType) -> (r: Vec<(LuaMemberKey, LuaType)>)
    ensures
        types::field_tys(r@) == keys_or_none(keyed_members(db@, prefix_type@)),
    decreases db@.room, 11nat,
{
    match get_keyof_members(db, prefix_type) {
        Some(members) => members,
        None => {
            let r: Vec<(LuaMemberKey, LuaType)> = Vec::new();
            assert(types::field_tys(r@) =~= Seq::<(KeyTy, Ty)>::empty());
            r
        },
    }
}

/// The literal types of keys.
pub open spec fn literal_types(members: Seq<(KeyTy, Ty)>) -> Seq<Ty>
    decreases members.len(),
{
    if members.len() == 0 {
        Seq::empty()
    } else {
        let front = literal_types(members.drop_last());
        match members.last().0 {
            KeyTy::Integer(i) => front.push(Ty::DocIntegerConst(i)),
            KeyTy::Name(s) => front.push(Ty::DocStringConst(s)),
            _ => front,
        }
    }
}

fn list_literal_types(members: &Vec<(LuaMemberKey, LuaType)>) -> (r: Vec<LuaType>)
    ensures
        types::tys(r@) == literal_types(types::field_tys(members@)),
{
    let ghost all = types::field_tys(members@);
    let mut r: Vec<LuaType> = Vec::new();
    let mut i: usize = 0;
    proof {
        assert(all.take(0) =~= Seq::<(KeyTy, Ty)>::empty());
        assert(types::tys(r@) =~= Seq::<Ty>::empty());
    }
    while i < members.len()
        invariant
            i <= members@.len(),
            all == types::field_tys(members@),
            types::tys(r@) == literal_types(all.take(i as int)),
        decreases members@.len() - i,
    {
        proof {
            assert(all.take(i + 1).drop_last() =~= all.take(i as int));
            assert(all.take(i + 1).last() == all[i as int]);
        }
        let ghost before = types::tys(r@);
        match &members[i].0 {
            LuaMemberKey::Integer(n) => {
                r.push(LuaType::DocIntegerConst(*n));
                assert(types::tys(r@) =~= before.push(Ty::DocIntegerConst(*n)));
            },
            LuaMemberKey::Name(s) => {
                r.push(LuaType::DocStringConst(s.clone()));
                assert(types::tys(r@) =~= before.push(Ty::DocStringConst(s@)));
            },
            _ => {},
        }
        i += 1;
    }
    assert(all.take(i as int) =~= all);
    r
}

/// Fields with others over them.
pub open spec fn overlaid(left: Seq<(KeyTy, Ty)>, right: Seq<(KeyTy, Ty)>) -> Seq<(KeyTy, Ty)>
    decreases right.len(),
{
    if right.len() == 0 {
        left
    } else {
        complex::put_field(overlaid(left, right.drop_last()), right.last().0, right.last().1)
    }
}

pub open spec fn named_fields(members: Seq<(KeyTy, Ty)>) -> Seq<(KeyTy, Ty)>
    decreases members.len(),
{
    if members.len() == 0 {
        Seq::empty()
    } else if members.last().0 is TypeKey {
        named_fields(members.drop_last())
    } else {
        named_fields(members.drop_last()).push(members.last())
    }
}

pub open spec fn typed_fields(members: Seq<(KeyTy, Ty)>) -> Seq<(Ty, Ty)>
    decreases members.len(),
{
    if members.len() == 0 {
        Seq::empty()
    } else {
        let front = typed_fields(members.drop_last());
        match members.last().0 {
            KeyTy::TypeKey(t) => front.push((*t, members.last().1)),
            _ => front,
        }
    }
}

pub open spec fn opt_entries(db: DbTy, members: Option<Seq<(KeyTy, SymbolTy)>>) -> Seq<(KeyTy, Ty)> {
    match members {
        Some(members) => entries::symbols_as_members(db, members),
        None => Seq::empty(),
    }
}

/// The object with the members of two types, those of the second over those of the first.
pub open spec fn merged_object(db: DbTy, operands: Seq<Ty>) -> Ty {
    if operands.len() != 2 {
        Ty::Unknown
    } else {
        let left = collect::possible_members(db, operands[0]);
        let right = collect::possible_members(db, operands[1]);
        if left is None && right is None {
            Ty::Unknown
        } else {
            let members = overlaid(opt_entries(db, left), opt_entries(db, right));
            Ty::Object(
                Box::new(
                    ObjectTy {
                        fields: named_fields(members),
                        index_access: typed_fields(members),
                    },
                ),
            )
        }
    }
}

fn overlay_fields(members: &mut Vec<(LuaMemberKey, LuaType)>, right: &Vec<(LuaMemberKey, LuaType)>)
    ensures
        types::field_tys(final(members)@) == overlaid(types::field_tys(old(members)@), types::field_tys(right@)),
{
    let ghost left = types::field_tys(members@);
    let ghost all = types::field_tys(right@);
    let mut i: usize = 0;
    assert(all.take(0) =~= Seq::<(KeyTy, Ty)>::empty());
    while i < right.len()
        invariant
            i <= right@.len(),
            all == types::field_tys(right@),
            types::field_tys(members@) == overlaid(left, all.take(i as int)),
        decreases right@.len() - i,
    {
        let (key, value) = &right[i];
        proof {
            assert(all.take(i + 1).drop_last() =~= all.take(i as int));
            assert(all.take(i + 1).last() == all[i as int]);
            assert(all[i as int] == (key@, value@));
        }
        let ghost before = types::field_tys(members@);
        let at = field_index(members, key);
        proof {
            complex::lemma_put_field(before, key@, value@, at as int);
        }
        if at < members.len() {
            let old_key = members[at].0.clone();
            members.set(at, (old_key, value.clone()));
            assert(types::field_tys(members@) =~= before.update(at as int, (before[at as int].0, value@)));
        } else {
            members.push((key.clone(), value.clone()));
            assert(types::field_tys(members@) =~= before.push((key@, value@)));
        }
        i += 1;
    }
    assert(all.take(i as int) =~= all);
}

fn split_fields(members: &Vec<(LuaMemberKey, LuaType)>) -> (r: (
    Vec<(LuaMemberKey, LuaType)>,
    Vec<(LuaType, LuaType)>,
))
    ensures
        types::field_tys(r.0@) == named_fields(types::field_tys(members@)),
        types::pair_tys(r.1@) == typed_fields(types::field_tys(members@)),
{
    let ghost all = types::field_tys(members@);
    let mut fields: Vec<(LuaMemberKey, LuaType)> = Vec::new();
    let mut indexes: Vec<(LuaType, LuaType)> = Vec::new();
    let mut i: usize = 0;
    proof {
        assert(all.take(0) =~= Seq::<(KeyTy, Ty)>::empty());
        assert(types::field_tys(fields@) =~= named_fields(all.take(0)));
        assert(types::pair_tys(indexes@) =~= typed_fields(all.take(0)));
    }
    while i < members.len()
        invariant
            i <= members@.len(),
            all == types::field_tys(members@),
            types::field_tys(fields@) == named_fields(all.take(i as int)),
            types::pair_tys(indexes@) == typed_fields(all.take(i as int)),
        decreases members@.len() - i,
    {
        let (key, value) = &members[i];
        proof {
            assert(all.take(i + 1).drop_last() =~= all.take(i as int));
            assert(all.take(i + 1).last() == all[i as int]);
            assert(all[i as int] == (key@, value@));
        }
        if let LuaMemberKey::TypeKey(t) = key {
            let ghost before = types::pair_tys(indexes@);
            indexes.push((t.clone(), value.clone()));
            assert(types::pair_tys(indexes@) =~= before.push((t@, value@)));
        } else {
            let ghost before = types::field_tys(fields@);
            fields.push((key.clone(), value.clone()));
            assert(types::field_tys(fields@) =~= before.push((key@, value@)));
        }
        i += 1;
    }
    assert(all.take(i as int) =~= all);
    (fields, indexes)
}

fn list_opt_entries(db: &DbIndex, members: &Option<TypeMembers>) -> (r: Vec<(LuaMemberKey, LuaType)>)
    ensures
        types::field_tys(r@) == opt_entries(db@, collect::opt_members(*members)),
    decreases db@.room, 5nat,
{
    match members {
        Some(members) => symbol_entries(db, members),
        None => {
            let r: Vec<(LuaMemberKey, LuaType)> = Vec::new();
            assert(types::field_tys(r@) =~= Seq::<(KeyTy, Ty)>::empty());
            r
        },
    }
}

/// The object with the members of two types.
pub fn instantiate_merge_call(db: &DbIndex, operands: &Vec<LuaType>) -> (r: LuaType)
    ensures
        r@ == merged_object(db@, types::tys(operands@)),
    decreases db@.room, 9nat,
{
    assert(types::tys(operands@).len() == operands@.len());
    if operands.len() != 2 {
        return LuaType::Unknown;
    }
    assert(types::tys(operands@)[0] == operands@[0]@ && types::tys(operands@)[1] == operands@[1]@);
    let left = find_members(db, &operands[0]);
    let right = find_members(db, &operands[1]);
    if left.is_none() && right.is_none() {
        return LuaType::Unknown;
    }
    let mut members = list_opt_entries(db, &left);
    let over = list_opt_entries(db, &right);
    overlay_fields(&mut members, &over);
    let (fields, indexes) = split_fields(&members);
    LuaType::Object(Arc::new(LuaObjectType::new_with_fields(fields, indexes)))
}

// ----------------------------------------------------------------------------
// The operators.

/// The type behind an alias that stands as an operand.
pub open spec fn operand_behind(db: DbTy, t: Ty, m: Seq<(GenericTplId, Ty)>) -> Option<Ty> {
    match t {
        Ty::Ref(id) => match db::decl_of(db, id) {
            Some(decl) => if decl.kind is Alias {
                match decl.alias_ref {
                    Some(origin) => Some(db::evaluated(db, db::evaluated(db, origin, m), m)),
                    None => None,
                }
            } else {
                None
            },
            None => None,
        },
        _ => None,
    }
}

/// What a template that stands as an operand is bound to.
pub open spec fn operand_bound(t: Ty, m: Seq<(GenericTplId, Ty)>) -> Option<Ty> {
    match t {
        Ty::TplRef(tpl) => db::first_value(m, tpl.tpl_id),
        _ => None,
    }
}

/// The key that the second operand stands for.
pub open spec fn operand_key(db: DbTy, raw: Ty, filled: Ty, m: Seq<(GenericTplId, Ty)>) -> Ty {
    match operand_bound(raw, m) {
        Some(t) => t,
        None => match operand_behind(db, filled, m) {
            Some(t) => t,
            None => filled,
        },
    }
}

pub open spec fn any_open(types: Seq<Ty>) -> bool {
    exists|i: int| 0 <= i < types.len() && traverse::holds_tpl(traverse::preorder(#[trigger] types[i]))
}

/// The type that an operator on types stands for.
pub open spec fn call_type(db: DbTy, call: CallTy, m: Seq<(GenericTplId, Ty)>) -> Ty {
    let operands = db::evaluated_all(db, call.operand, m);
    let stays = Ty::Call(Box::new(CallTy { call_kind: call.call_kind, operand: operands }));
    match call.call_kind {
        LuaAliasCallKind::Unpack => unpacked(db, operands),
        LuaAliasCallKind::Merge => merged_object(db, operands),
        LuaAliasCallKind::KeyOf => if operands.len() != 1 {
            Ty::Unknown
        } else {
            db::union_all_ty(
                literal_types(
                    keys_or_none(
                        keyed_members(
                            db,
                            match operand_behind(db, operands[0], m) {
                                Some(t) => t,
                                None => operands[0],
                            },
                        ),
                    ),
                ),
            )
        },
        _ => if operands.len() != 2 {
            Ty::Unknown
        } else {
            match call.call_kind {
                LuaAliasCallKind::Sub => db::remove_ty(operands[0], operands[1]),
                LuaAliasCallKind::Add => db::union_ty(operands[0], operands[1]),
                LuaAliasCallKind::Select => selected(operands[0], operands[1]),
                LuaAliasCallKind::Extends => if any_open(operands) {
                    stays
                } else {
                    Ty::BooleanConst(assignable::surely_fits(db, operands[0], operands[1]))
                },
                LuaAliasCallKind::RawGet => if any_open(operands) {
                    stays
                } else {
                    read_member(
                        db,
                        operands[0],
                        operand_key(db, call.operand[1], operands[1], m),
                        false,
                    )
                },
                _ => if any_open(operands) {
                    stays
                } else {
                    indexed_type(
                        db,
                        operands[0],
                        operand_key(db, call.operand[1], operands[1], m),
                    )
                },
            }
        },
    }
}

fn instantiate_alias_origin_operand(
    db: &DbIndex,
    operand: &LuaType,
    substitutor: &TypeSubstitutor,
) -> (r: Option<LuaType>)
    ensures
        types::opt_ty(r) == operand_behind(db@, operand@, substitutor@),
    decreases db@.room, 2nat,
{
    match operand {
        LuaType::Ref(id) => match db.get_type_decl(id) {
            Some(decl) => if decl.is_alias() {
                match decl.get_alias_ref() {
                    Some(origin) => {
                        let origin = instantiate_type_generic(db, origin, substitutor);
                        Some(instantiate_type_generic(db, &origin, substitutor))
                    },
                    None => None,
                }
            } else {
                None
            },
            None => None,
        },
        _ => None,
    }
}

fn resolve_literal_operand(operand: &LuaType, substitutor: &TypeSubstitutor) -> (r: Option<LuaType>)
    ensures
        types::opt_ty(r) == operand_bound(operand@, substitutor@),
{
    match operand {
        LuaType::TplRef(tpl) => match substitutor.resolve_type(tpl.get_tpl_id()) {
            Some(t) => Some(t.clone()),
            None => None,
        },
        _ => None,
    }
}

fn resolve_operand_key(
    db: &DbIndex,
    raw: &LuaType,
    filled: &LuaType,
    substitutor: &TypeSubstitutor,
) -> (r: LuaType)
    ensures
        r@ == operand_key(db@, raw@, filled@, substitutor@),
    decreases db@.room, 3nat,
{
    if let Some(t) = resolve_literal_operand(raw, substitutor) {
        return t;
    }
    match instantiate_alias_origin_operand(db, filled, substitutor) {
        Some(t) => t,
        None => filled.clone(),
    }
}

fn is_any_open(types: &Vec<LuaType>) -> (r: bool)
    ensures
        r == any_open(types::tys(types@)),
{
    let ghost all = types::tys(types@);
    let mut i: usize = 0;
    while i < types.len()
        invariant
            i <= types@.len(),
            all == types::tys(types@),
            forall|j: int| 0 <= j < i ==> !traverse::holds_tpl(traverse::preorder(#[trigger] all[j])),
        decreases types@.len() - i,
    {
        assert(all[i as int] == types@[i as int]@);
        if types[i].contain_tpl() {
            return true;
        }
        i += 1;
    }
    false
}

fn instantiate_keyof_call(db: &DbIndex, operand: &LuaType, substitutor: &TypeSubstitutor) -> (r:
    LuaType)
    ensures
        r@ == db::union_all_ty(
            literal_types(
                keys_or_none(
                    keyed_members(
                        db@,
                        match operand_behind(db@, operand@, substitutor@) {
                            Some(t) => t,
                            None => operand@,
                        },
                    ),
                ),
            ),
        ),
    decreases db@.room, 12nat,
{
    let owner = match instantiate_alias_origin_operand(db, operand, substitutor) {
        Some(t) => t,
        None => operand.clone(),
    };
    let members = list_keyof_members(db, &owner);
    let keys = list_literal_types(&members);
    TypeOps::union_all(&keys)
}

fn instantiate_pair_call(
    db: &DbIndex,
    alias_call: &LuaAliasCallType,
    operands: Vec<LuaType>,
    substitutor: &TypeSubstitutor,
) -> (r: LuaType)
    requires
        types::tys(operands@) == db::evaluated_all(db@, alias_call@.operand, substitutor@),
        operands@.len() == 2,
        !(alias_call.call_kind is Unpack) && !(alias_call.call_kind is Merge),
        !(alias_call.call_kind is KeyOf),
    ensures
        r@ == call_type(db@, alias_call@, substitutor@),
    decreases db@.room, 25nat,
{
    assert(alias_call@.operand == types::tys(alias_call.operand@));
    assert(types::tys(operands@).len() == operands@.len());
    assert(db::evaluated_all(db@, alias_call@.operand, substitutor@).len() == alias_call@.operand.len());
    assert(types::tys(operands@)[0] == operands@[0]@ && types::tys(operands@)[1] == operands@[1]@);
    match alias_call.call_kind {
        LuaAliasCallKind::Sub => TypeOps::remove(&operands[0], &operands[1]),
        LuaAliasCallKind::Add => TypeOps::union(&operands[0], &operands[1]),
        LuaAliasCallKind::Select => instantiate_select_call(&operands[0], &operands[1]),
        kind => {
            if is_any_open(&operands) {
                return LuaType::Call(Arc::new(LuaAliasCallType::new(kind, operands)));
            }
            if let LuaAliasCallKind::Extends = kind {
                return LuaType::BooleanConst(is_surely_assignable(db, &operands[0], &operands[1]));
            }
            assert(types::tys(alias_call.operand@)[1] == alias_call.operand@[1]@);
            let key = resolve_operand_key(db, &alias_call.operand[1], &operands[1], substitutor);
            if let LuaAliasCallKind::RawGet = kind {
                instantiate_rawget_call(db, &operands[0], &key)
            } else {
                instantiate_index_call(db, &operands[0], &key)
            }
        },
    }
}

/// The type that an operator on types stands for.
pub fn instantiate_alias_call(
    db: &DbIndex,
    alias_call: &LuaAliasCallType,
    substitutor: &TypeSubstitutor,
) -> (r: LuaType)
    ensures
        r@ == call_type(db@, alias_call@, substitutor@),
    decreases db@.room, 26nat,
{
    assert(alias_call@.operand == types::tys(alias_call.operand@));
    let operands = instantiate_types(db, &alias_call.operand, substitutor);
    assert(types::tys(operands@).len() == operands@.len());
    match alias_call.call_kind {
        LuaAliasCallKind::Unpack => instantiate_unpack_call(db, &operands),
        LuaAliasCallKind::Merge => instantiate_merge_call(db, &operands),
        LuaAliasCallKind::KeyOf => {
            if operands.len() != 1 {
                return LuaType::Unknown;
            }
            assert(types::tys(operands@)[0] == operands@[0]@);
            instantiate_keyof_call(db, &operands[0], substitutor)
        },
        _ => {
            if operands.len() != 2 {
                return LuaType::Unknown;
            }
            instantiate_pair_call(db, alias_call, operands, substitutor)
        },
    }
}

} // verus!
