//! The signatures by which a value can be called.

use std::sync::Arc;
use vstd::prelude::*;

use crate::{db, types};
use crate::db::{DbIndex, DbTy, clone_functions};
use crate::generic::substitutor;
use crate::generic::substitutor::{TypeSubstitutor, instantiate_function};
use crate::member::collect;
use crate::member::collect::instantiate;
use crate::type_check::{normalize, simple};
use crate::type_check::normalize::normalize_type;
use crate::types::{
    FunctionTy, GenericParam, GenericTplId, GenericTy, LuaFunctionType, LuaGenericType,
    LuaSignatureId, LuaType, LuaTypeDeclId, ParamTy, Ty, complex, equality,
};

verus! {

/// How often a type is replaced by what it stands for on the way to its signatures: as often as can be
/// counted.
pub open spec fn call_limit() -> nat {
    usize::MAX as nat
}

pub open spec fn subst_functions(
    db: DbTy,
    functions: Seq<FunctionTy>,
    m: Option<Seq<(GenericTplId, Ty)>>,
) -> Seq<FunctionTy> {
    Seq::new(
        functions.len(),
        |i: int|
            match m {
                Some(m) => db::evaluated_function(db, complex::call_operator_function(functions[i]), m),
                None => complex::call_operator_function(functions[i]),
            },
    )
}

/// The signatures under which a value of the type can be called, over at most `room` steps.
pub open spec fn signatures_of(db: DbTy, t: Ty, room: nat) -> Seq<FunctionTy>
    decreases room, 2nat,
{
    match t {
        Ty::DocFunction(f) => seq![*f],
        Ty::Signature(id) => match db::signature_of(db, id) {
            Some(signature) => signature.overloads.push(signature.function),
            None => Seq::empty(),
        },
        Ty::Ref(id) => declared_signatures(db, id, None, room),
        Ty::Def(id) => declared_signatures(db, id, None, room),
        Ty::Generic(g) => declared_signatures(db, g.base, Some(substitutor::args_subst(g.params)), room),
        Ty::TableConst(range) => subst_functions(db, db::table_calls_of(db, range), None),
        _ => Seq::empty(),
    }
}

/// The signatures of a declared type: those of an alias are those of what it stands for, a class
/// without call operators of its own has those of its first super type with any.
pub open spec fn declared_signatures(
    db: DbTy,
    id: Seq<char>,
    m: Option<Seq<(GenericTplId, Ty)>>,
    room: nat,
) -> Seq<FunctionTy>
    decreases room, 1nat,
{
    match db::decl_of(db, id) {
        None => Seq::empty(),
        Some(decl) => if decl.kind is Alias {
            match decl.alias_ref {
                Some(origin) => if room == 0 {
                    Seq::empty()
                } else {
                    signatures_of(db, collect::maybe_subst(db, origin, m), (room - 1) as nat)
                },
                None => Seq::empty(),
            }
        } else if decl.call_operators.len() > 0 {
            subst_functions(db, decl.call_operators, m)
        } else if room == 0 {
            Seq::empty()
        } else {
            first_signatures(db, decl.super_types, 0, m, (room - 1) as nat)
        },
    }
}

pub open spec fn first_signatures(
    db: DbTy,
    types: Seq<Ty>,
    i: nat,
    m: Option<Seq<(GenericTplId, Ty)>>,
    room: nat,
) -> Seq<FunctionTy>
    decreases room, 3 + types.len() - i,
{
    if i >= types.len() {
        Seq::empty()
    } else {
        let found = signatures_of(db, collect::maybe_subst(db, types[i as int], m), room);
        if found.len() > 0 {
            found
        } else {
            first_signatures(db, types, i + 1, m, room)
        }
    }
}

/// The callable types that a type offers: any function, or the signatures it can be called under.
/// None where it cannot be called.
#[verifier::opaque]
pub open spec fn call_candidates(db: DbTy, t: Ty, room: nat) -> Option<Seq<Ty>>
    decreases room,
{
    match normalize::normalized(db, t) {
        Some(n) => if !equality::ty_eq(n, t) {
            if room == 0 {
                None
            } else {
                call_candidates(db, n, (room - 1) as nat)
            }
        } else {
            own_candidates(db, t)
        },
        None => own_candidates(db, t),
    }
}

#[verifier::opaque]
pub open spec fn own_candidates(db: DbTy, t: Ty) -> Option<Seq<Ty>> {
    if t is Function {
        Some(seq![Ty::Function])
    } else {
        let found = signatures_of(db, t, db.type_decls.len());
        if found.len() == 0 {
            None
        } else {
            Some(as_functions(found))
        }
    }
}

pub open spec fn as_functions(functions: Seq<FunctionTy>) -> Seq<Ty> {
    Seq::new(functions.len(), |i: int| Ty::DocFunction(Box::new(functions[i])))
}

fn instantiate_calls(
    db: &DbIndex,
    functions: &Vec<Arc<LuaFunctionType>>,
    s: &Option<TypeSubstitutor>,
) -> (r: Vec<Arc<LuaFunctionType>>)
    ensures
        db::function_tys(r@) == subst_functions(db@, db::function_tys(functions@), collect::opt_subst(*s)),
    decreases db@.room, 2nat,
{
    let mut r: Vec<Arc<LuaFunctionType>> = Vec::new();
    let mut i: usize = 0;
    while i < functions.len()
        invariant
            i <= functions@.len(),
            r@.len() == i,
            forall|j: int|
                0 <= j < i ==> (#[trigger] r@[j])@ == subst_functions(
                    db@,
                    db::function_tys(functions@),
                    collect::opt_subst(*s),
                )[j],
        decreases functions@.len() - i,
    {
        let f = functions[i].to_call_operator_func_type();
        match s {
            Some(s) => r.push(Arc::new(instantiate_function(db, &f, s))),
            None => r.push(f),
        }
        i += 1;
    }
    assert(db::function_tys(r@) =~= subst_functions(db@, db::function_tys(functions@), collect::opt_subst(*s)));
    r
}

fn no_functions() -> (r: Vec<Arc<LuaFunctionType>>)
    ensures
        db::function_tys(r@) == Seq::<FunctionTy>::empty(),
{
    let r: Vec<Arc<LuaFunctionType>> = Vec::new();
    assert(db::function_tys(r@) =~= Seq::<FunctionTy>::empty());
    r
}

fn signature_functions(db: &DbIndex, id: LuaSignatureId) -> (r: Vec<Arc<LuaFunctionType>>)
    ensures
        db::function_tys(r@) == (match db::signature_of(db@, id) {
            Some(signature) => signature.overloads.push(signature.function),
            None => Seq::empty(),
        }),
{
    match db.get_signature(id) {
        Some(signature) => {
            let mut r = clone_functions(&signature.overloads);
            let ghost before = db::function_tys(r@);
            r.push(Arc::clone(&signature.function));
            assert(db::function_tys(r@) =~= before.push(signature@.function));
            r
        },
        None => no_functions(),
    }
}

/// Lists the signatures under which a value of the type can be called.
pub fn collect_callable_overloads(db: &DbIndex, t: &LuaType, room: usize) -> (r: Vec<
    Arc<LuaFunctionType>,
>)
    ensures
        db::function_tys(r@) == signatures_of(db@, t@, room as nat),
    decreases db@.room, 3nat, room, 2nat,
{
    match t {
        LuaType::DocFunction(f) => {
            let mut r = no_functions();
            r.push(Arc::clone(f));
            assert(db::function_tys(r@) =~= seq![f@]);
            r
        },
        LuaType::Signature(id) => signature_functions(db, *id),
        LuaType::Ref(id) => collect_declared_overloads(db, id, &None, room),
        LuaType::Def(id) => collect_declared_overloads(db, id, &None, room),
        LuaType::Generic(g) => {
            let s = Some(TypeSubstitutor::from_type_array(&g.params));
            assert(g@.params == types::tys(g.params@) && g@.base == g.base@);
            collect_declared_overloads(db, &g.base, &s, room)
        },
        LuaType::TableConst(range) => {
            let calls = db.get_table_calls(*range);
            instantiate_calls(db, &calls, &None)
        },
        _ => no_functions(),
    }
}

fn collect_declared_overloads(
    db: &DbIndex,
    id: &LuaTypeDeclId,
    s: &Option<TypeSubstitutor>,
    room: usize,
) -> (r: Vec<Arc<LuaFunctionType>>)
    ensures
        db::function_tys(r@) == declared_signatures(db@, id@, collect::opt_subst(*s), room as nat),
    decreases db@.room, 3nat, room, 1nat,
{
    match db.get_type_decl(id) {
        None => no_functions(),
        Some(decl) => {
            if decl.is_alias() {
                match decl.get_alias_ref() {
                    Some(origin) => if room == 0 {
                        no_functions()
                    } else {
                        let origin = instantiate(db, origin, s);
                        collect_callable_overloads(db, &origin, room - 1)
                    },
                    None => no_functions(),
                }
            } else if decl.call_operators.len() > 0 {
                instantiate_calls(db, &decl.call_operators, s)
            } else if room == 0 {
                no_functions()
            } else {
                collect_inherited_overloads(db, &decl.super_types, s, room - 1)
            }
        },
    }
}

#[verifier::loop_isolation(false)]
fn collect_inherited_overloads(
    db: &DbIndex,
    types: &Vec<LuaType>,
    s: &Option<TypeSubstitutor>,
    room: usize,
) -> (r: Vec<Arc<LuaFunctionType>>)
    ensures
        db::function_tys(r@) == first_signatures(db@, types::tys(types@), 0, collect::opt_subst(*s), room as nat),
    decreases db@.room, 3nat, room, 3nat,
{
    let ghost all = types::tys(types@);
    let mut i: usize = 0;
    while i < types.len()
        invariant
            i <= types@.len(),
            first_signatures(db@, all, 0, collect::opt_subst(*s), room as nat) == first_signatures(
                db@,
                all,
                i as nat,
                collect::opt_subst(*s),
                room as nat,
            ),
        decreases types@.len() - i,
    {
        assert(all[i as int] == types@[i as int]@);
        let t = instantiate(db, &types[i], s);
        let found = collect_callable_overloads(db, &t, room);
        if found.len() > 0 {
            return found;
        }
        i += 1;
    }
    no_functions()
}

fn functions_as_types(functions: &Vec<Arc<LuaFunctionType>>) -> (r: Vec<LuaType>)
    ensures
        types::tys(r@) == as_functions(db::function_tys(functions@)),
{
    let mut r: Vec<LuaType> = Vec::new();
    let mut i: usize = 0;
    while i < functions.len()
        invariant
            i <= functions@.len(),
            r@.len() == i,
            forall|j: int|
                0 <= j < i ==> (#[trigger] r@[j])@ == as_functions(db::function_tys(functions@))[j],
        decreases functions@.len() - i,
    {
        r.push(LuaType::DocFunction(Arc::clone(&functions[i])));
        i += 1;
    }
    assert(types::tys(r@) =~= as_functions(db::function_tys(functions@)));
    r
}

pub open spec fn opt_tys_of(r: Option<Vec<LuaType>>) -> Option<Seq<Ty>> {
    match r {
        Some(types) => Some(types::tys(types@)),
        None => None,
    }
}

fn list_own_candidates(db: &DbIndex, t: &LuaType) -> (r: Option<Vec<LuaType>>)
    ensures
        opt_tys_of(r) == own_candidates(db@, t@),
    decreases db@.room, 4nat,
{
    proof {
        reveal(own_candidates);
    }
    if let LuaType::Function = t {
        let mut r: Vec<LuaType> = Vec::new();
        r.push(LuaType::Function);
        assert(types::tys(r@) =~= seq![Ty::Function]);
        return Some(r);
    }
    let found = collect_callable_overloads(db, t, db.decl_count());
    if found.len() == 0 {
        None
    } else {
        Some(functions_as_types(&found))
    }
}

/// The callable types that a type offers, over at most `room` steps to what it stands for.
pub fn callable_candidates(db: &DbIndex, t: &LuaType, room: usize) -> (r: Option<Vec<LuaType>>)
    ensures
        opt_tys_of(r) == call_candidates(db@, t@, room as nat),
    decreases db@.room, 5nat, room,
{
    proof {
        reveal(call_candidates);
    }
    if let Some(n) = normalize_type(db, t) {
        if !n.same(t) {
            if room == 0 {
                return None;
            }
            return callable_candidates(db, &n, room - 1);
        }
    }
    list_own_candidates(db, t)
}

/// A declared type all of whose parameters have a default, with those defaults as its arguments.
#[verifier::opaque]
pub open spec fn with_default_args(db: DbTy, t: Ty) -> Ty {
    match simple::decl_name(t) {
        Some(id) => match db::decl_of(db, id) {
            Some(decl) => if decl.generic_params.len() > 0 && all_have_defaults(
                decl.generic_params,
            ) {
                Ty::Generic(Box::new(GenericTy { base: id, params: defaults_of(decl.generic_params) }))
            } else {
                t
            },
            None => t,
        },
        None => t,
    }
}

pub open spec fn all_have_defaults(params: Seq<ParamTy>) -> bool {
    forall|i: int| 0 <= i < params.len() ==> (#[trigger] params[i]).default is Some
}

pub open spec fn defaults_of(params: Seq<ParamTy>) -> Seq<Ty> {
    Seq::new(params.len(), |i: int| params[i].default.unwrap())
}

fn list_defaults(params: &Vec<GenericParam>) -> (r: Option<Vec<LuaType>>)
    ensures
        r is Some <==> all_have_defaults(types::param_tys(params@)),
        r matches Some(types) ==> types::tys(types@) == defaults_of(types::param_tys(params@)),
{
    let ghost all = types::param_tys(params@);
    let mut types: Vec<LuaType> = Vec::new();
    let mut i: usize = 0;
    while i < params.len()
        invariant
            i <= params@.len(),
            all == types::param_tys(params@),
            types@.len() == i,
            forall|j: int|
                0 <= j < i ==> (#[trigger] all[j]).default == Some(types@[j]@),
        decreases params@.len() - i,
    {
        assert(all[i as int] == params@[i as int]@);
        match &params[i].default {
            Some(t) => {
                types.push(t.clone());
            },
            None => {
                assert(all[i as int].default is None);
                return None;
            },
        }
        i += 1;
    }
    proof {
        assert forall|j: int| 0 <= j < all.len() implies #[trigger] types::tys(types@)[j]
            == defaults_of(all)[j] by {
            assert(all[j].default == Some(types@[j]@));
        }
        assert(types::tys(types@) =~= defaults_of(all));
    }
    Some(types)
}

/// Fills in the default arguments of a declared type.
pub fn complete_type_generic_args_in_type(db: &DbIndex, t: &LuaType) -> (r: LuaType)
    ensures
        r@ == with_default_args(db@, t@),
{
    proof {
        reveal(with_default_args);
    }
    let id = match t {
        LuaType::Ref(id) => id,
        LuaType::Def(id) => id,
        _ => {
            return t.clone();
        },
    };
    if let Some(decl) = db.get_type_decl(id) {
        if decl.generic_params.len() > 0 {
            if let Some(params) = list_defaults(&decl.generic_params) {
                return LuaType::Generic(Arc::new(LuaGenericType::new(id.clone(), params)));
            }
        }
    }
    t.clone()
}

} // verus!
