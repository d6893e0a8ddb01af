//! What is left of templates, and what classes make of their arguments.

use vstd::prelude::*;

use crate::db;
use crate::db::{DbTy, DeclTy, SignatureTy, TablesTy};
use crate::generic::{actualize, conditional, infer_match, instantiate, substitutor};
use crate::generic::conditional::{CandidateTy, InferVariance};
use crate::generic::infer_match::MatchTy;
use crate::laws::{conditions, indexing};
use crate::type_check::callable_types;
use crate::types::{
    ArrayTy, ConditionalTy, FunctionTy, GenericTplId, GenericTy, KeyTy, LuaArrayLen, LuaSignatureId,
    ObjectTy, ParamTy, TplTy, Ty, complex,
};

verus! {

/// A template that is left is unknown, wherever it stands, unless a pattern binds it.
pub proof fn templates_that_are_left_are_unknown(
    tpl: TplTy,
    leaf: Ty,
    len: LuaArrayLen,
    key: KeyTy,
    base: Seq<char>,
)
    requires
        !(tpl.tpl_id is ConditionalInfer),
        conditions::is_leaf(leaf),
    ensures
        ({
            let slot = Ty::TplRef(Box::new(tpl));
            &&& actualize::actual(slot) == Ty::Unknown
            &&& actualize::actual(leaf) == leaf
            &&& actualize::actual(Ty::Array(Box::new(ArrayTy { base: slot, len }))) == Ty::Array(
                Box::new(ArrayTy { base: Ty::Unknown, len }),
            )
            &&& actualize::actual(Ty::TableGeneric(seq![leaf, slot])) == Ty::TableGeneric(
                seq![leaf, Ty::Unknown],
            )
            &&& actualize::actual(Ty::Generic(Box::new(GenericTy { base, params: seq![slot, leaf] })))
                == Ty::Generic(Box::new(GenericTy { base, params: seq![Ty::Unknown, leaf] }))
            &&& actualize::actual(
                Ty::Object(
                    Box::new(ObjectTy { fields: seq![(key, slot)], index_access: Seq::empty() }),
                ),
            ) == Ty::Object(
                Box::new(ObjectTy { fields: seq![(key, Ty::Unknown)], index_access: Seq::empty() }),
            )
        }),
{
    let slot = Ty::TplRef(Box::new(tpl));
    assert(actualize::actual(slot) == Ty::Unknown && actualize::actual(leaf) == leaf);
    assert(actualize::actual_all(seq![leaf, slot]) =~= seq![leaf, Ty::Unknown]);
    assert(actualize::actual_all(seq![slot, leaf]) =~= seq![Ty::Unknown, leaf]);
    assert(actualize::actual_fields(seq![(key, slot)]) =~= seq![(key, Ty::Unknown)]);
    assert(actualize::actual_pairs(Seq::empty()) =~= Seq::<(Ty, Ty)>::empty());
}

/// A template that a pattern binds stays.
pub proof fn bound_templates_stay(id: u32, param: ParamTy)
    ensures
        actualize::actual(conditions::infer_slot(id, param)) == conditions::infer_slot(id, param),
{
}

/// A condition on what a class makes is on its constructor.
pub proof fn class_that_is_made_is_its_constructor(
    db: DbTy,
    id: Seq<char>,
    decl: DeclTy,
)
    requires
        db::decl_of(db, id) == Some(decl),
    ensures
        decl.kind is Class ==> instantiate::made_by(db, Ty::Ref(id)) == decl.constructor,
        decl.kind is Class ==> instantiate::made_by(db, Ty::Def(id)) == decl.constructor,
        !(decl.kind is Class) ==> instantiate::made_by(db, Ty::Ref(id)) is None,
        instantiate::made_by(db, Ty::String) is None,
{
}

/// The fields of a pattern bind what the object has under their names; a field that is missing may not
/// bind anything.
pub proof fn fields_of_a_pattern_bind_by_name(
    db: DbTy,
    id: u32,
    param: ParamTy,
    name: Seq<char>,
    t: Ty,
)
    ensures
        ({
            let object = |x: Ty| Ty::Object(
                Box::new(
                    ObjectTy { fields: seq![(KeyTy::Name(name), x)], index_access: Seq::empty() },
                ),
            );
            let empty = Ty::Object(
                Box::new(ObjectTy { fields: Seq::empty(), index_access: Seq::empty() }),
            );
            let pattern = object(conditions::infer_slot(id, param));
            let r = infer_match::matched(db, object(t), pattern, Seq::empty(), InferVariance::Covariant);
            &&& r.ok
            &&& conditional::finalized(r.m) == seq![(GenericTplId::ConditionalInfer(id), t)]
            &&& !infer_match::matched(db, empty, pattern, Seq::empty(), InferVariance::Covariant).ok
        }),
{
    let slot = conditions::infer_slot(id, param);
    let key = KeyTy::Name(name);
    let x = ObjectTy { fields: seq![(key, t)], index_access: Seq::empty() };
    let p = ObjectTy { fields: seq![(key, slot)], index_access: Seq::empty() };
    let e = ObjectTy { fields: Seq::empty(), index_access: Seq::empty() };
    let s = Ty::Object(Box::new(x));
    let none = Seq::<(GenericTplId, CandidateTy)>::empty();
    let tid = GenericTplId::ConditionalInfer(id);
    let up = InferVariance::Covariant;
    let c = CandidateTy { covariant: Some(t), contravariant: None };
    indexing::lemma_first_field(x.fields, key, 0);
    indexing::lemma_no_field(e.fields, key);
    conditions::lemma_infer_slot(id, param);
    conditions::lemma_finalized_one(id, c);
    assert(p.fields[0] == (key, slot));
    let one = MatchTy { ok: true, m: seq![(tid, c)] };
    assert(infer_match::matched(db, t, slot, none, up) == one);
    assert(infer_match::matched_fields(db, s, p.fields, 1, one.m, up) == one);
    assert(infer_match::matched_member(db, s, key) == Some(t));
    assert(infer_match::matched_fields(db, s, p.fields, 0, none, up) == one);
    assert(infer_match::matched(db, s, Ty::Object(Box::new(p)), none, up) == one);
    let f = Ty::Object(Box::new(e));
    assert(infer_match::matched_member(db, f, key) is None);
    assert(!infer_match::matched_fields(db, f, p.fields, 0, none, up).ok);
}

/// Where a pattern matches, the first branch is taken with what it binds; else the second.
pub proof fn pattern_decides_the_branch(
    x: TablesTy,
    room: nat,
    leaf: Ty,
    id: u32,
    param: ParamTy,
    yes: Ty,
    no: Ty,
    m: Seq<(GenericTplId, Ty)>,
)
    requires
        conditions::is_leaf(leaf),
        db::first_value(m, GenericTplId::ConditionalInfer(id)) is None,
    ensures
        ({
            let db = substitutor::index_at(x, room);
            let slot = conditions::infer_slot(id, param);
            let tid = GenericTplId::ConditionalInfer(id);
            let condition = |t: Ty| ConditionalTy {
                checked_type: leaf,
                extends_type: t,
                true_type: yes,
                false_type: no,
                infer_params: Seq::empty(),
                has_new: false,
            };
            instantiate::conditional_type(db, condition(slot), m) == substitutor::instantiated(
                x,
                yes,
                substitutor::with_binding(m, tid, leaf),
                room,
            )
        }),
{
    let db = substitutor::index_at(x, room);
    let slot = conditions::infer_slot(id, param);
    let tid = GenericTplId::ConditionalInfer(id);
    let none = Seq::<(GenericTplId, CandidateTy)>::empty();
    let c = CandidateTy { covariant: Some(leaf), contravariant: None };
    conditions::lemma_leaf(x, leaf, m, room);
    conditions::lemma_infer_slot(id, param);
    conditions::lemma_finalized_one(id, c);
    assert(infer_match::matched(db, leaf, slot, none, InferVariance::Covariant).m == seq![(tid, c)]);
    let more = seq![(tid, leaf)];
    reveal_with_fuel(instantiate::with_bindings, 2);
    assert(more.drop_last() =~= Seq::<(GenericTplId, Ty)>::empty());
    assert(instantiate::with_bindings(m, more) == substitutor::with_binding(m, tid, leaf));
    assert(actualize::actual(slot) == slot);
}

/// A function is behind a type that is one, a signature, or an alias of one.
pub proof fn function_behind_a_type(
    db: DbTy,
    f: FunctionTy,
    id: Seq<char>,
    decl: DeclTy,
    signature: LuaSignatureId,
    known: SignatureTy,
    room: nat,
)
    requires
        room > 0,
        db::decl_of(db, id) == Some(decl),
        decl.kind is Alias,
        decl.alias_ref == Some(Ty::DocFunction(Box::new(f))),
        db::signature_of(db, signature) == Some(known),
    ensures
        infer_match::function_behind(db, Ty::DocFunction(Box::new(f)), room) == Some(f),
        infer_match::function_behind(db, Ty::Ref(id), room) == Some(f),
        infer_match::function_behind(db, Ty::Signature(signature), room) == Some(known.function),
        infer_match::function_behind(db, Ty::String, room) is None,
{
    reveal_with_fuel(infer_match::function_behind, 2);
}

/// A type can be called under its own signature, under those of a function literal with its overloads,
/// and under the call operators of its class.
pub proof fn signatures_under_which_a_type_is_called(
    db: DbTy,
    f: FunctionTy,
    id: Seq<char>,
    decl: DeclTy,
    signature: LuaSignatureId,
    known: SignatureTy,
    room: nat,
)
    requires
        db::decl_of(db, id) == Some(decl),
        decl.kind is Class,
        decl.call_operators == seq![f],
        db::signature_of(db, signature) == Some(known),
    ensures
        callable_types::signatures_of(db, Ty::DocFunction(Box::new(f)), room) == seq![f],
        callable_types::signatures_of(db, Ty::Signature(signature), room) == known.overloads.push(known.function),
        callable_types::signatures_of(db, Ty::Ref(id), room) == seq![complex::call_operator_function(f)],
        callable_types::signatures_of(db, Ty::String, room).len() == 0,
{
    reveal_with_fuel(callable_types::signatures_of, 2);
    reveal_with_fuel(callable_types::declared_signatures, 2);
    assert(callable_types::subst_functions(db, seq![f], None) =~= seq![complex::call_operator_function(f)]);
}

/// A call operator is called without its receiver.
pub proof fn call_operator_drops_its_receiver(f: FunctionTy, t: Option<Ty>, name: Seq<char>)
    requires
        name != "@call_self"@,
    ensures
        complex::call_operator_function(FunctionTy { params: seq![("@call_self"@, t), (name, t)], ..f }).params
            == seq![(name, t)],
        complex::call_operator_function(FunctionTy { params: seq![(name, t)], ..f }).params == seq![(name, t)],
        complex::call_operator_function(f).ret == f.ret,
        !complex::call_operator_function(f).is_colon_define,
{
    let all = seq![("@call_self"@, t), (name, t)];
    assert(all[0].0 == "@call_self"@);
    assert(all.skip(1) =~= seq![(name, t)]);
    assert(seq![(name, t)][0].0 == name);
}

/// A class inherits from itself, from its super types and from theirs.
pub proof fn class_inherits_from_its_super_types(
    db: DbTy,
    a: Seq<char>,
    b: Seq<char>,
    c: Seq<char>,
    x: DeclTy,
    y: DeclTy,
    z: DeclTy,
    depth: nat,
)
    requires
        db::decl_of(db, a) == Some(x),
        db::decl_of(db, b) == Some(y),
        db::decl_of(db, c) == Some(z),
        x.super_types == seq![Ty::Ref(b)],
        y.super_types == seq![Ty::Ref(c)],
        z.super_types.len() == 0,
        a != b && b != c && a != c,
        depth >= 2,
    ensures
        db::inherits(db, a, a, depth),
        db::inherits(db, a, b, depth),
        db::inherits(db, a, c, depth),
        !db::inherits(db, c, a, depth),
        !db::inherits(db, c, b, depth),
        !db::inherits(db, b, a, depth),
{
    let one = (depth - 1) as nat;
    let two = (depth - 2) as nat;
    assert(db::inherits(db, c, c, two));
    assert(db::super_inherits(db, Ty::Ref(c), c, two));
    assert(y.super_types[0] == Ty::Ref(c));
    assert(db::super_inherits(db, y.super_types[0], c, two));
    assert(db::inherits(db, b, c, one));
    assert(db::inherits(db, b, b, one));
    assert(db::super_inherits(db, Ty::Ref(b), c, one));
    assert(db::super_inherits(db, Ty::Ref(b), b, one));
    assert(x.super_types[0] == Ty::Ref(b));
    assert(db::super_inherits(db, x.super_types[0], c, one));
    assert(db::super_inherits(db, x.super_types[0], b, one));
    assert(!db::inherits(db, c, a, one));
    assert(!db::super_inherits(db, y.super_types[0], a, one));
}

} // verus!
