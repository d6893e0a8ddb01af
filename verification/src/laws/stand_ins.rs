//! How types that stand for others are compared, and how misfits are explained.

use vstd::prelude::*;

use crate::db;
use crate::db::{DbTy, DeclTy};
use crate::generic::conditional;
use crate::laws::{fitting, joining};
use crate::member::raw;
use crate::member::raw::InferFailReason;
use crate::type_check::{
    assignable, callable, callable_types, error_chain, normalize, relation, simple,
};
use crate::type_check::error_chain::MessageTy;
use crate::type_check::relation::{IntersectionState, RelScope, RelState, RelationFailure};
use crate::type_check::structured::{dispatch, tuple};
use crate::types::{
    ArrayTy, FunctionTy, GenericTy, InFiled, InstanceTy, KeyTy, LuaArrayLen, LuaTupleStatus,
    ParamTy, TplTy, TupleTy, Ty, UnionTy, equality,
};

verus! {

proof fn lemma_stands_for(db: DbTy, s: Ty, t: Ty, b: Ty)
    requires
        fitting::value_kind(s) is Some,
        fitting::value_kind(b) is Some,
        simple::simple_answer(s, t) is None,
        simple::simple_answer(t, s) is None,
        !relation::is_listed_value(db, s, t),
        !(t is Ref),
        relation::unfolded(db, t) == Some(b),
    ensures
        assignable::fits(db, s, t) == fitting::value_fits(s, b),
        assignable::fits(db, t, s) == fitting::value_fits(b, s),
{
    let state = IntersectionState::Plain;
    fitting::lemma_own_form(db, s);
    fitting::lemma_asked(db, s, t);
    assert(!relation::is_exact_value(t)) by {
        reveal(normalize::normalized);
    }
    fitting::lemma_asked(db, t, s);
    fitting::lemma_value_step(fitting::first_scope(db, s, t, false), fitting::first_state(s, t), s, b, state);
    fitting::lemma_value_step(fitting::first_scope(db, t, s, false), fitting::first_state(t, s), b, s, state);
    if equality::ty_eq(s, b) {
        assert(fitting::value_fits(s, b));
    }
}

/// An instance is compared as the type that it is of, a type guard as a truth value, and a template as
/// its bound.
pub proof fn stand_ins_are_compared_as_what_they_stand_for(
    db: DbTy,
    s: Ty,
    b: Ty,
    range: InFiled,
    guarded: Ty,
    tpl: TplTy,
)
    requires
        fitting::value_kind(s) is Some,
        fitting::value_kind(b) is Some,
        tpl.param.constraint == Some(b),
    ensures
        ({
            let instance = Ty::Instance(Box::new(InstanceTy { base: b, range }));
            let guard = Ty::TypeGuard(Box::new(guarded));
            let template = Ty::TplRef(Box::new(tpl));
            &&& assignable::fits(db, s, instance) == fitting::value_fits(s, b)
            &&& assignable::fits(db, instance, s) == fitting::value_fits(b, s)
            &&& assignable::fits(db, s, guard) == fitting::value_fits(s, Ty::Boolean)
            &&& assignable::fits(db, guard, s) == fitting::value_fits(Ty::Boolean, s)
            &&& assignable::fits(db, s, template) == fitting::value_fits(s, b)
            &&& assignable::fits(db, template, s) == fitting::value_fits(b, s)
        }),
{
    let instance = Ty::Instance(Box::new(InstanceTy { base: b, range }));
    let guard = Ty::TypeGuard(Box::new(guarded));
    let template = Ty::TplRef(Box::new(tpl));
    reveal(normalize::normalized);
    reveal(relation::is_listed_value);
    assert(simple::simple_answer(s, instance) is None && simple::simple_answer(instance, s) is None
        && simple::simple_answer(s, guard) is None && simple::simple_answer(guard, s) is None && simple::simple_answer(
        s,
        template,
    ) is None && simple::simple_answer(template, s) is None) by {
        reveal(simple::simple_answer);
    }
    lemma_stands_for(db, s, instance, b);
    lemma_stands_for(db, s, guard, Ty::Boolean);
    lemma_stands_for(db, s, template, b);
}

/// A template without a bound fits everything and is fit by everything but another template.
pub proof fn unbound_template_fits_everything(db: DbTy, s: Ty, tpl: TplTy)
    requires
        fitting::value_kind(s) is Some,
        tpl.param.constraint is None,
    ensures
        assignable::fits(db, s, Ty::TplRef(Box::new(tpl))),
        assignable::fits(db, Ty::TplRef(Box::new(tpl)), s),
{
    let t = Ty::TplRef(Box::new(tpl));
    assert(simple::simple_answer(s, t) == Some(true) && simple::simple_answer(t, s) == Some(true)) by {
        reveal(simple::simple_answer);
    }
    reveal(assignable::fits);
}

/// Nothing is of the empty type, and it fits only itself.
pub proof fn empty_type_fits_only_itself(db: DbTy, s: Ty)
    requires
        fitting::value_kind(s) is Some,
    ensures
        assignable::fits(db, Ty::Never, Ty::Never),
        !assignable::fits(db, s, Ty::Never),
        !assignable::fits(db, Ty::Never, s),
{
    let n = Ty::Never;
    reveal(normalize::normalized);
    assert(simple::simple_answer(n, n) == Some(true) && simple::simple_answer(s, n) is None && simple::simple_answer(
        n,
        s,
    ) is None) by {
        reveal(simple::simple_answer);
    }
    assert(!relation::is_listed_value(db, s, n)) by {
        reveal(relation::is_listed_value);
    }
    assert(assignable::fits(db, n, n)) by {
        reveal(assignable::fits);
    }
    fitting::lemma_own_form(db, s);
    fitting::lemma_asked(db, s, n);
    fitting::lemma_asked(db, n, s);
    let state = IntersectionState::Plain;
    let c = fitting::first_scope(db, s, n, false);
    let st = fitting::first_state(s, n);
    assert(relation::rel_inside(c, st, s, n, state) == relation::rel_plain(c, st, s, n, state));
    let c2 = fitting::first_scope(db, n, s, false);
    let st2 = fitting::first_state(n, s);
    assert(relation::rel_inside(c2, st2, n, s, state) == relation::rel_plain(c2, st2, n, s, state));
}

// ----------------------------------------------------------------------------
// Reasons.

proof fn lemma_value_reason(c: RelScope, st: RelState, s: Ty, t: Ty, message: MessageTy)
    requires
        c.explain,
        st.chain == Seq::<MessageTy>::empty(),
        fitting::value_kind(s) is Some,
        fitting::value_kind(t) is Some,
        !fitting::value_fits(s, t),
        !(message is Field),
    ensures
        ({
            let r = relation::rel_note(c, relation::rel_types(c, st, s, t, IntersectionState::Plain), message);
            &&& r.res == Err::<(), RelationFailure>(RelationFailure::Unrelated)
            &&& r.st.chain == seq![
                message,
                MessageTy::NotAssignable { source: s, target: t },
            ]
        }),
{
    fitting::lemma_value_step(c, st, s, t, IntersectionState::Plain);
    let inner = MessageTy::NotAssignable { source: s, target: t };
    assert(error_chain::pushed(Seq::empty(), inner) =~= seq![inner]);
    assert(error_chain::pushed(seq![inner], message) =~= seq![message, inner]);
}

/// The reason against an array names the element, that against a tuple the place and that against a
/// function the parameter, and then what does not fit there.
pub proof fn misfits_inside_are_named(
    db: DbTy,
    a: Ty,
    b: Ty,
    len: LuaArrayLen,
    status: LuaTupleStatus,
    name: Seq<char>,
    f: FunctionTy,
    g: FunctionTy,
)
    requires
        fitting::value_kind(a) is Some,
        fitting::value_kind(b) is Some,
        !fitting::value_fits(a, b),
        !db.strict_array_index,
        name != "..."@,
        f.params == seq![(name, Some(b))],
        g.params == seq![(name, Some(a))],
        !f.is_colon_define,
        !g.is_colon_define,
    ensures
        ({
            let reason = |s: Ty, t: Ty| assignable::compared(db, assignable::nothing_kept(), s, t, true).st.chain;
            let inner = MessageTy::NotAssignable { source: a, target: b };
            let array = |x: Ty| Ty::Array(Box::new(ArrayTy { base: x, len }));
            let tuple = |x: Ty| Ty::Tuple(Box::new(TupleTy { types: seq![x], status }));
            &&& reason(array(a), array(b)) == seq![MessageTy::ArrayElement, inner]
            &&& reason(tuple(a), tuple(b)) == seq![MessageTy::TupleElement { index: 0 }, inner]
            &&& reason(Ty::DocFunction(Box::new(f)), Ty::DocFunction(Box::new(g))) == seq![
                MessageTy::FunctionParameter { index: 0 },
                inner,
            ]
        }),
{
    lemma_array_reason(db, a, b, len);
    lemma_tuple_reason(db, a, b, status);
    lemma_function_reason(db, a, b, name, f, g);
}

proof fn lemma_array_reason(db: DbTy, a: Ty, b: Ty, len: LuaArrayLen)
    requires
        fitting::value_kind(a) is Some,
        fitting::value_kind(b) is Some,
        !fitting::value_fits(a, b),
        !db.strict_array_index,
    ensures
        assignable::compared(
            db,
            assignable::nothing_kept(),
            Ty::Array(Box::new(ArrayTy { base: a, len })),
            Ty::Array(Box::new(ArrayTy { base: b, len })),
            true,
        ).st.chain == seq![
            MessageTy::ArrayElement,
            MessageTy::NotAssignable { source: a, target: b },
        ],
{
    let s = Ty::Array(Box::new(ArrayTy { base: a, len }));
    let t = Ty::Array(Box::new(ArrayTy { base: b, len }));
    let p = IntersectionState::Plain;
    fitting::lemma_glance_at_parts(s, t);
    assert(!equality::ty_eq(s, t)) by {
        if equality::ty_eq(s, t) {
            assert(equality::ty_eq(a, b));
            fitting::lemma_equal_values(a, b);
        }
    }
    fitting::lemma_first_step(db, s, t, true);
    let c = fitting::first_scope(db, s, t, true);
    let st = fitting::first_state(s, t);
    reveal(normalize::array_slot);
    assert(normalize::array_slot(db, b) == b);
    fitting::lemma_plain_steps(c, st, s, t);
    lemma_value_reason(c, st, a, b, MessageTy::ArrayElement);
    assert(dispatch::rel_to_array(c, st, s, t, b, p) == Some(
        relation::rel_note(c, relation::rel_types(c, st, a, b, p), MessageTy::ArrayElement),
    ));
}

proof fn lemma_tuple_reason(db: DbTy, a: Ty, b: Ty, status: LuaTupleStatus)
    requires
        fitting::value_kind(a) is Some,
        fitting::value_kind(b) is Some,
        !fitting::value_fits(a, b),
    ensures
        assignable::compared(
            db,
            assignable::nothing_kept(),
            Ty::Tuple(Box::new(TupleTy { types: seq![a], status })),
            Ty::Tuple(Box::new(TupleTy { types: seq![b], status })),
            true,
        ).st.chain == seq![
            MessageTy::TupleElement { index: 0 },
            MessageTy::NotAssignable { source: a, target: b },
        ],
{
    let x = seq![a];
    let y = seq![b];
    let s = Ty::Tuple(Box::new(TupleTy { types: x, status }));
    let t = Ty::Tuple(Box::new(TupleTy { types: y, status }));
    let p = IntersectionState::Plain;
    assert(x[0] == a && y[0] == b);
    fitting::lemma_glance_at_parts(s, t);
    assert(!equality::ty_eq(s, t)) by {
        if equality::ty_eq(s, t) {
            assert(equality::tys_eq(x, y));
            assert(equality::ty_eq(x[0], y[0]));
            fitting::lemma_equal_values(a, b);
        }
    }
    fitting::lemma_first_step(db, s, t, true);
    let c = fitting::first_scope(db, s, t, true);
    let st = fitting::first_state(s, t);
    fitting::lemma_plain_steps(c, st, s, t);
    reveal(tuple::looked_at_len);
    reveal(tuple::compared_len);
    reveal(tuple::element_at);
    assert(tuple::compared_len(y, tuple::looked_at_len(x)) == 1);
    assert(tuple::element_at(x, 0) == Some(a) && tuple::element_at(y, 0) == Some(b));
    let spent = relation::rel_spend(st).st;
    lemma_value_reason(c, spent, a, b, MessageTy::TupleElement { index: 0 });
    let r = tuple::rel_element(c, st, Some(a), y, 0, p);
    assert(r == relation::rel_note(
        c,
        relation::rel_types(c, spent, a, b, p),
        MessageTy::TupleElement { index: 0 },
    ));
    assert(tuple::rel_elements(c, st, x, y, 0, 1, p) == r);
    assert(tuple::rel_tuple_tuple(c, st, x, y, p) == r);
    assert(dispatch::rel_to_structure(c, st, s, t, p) == Some(r));
}

proof fn lemma_function_reason(
    db: DbTy,
    a: Ty,
    b: Ty,
    name: Seq<char>,
    f: FunctionTy,
    g: FunctionTy,
)
    requires
        fitting::value_kind(a) is Some,
        fitting::value_kind(b) is Some,
        !fitting::value_fits(a, b),
        name != "..."@,
        f.params == seq![(name, Some(b))],
        g.params == seq![(name, Some(a))],
        !f.is_colon_define,
        !g.is_colon_define,
    ensures
        assignable::compared(
            db,
            assignable::nothing_kept(),
            Ty::DocFunction(Box::new(f)),
            Ty::DocFunction(Box::new(g)),
            true,
        ).st.chain == seq![
            MessageTy::FunctionParameter { index: 0 },
            MessageTy::NotAssignable { source: a, target: b },
        ],
{
    let s = Ty::DocFunction(Box::new(f));
    let t = Ty::DocFunction(Box::new(g));
    let p = IntersectionState::Plain;
    assert(f.params[0] == (name, Some(b)) && g.params[0] == (name, Some(a)));
    fitting::lemma_glance_at_parts(s, t);
    assert(!equality::ty_eq(s, t)) by {
        if equality::ty_eq(s, t) {
            assert(equality::named_eq(f.params, g.params));
            assert(equality::opt_eq(f.params[0].1, g.params[0].1));
            fitting::lemma_equal_values(b, a);
        }
    }
    fitting::lemma_first_step(db, s, t, true);
    let c = fitting::first_scope(db, s, t, true);
    let st = fitting::first_state(s, t);
    fitting::lemma_functions(c, st, f, g);
    lemma_value_reason(c, st, a, b, MessageTy::FunctionParameter { index: 0 });
    assert(callable::rel_params(c, st, f.params, g.params, 0, p) == relation::rel_note(
        c,
        relation::rel_types(c, st, a, b, p),
        MessageTy::FunctionParameter { index: 0 },
    ));
}

/// A declared type whose parameters all have a default is the type applied to them.
pub proof fn defaults_complete_a_declared_type(
    db: DbTy,
    id: Seq<char>,
    decl: DeclTy,
    p: ParamTy,
    t: Ty,
)
    requires
        db::decl_of(db, id) == Some(decl),
    ensures
        decl.generic_params == seq![p] && p.default == Some(t) ==> callable_types::with_default_args(db, Ty::Ref(id))
            == Ty::Generic(Box::new(GenericTy { base: id, params: seq![t] })),
        decl.generic_params == seq![p] && p.default is None ==> callable_types::with_default_args(db, Ty::Ref(id))
            == Ty::Ref(id),
        decl.generic_params.len() == 0 ==> callable_types::with_default_args(db, Ty::Ref(id)) == Ty::Ref(id),
{
    reveal(callable_types::with_default_args);
    if decl.generic_params == seq![p] {
        assert(decl.generic_params[0] == p);
        if p.default == Some(t) {
            assert(callable_types::all_have_defaults(decl.generic_params));
            assert(callable_types::defaults_of(decl.generic_params) =~= seq![t]);
        } else if p.default is None {
            assert(!callable_types::all_have_defaults(decl.generic_params));
        }
    }
}

/// An argument may be left out where its parameter may be nil or anything.
pub proof fn arguments_that_may_be_left_out(db: DbTy, t: Ty, room: nat)
    requires
        joining::is_there(t) && !(t is Ref),
    ensures
        conditional::omittable_arg(db, Ty::Nil, room),
        conditional::omittable_arg(db, Ty::Any, room),
        conditional::omittable_arg(db, Ty::Union(Box::new(UnionTy::Nullable(t))), room),
        !conditional::omittable_arg(db, t, room),
        !conditional::omittable_arg(db, Ty::Boolean, room),
{
}

/// A raw read of a union yields what its members yield.
pub proof fn raw_read_of_a_union(
    db: DbTy,
    k: Ty,
    v: Ty,
    l: Ty,
    w: Ty,
    key: KeyTy,
)
    ensures
        ({
            let a = Ty::TableGeneric(seq![k, v]);
            let b = Ty::TableGeneric(seq![l, w]);
            let x = raw::raw_type(db, a, key);
            let y = raw::raw_type(db, b, key);
            let r = raw::raw_type(db, Ty::Union(Box::new(UnionTy::Multi(seq![a, b]))), key);
            &&& x is Ok && y is Ok ==> r == Ok::<Ty, InferFailReason>(
                db::union_ty(db::union_ty(Ty::Never, x->Ok_0), y->Ok_0),
            )
            &&& x is Ok && y is Err ==> r == Ok::<Ty, InferFailReason>(
                db::union_ty(db::union_ty(Ty::Never, x->Ok_0), Ty::Nil),
            )
            &&& x is Err && y is Err ==> r == Err::<Ty, InferFailReason>(
                InferFailReason::FieldNotFound,
            )
        }),
{
    let a = Ty::TableGeneric(seq![k, v]);
    let b = Ty::TableGeneric(seq![l, w]);
    let types = seq![a, b];
    let u = Ty::Union(Box::new(UnionTy::Multi(types)));
    let none = Seq::<Seq<char>>::empty();
    let limit = raw::raw_limit();
    let room = (limit - 1) as nat;
    let empty = Seq::<Ty>::empty();
    let x = raw::raw_type(db, a, key);
    let y = raw::raw_type(db, b, key);
    assert(types[0] == a && types[1] == b);
    assert(raw::raw_member(db, a, key, none, room) == x);
    assert(raw::raw_member(db, b, key, none, room) == y);
    assert forall|found: Seq<Ty>, missing: bool| #[trigger]
        raw::raw_members(db, types, 2, found, missing, false, key, none, room) == (found, missing) by {}
    if let Ok(s) = x {
        let one = empty.push(s);
        if let Ok(t) = y {
            let two = one.push(t);
            assert(raw::raw_members(db, types, 2, two, false, false, key, none, room) == (two, false));
            assert(raw::raw_members(db, types, 1, one, false, false, key, none, room) == (two, false));
            joining::union_of_all_types(s, t);
            assert(two =~= seq![s, t]);
        } else {
            assert(raw::raw_members(db, types, 2, one, true, false, key, none, room) == (one, true));
            assert(raw::raw_members(db, types, 1, one, false, false, key, none, room) == (one, true));
            joining::union_of_all_types(s, Ty::Nil);
            assert(one.push(Ty::Nil) =~= seq![s, Ty::Nil]);
        }
        assert(raw::raw_members(db, types, 0, empty, false, false, key, none, room) == raw::raw_members(
            db,
            types,
            1,
            one,
            false,
            false,
            key,
            none,
            room,
        ));
    } else if y is Err {
        assert(raw::raw_members(db, types, 2, empty, true, false, key, none, room) == (empty, true));
        assert(raw::raw_members(db, types, 1, empty, true, false, key, none, room) == (empty, true));
        assert(raw::raw_members(db, types, 0, empty, false, false, key, none, room) == (empty, true));
    }
    assert(raw::raw_inside(db, u, key, none, room) == raw::raw_union(db, types, key, none, room));
    assert(raw::raw_member(db, u, key, none, limit) == raw::raw_inside(db, u, key, none, room));
}

} // verus!
