//! What conditional types and patterns decide.

use vstd::prelude::*;

use crate::db;
use crate::db::{DbTy, TablesTy};
use crate::generic::{actualize, conditional, infer_match, instantiate, substitutor};
use crate::generic::conditional::{CandidateTy, ConditionalCheck, InferVariance};
use crate::generic::infer_match::MatchTy;
use crate::laws::indexing;
use crate::type_check::assignable;
use crate::type_check::structured::dispatch;
use crate::types::{
    ArrayTy, ConditionalTy, FunctionTy, GenericTplId, GenericTy, KeyTy, LuaArrayLen, ObjectTy,
    ParamTy, TplTy, Ty, UnionTy, complex, predicates, traverse, unions,
};

verus! {

/// A type that is neither everything nor nothing, nor a choice.
pub open spec fn is_definite(t: Ty) -> bool {
    !(t is Union) && !(t is Any) && !(t is Unknown) && !(t is Never)
}

/// A type without parts that stands for itself.
pub open spec fn is_leaf(t: Ty) -> bool {
    match t {
        Ty::Boolean | Ty::String | Ty::Integer | Ty::Number | Ty::Nil | Ty::Table => true,
        Ty::Function | Ty::Thread | Ty::Userdata | Ty::Io => true,
        Ty::Ref(_) | Ty::Def(_) | Ty::TableConst(_) => true,
        Ty::BooleanConst(_) | Ty::StringConst(_) | Ty::IntegerConst(_) => true,
        Ty::DocBooleanConst(_) | Ty::DocStringConst(_) | Ty::DocIntegerConst(_) => true,
        _ => false,
    }
}

proof fn lemma_flat_unions(types: Seq<Ty>)
    requires
        unions::none_is_union(types),
    ensures
        conditional::flat_unions(types) == types,
    decreases types.len(),
{
    if types.len() > 0 {
        let front = types.drop_last();
        assert(unions::none_is_union(front)) by {
            assert forall|i: int| 0 <= i < front.len() implies !((#[trigger] front[i]) is Union) by {
                assert(front[i] == types[i]);
            }
        }
        lemma_flat_unions(front);
        assert(!(types[types.len() - 1] is Union));
        assert(conditional::flat_union(types.last()) =~= seq![types.last()]);
        assert(front + seq![types.last()] =~= types);
    } else {
        assert(conditional::flat_unions(types) =~= types);
    }
}

proof fn lemma_flat_union(u: UnionTy)
    requires
        unions::none_is_union(complex::union_tys(u)),
    ensures
        conditional::flat_union(Ty::Union(Box::new(u))) == complex::union_tys(u),
{
    match u {
        UnionTy::Basic(_) => {},
        UnionTy::Nullable(t) => {
            assert(!(complex::union_tys(u)[0] is Union));
            assert(conditional::flat_union(t) =~= seq![t]);
            assert(conditional::flat_union(Ty::Union(Box::new(u))) =~= complex::union_tys(u));
        },
        UnionTy::Multi(types) => lemma_flat_unions(types),
    }
}

/// A type that is known to fit one member of a union extends the union; one that fits none does not.
pub proof fn member_of_a_union_extends_it(db: DbTy, s: Ty, u: UnionTy)
    requires
        is_definite(s),
        unions::none_is_union(complex::union_tys(u)),
    ensures
        (exists|i: int|
            0 <= i < complex::union_tys(u).len() && assignable::surely_fits(db, s, #[trigger] complex::union_tys(u)[i]))
            ==> conditional::extends_check(db, s, Ty::Union(Box::new(u))) == ConditionalCheck::True,
        (forall|i: int|
            0 <= i < complex::union_tys(u).len() ==> !assignable::surely_fits(db, s, #[trigger] complex::union_tys(u)[i]) && !(
            complex::union_tys(u)[i] is Any) && !(complex::union_tys(u)[i] is Unknown)) ==> conditional::extends_check(
            db,
            s,
            Ty::Union(Box::new(u)),
        ) == ConditionalCheck::False,
{
    lemma_flat_union(u);
    if exists|i: int| 0 <= i < complex::union_tys(u).len() && assignable::surely_fits(db, s, #[trigger] complex::union_tys(u)[i]) {
        let i = choose|i: int|
            0 <= i < complex::union_tys(u).len() && assignable::surely_fits(db, s, #[trigger] complex::union_tys(u)[i]);
        assert(conditional::fits_part(db, s, complex::union_tys(u)[i]));
    }
}

/// A type extends a type that is no union if it is known to fit it, and only then.
pub proof fn fitting_type_extends(db: DbTy, s: Ty, t: Ty)
    requires
        is_definite(s),
        !(t is Union),
        !(t is Any),
        !(t is Unknown),
    ensures
        assignable::surely_fits(db, s, t) ==> conditional::extends_check(db, s, t) == ConditionalCheck::True,
        !assignable::surely_fits(db, s, t) ==> conditional::extends_check(db, s, t) == ConditionalCheck::False,
{
}

/// Everything extends `any`, `any` may or may not extend anything, nothing extends everything, and
/// what is unknown extends nothing that is known.
pub proof fn open_types_extend(db: DbTy, s: Ty, t: Ty)
    requires
        is_definite(s),
        !(t is Any),
        !(t is Unknown),
    ensures
        conditional::extends_check(db, s, Ty::Any) == ConditionalCheck::True,
        conditional::extends_check(db, s, Ty::Unknown) == ConditionalCheck::True,
        conditional::extends_check(db, Ty::Any, t) == ConditionalCheck::Both,
        conditional::extends_check(db, Ty::Unknown, t) == ConditionalCheck::False,
        conditional::extends_check(db, Ty::Never, t) == ConditionalCheck::True,
{
}

/// A union extends a type perhaps, where one of its members does, and else not at all.
pub proof fn union_extends_through_a_member(db: DbTy, u: UnionTy, t: Ty)
    requires
        unions::none_is_union(complex::union_tys(u)),
        forall|i: int| 0 <= i < complex::union_tys(u).len() ==> is_definite(#[trigger] complex::union_tys(u)[i]),
        !(t is Union),
        !(t is Any),
        !(t is Unknown),
    ensures
        (exists|i: int|
            0 <= i < complex::union_tys(u).len() && assignable::surely_fits(db, #[trigger] complex::union_tys(u)[i], t))
            ==> conditional::extends_check(db, Ty::Union(Box::new(u)), t) == ConditionalCheck::Both,
        (forall|i: int|
            0 <= i < complex::union_tys(u).len() ==> !assignable::surely_fits(db, #[trigger] complex::union_tys(u)[i], t))
            ==> conditional::extends_check(db, Ty::Union(Box::new(u)), t) == ConditionalCheck::False,
{
    lemma_flat_union(u);
    let members = complex::union_tys(u);
    if exists|i: int| 0 <= i < members.len() && assignable::surely_fits(db, #[trigger] members[i], t) {
        let i = choose|i: int| 0 <= i < members.len() && assignable::surely_fits(db, #[trigger] members[i], t);
        assert(conditional::checked_one(db, members[i], t) == ConditionalCheck::True);
    }
    if forall|i: int| 0 <= i < members.len() ==> !assignable::surely_fits(db, #[trigger] members[i], t) {
        assert forall|i: int| 0 <= i < members.len() implies conditional::checked_one(db, #[trigger] members[i], t)
            == ConditionalCheck::False by {
            assert(is_definite(members[i]));
        }
    }
}

pub proof fn lemma_leaf(x: TablesTy, t: Ty, m: Seq<(GenericTplId, Ty)>, room: nat)
    requires
        is_leaf(t),
    ensures
        substitutor::instantiated(x, t, m, room) == t,
        actualize::actual(t) == t,
        !conditional::has_infer(t),
        !traverse::holds_tpl(traverse::preorder(t)),
{
    assert(traverse::preorder(t) =~= seq![t]);
    assert(traverse::preorder(t)[0] == t);
}

/// A condition on a type that is written out takes the first branch if the type is known to fit the
/// other one, and else the second.
pub proof fn written_condition_takes_its_branch(
    x: TablesTy,
    room: nat,
    a: Ty,
    b: Ty,
    yes: Ty,
    no: Ty,
    m: Seq<(GenericTplId, Ty)>,
)
    requires
        is_leaf(a),
        is_leaf(b),
    ensures
        ({
            let db = substitutor::index_at(x, room);
            let c = ConditionalTy {
                checked_type: a,
                extends_type: b,
                true_type: yes,
                false_type: no,
                infer_params: Seq::empty(),
                has_new: false,
            };
            instantiate::conditional_type(db, c, m) == substitutor::instantiated(
                x,
                if assignable::surely_fits(db, a, b) {
                    yes
                } else {
                    no
                },
                m,
                room,
            )
        }),
{
    lemma_leaf(x, a, m, room);
    lemma_leaf(x, b, m, room);
    fitting_type_extends(substitutor::index_at(x, room), a, b);
}

/// A condition on a template that may be one of two types is decided for each of them, and may be
/// what either gives.
pub proof fn condition_is_decided_for_each_choice(
    db: DbTy,
    c: ConditionalTy,
    tpl: TplTy,
    a: Ty,
    b: Ty,
    m: Seq<(GenericTplId, Ty)>,
)
    requires
        tpl.tpl_id is Type,
        c.checked_type == Ty::TplRef(Box::new(tpl)),
        db::first_value(m, tpl.tpl_id) == Some(Ty::Union(Box::new(UnionTy::Multi(seq![a, b])))),
        !(a is Union) && !(a is MultiLineUnion) && !(a is Never),
        !(b is Union) && !(b is MultiLineUnion) && !(b is Never),
    ensures
        instantiate::conditional_type(db, c, m) == db::union_ty(
            db::union_ty(Ty::Never, instantiate::conditional_type(db, c, substitutor::with_binding(m, tpl.tpl_id, a))),
            instantiate::conditional_type(db, c, substitutor::with_binding(m, tpl.tpl_id, b)),
        ),
{
    substitutor::binding_is_found(m, tpl.tpl_id, a);
    substitutor::binding_is_found(m, tpl.tpl_id, b);
    let types = seq![a, b];
    reveal_with_fuel(instantiate::decided_each, 3);
    assert(types.drop_last() =~= seq![a]);
    assert(seq![a].drop_last() =~= Seq::<Ty>::empty());
}

/// A template that is bound anew is bound to the new type, and every other one stays.
pub proof fn binding_changes_one_template(
    m: Seq<(GenericTplId, Ty)>,
    id: GenericTplId,
    other: GenericTplId,
    t: Ty,
)
    requires
        id != other,
    ensures
        db::first_value(substitutor::with_binding(m, id, t), id) == Some(t),
        db::first_value(substitutor::with_binding(m, id, t), other) == db::first_value(m, other),
    decreases m.len(),
{
    let after = substitutor::with_binding(m, id, t);
    if m.len() == 0 {
        reveal_with_fuel(db::first_value, 2);
        assert(after.skip(1) =~= Seq::<(GenericTplId, Ty)>::empty());
    } else if m[0].0 == id {
        assert(after[0] == (id, t));
        assert(after.skip(1) =~= m.skip(1));
    } else {
        assert(after[0] == m[0]);
        assert(after.skip(1) =~= substitutor::with_binding(m.skip(1), id, t));
        binding_changes_one_template(m.skip(1), id, other, t);
    }
}

// ----------------------------------------------------------------------------
// Patterns.

/// The template that a pattern binds.
pub open spec fn infer_slot(id: u32, param: ParamTy) -> Ty {
    Ty::TplRef(Box::new(TplTy { tpl_id: GenericTplId::ConditionalInfer(id), param }))
}

pub proof fn lemma_infer_slot(id: u32, param: ParamTy)
    ensures
        conditional::has_infer(infer_slot(id, param)),
{
    let t = infer_slot(id, param);
    assert(traverse::preorder(t)[0] == t);
}

pub proof fn lemma_finalized_one(id: u32, c: CandidateTy)
    ensures
        ({
            let m = seq![(GenericTplId::ConditionalInfer(id), c)];
            &&& c.covariant is Some ==> conditional::finalized(m) == seq![
                (GenericTplId::ConditionalInfer(id), c.covariant.unwrap()),
            ]
            &&& c.covariant is None && c.contravariant is Some ==> conditional::finalized(m) == seq![
                (GenericTplId::ConditionalInfer(id), c.contravariant.unwrap()),
            ]
        }),
{
    let m = seq![(GenericTplId::ConditionalInfer(id), c)];
    reveal_with_fuel(conditional::finalized, 2);
    assert(m.drop_last() =~= Seq::<(GenericTplId, CandidateTy)>::empty());
    assert(conditional::finalized(m.drop_last()) =~= Seq::<(GenericTplId, Ty)>::empty());
    if c.covariant is Some {
        assert(conditional::finalized(m) =~= seq![(GenericTplId::ConditionalInfer(id), c.covariant.unwrap())]);
    } else if c.contravariant is Some {
        assert(conditional::finalized(m) =~= seq![
            (GenericTplId::ConditionalInfer(id), c.contravariant.unwrap()),
        ]);
    }
}

/// What stands in the place of a template is what the template is bound to: the whole type, the
/// element of an array, the argument of a generic type, and the result and the parameter of a function.
pub proof fn pattern_binds_what_stands_in_its_place(
    db: DbTy,
    id: u32,
    param: ParamTy,
    t: Ty,
    len: LuaArrayLen,
    base: Seq<char>,
    name: Seq<char>,
    f: FunctionTy,
)
    requires
        name != "..."@,
        !conditional::has_infer(Ty::Nil),
    ensures
        ({
            let slot = infer_slot(id, param);
            let wanted = seq![(GenericTplId::ConditionalInfer(id), t)];
            let found = |source: Ty, pattern: Ty| infer_match::matched(
                db,
                source,
                pattern,
                Seq::empty(),
                InferVariance::Covariant,
            );
            let array = |x: Ty| Ty::Array(Box::new(ArrayTy { base: x, len }));
            let generic = |x: Ty| Ty::Generic(Box::new(GenericTy { base, params: seq![x] }));
            let giving = |x: Ty| Ty::DocFunction(
                Box::new(FunctionTy { params: Seq::empty(), ret: x, ..f }),
            );
            let taking = |x: Ty| Ty::DocFunction(
                Box::new(FunctionTy { params: seq![(name, Some(x))], ret: Ty::Nil, ..f }),
            );
            &&& found(t, slot).ok && conditional::finalized(found(t, slot).m) == wanted
            &&& found(array(t), array(slot)).ok && conditional::finalized(found(array(t), array(slot)).m) == wanted
            &&& found(generic(t), generic(slot)).ok && conditional::finalized(
                found(generic(t), generic(slot)).m,
            ) == wanted
            &&& found(giving(t), giving(slot)).ok && conditional::finalized(found(giving(t), giving(slot)).m)
                == wanted
            &&& found(taking(t), taking(slot)).ok && conditional::finalized(found(taking(t), taking(slot)).m)
                == wanted
        }),
{
    let slot = infer_slot(id, param);
    let key = GenericTplId::ConditionalInfer(id);
    let none = Seq::<(GenericTplId, CandidateTy)>::empty();
    let up = CandidateTy { covariant: Some(t), contravariant: None };
    let down = CandidateTy { covariant: None, contravariant: Some(t) };
    lemma_infer_slot(id, param);
    lemma_finalized_one(id, up);
    lemma_finalized_one(id, down);
    assert(infer_match::matched(db, t, slot, none, InferVariance::Covariant) == (MatchTy {
        ok: true,
        m: seq![(key, up)],
    }));
    assert(infer_match::matched(db, t, slot, none, InferVariance::Contravariant) == (MatchTy {
        ok: true,
        m: seq![(key, down)],
    }));
    reveal_with_fuel(infer_match::matched_all, 3);
    reveal_with_fuel(infer_match::matched_params, 3);
    reveal_with_fuel(infer_match::function_behind, 2);
    let array = |x: Ty| Ty::Array(Box::new(ArrayTy { base: x, len }));
    assert(infer_match::matched(db, array(t), array(slot), none, InferVariance::Covariant) == infer_match::matched(
        db,
        t,
        slot,
        none,
        InferVariance::Covariant,
    ));
    let params = seq![slot];
    assert(infer_match::matched_all(db, seq![t], params, 0, none, InferVariance::Covariant) == (MatchTy {
        ok: true,
        m: seq![(key, up)],
    })) by {
        assert(params[0] == slot && seq![t][0] == t);
    }
    let g = FunctionTy { params: Seq::empty(), ret: t, ..f };
    let p = FunctionTy { params: Seq::empty(), ret: slot, ..f };
    assert(infer_match::matched_function(db, g, p, none, InferVariance::Covariant) == (MatchTy {
        ok: true,
        m: seq![(key, up)],
    }));
    let g = FunctionTy { params: seq![(name, Some(t))], ret: Ty::Nil, ..f };
    let p = FunctionTy { params: seq![(name, Some(slot))], ret: Ty::Nil, ..f };
    assert(!infer_match::takes_rest(p.params));
    assert(infer_match::matched_params(
        db,
        g.params,
        p.params,
        0,
        1,
        none,
        InferVariance::Contravariant,
    ) == (MatchTy { ok: true, m: seq![(key, down)] })) by {
        assert(p.params[0].1 == Some(slot) && g.params[0].1 == Some(t));
    }
    assert(infer_match::matched_function(db, g, p, none, InferVariance::Covariant) == (MatchTy {
        ok: true,
        m: seq![(key, down)],
    }));
}

/// Types of another shape do not match a pattern.
pub proof fn other_shapes_do_not_match(
    db: DbTy,
    m: Seq<(GenericTplId, CandidateTy)>,
    a: ArrayTy,
    g: GenericTy,
    h: GenericTy,
    variance: InferVariance,
    t: Ty,
)
    requires
        is_leaf(t),
        g.base != h.base || g.params.len() != h.params.len(),
    ensures
        !infer_match::matched(db, t, Ty::Array(Box::new(a)), m, variance).ok,
        !infer_match::matched(db, t, Ty::Generic(Box::new(g)), m, variance).ok,
        !infer_match::matched(db, Ty::Generic(Box::new(g)), Ty::Generic(Box::new(h)), m, variance).ok,
        !infer_match::matched(db, Ty::Generic(Box::new(g)), Ty::Array(Box::new(a)), m, variance).ok,
{
}

/// A template that is met twice where types grow is bound to the union, and where they shrink to what
/// both have in common; where it grows, what it shrinks to is passed over.
pub proof fn template_met_twice(id: u32, a: Ty, b: Ty)
    ensures
        ({
            let key = GenericTplId::ConditionalInfer(id);
            let none = Seq::<(GenericTplId, CandidateTy)>::empty();
            let up = InferVariance::Covariant;
            let down = InferVariance::Contravariant;
            &&& conditional::finalized(conditional::bound(conditional::bound(none, key, a, up), key, b, up)) == seq![(key, db::union_ty(a, b))]
            &&& conditional::finalized(conditional::bound(conditional::bound(none, key, a, down), key, b, down)) == seq![
                (key, db::intersect_ty(a, b)),
            ]
            &&& conditional::finalized(conditional::bound(conditional::bound(none, key, a, up), key, b, down)) == seq![(key, a)]
            &&& conditional::finalized(conditional::bound(conditional::bound(none, key, a, down), key, b, up)) == seq![(key, b)]
        }),
{
    let key = GenericTplId::ConditionalInfer(id);
    let none = Seq::<(GenericTplId, CandidateTy)>::empty();
    reveal_with_fuel(conditional::bound, 2);
    assert forall|c: CandidateTy, t: Ty, v: InferVariance| #[trigger]
        conditional::bound(seq![(key, c)], key, t, v) == seq![(key, conditional::with_candidate(c, t, v))] by {
        assert(seq![(key, c)].skip(1) =~= none);
        assert(conditional::bound(seq![(key, c)], key, t, v) =~= seq![(key, conditional::with_candidate(c, t, v))]);
    }
    let empty = CandidateTy { covariant: None, contravariant: None };
    let up = InferVariance::Covariant;
    let down = InferVariance::Contravariant;
    let ca = conditional::with_candidate(empty, a, up);
    let cd = conditional::with_candidate(empty, a, down);
    assert(conditional::bound(none, key, a, up) == seq![(key, ca)]);
    assert(conditional::bound(none, key, a, down) == seq![(key, cd)]);
    lemma_finalized_one(id, conditional::with_candidate(ca, b, up));
    lemma_finalized_one(id, conditional::with_candidate(ca, b, down));
    lemma_finalized_one(id, conditional::with_candidate(cd, b, up));
    lemma_finalized_one(id, conditional::with_candidate(cd, b, down));
}

// ----------------------------------------------------------------------------
// Filling in templates.

/// A template is replaced by what it is bound to, wherever it stands; a template that is not bound
/// stays, and so does what has no parts.
pub proof fn templates_are_filled_in(
    x: TablesTy,
    room: nat,
    m: Seq<(GenericTplId, Ty)>,
    tpl: TplTy,
    t: Ty,
    leaf: Ty,
    len: LuaArrayLen,
    base: Seq<char>,
    key: KeyTy,
    name: Seq<char>,
    f: FunctionTy,
)
    requires
        db::first_value(m, tpl.tpl_id) == Some(t),
        is_leaf(leaf),
    ensures
        ({
            let slot = Ty::TplRef(Box::new(tpl));
            &&& substitutor::instantiated(x, slot, m, room) == t
            &&& substitutor::instantiated(x, slot, Seq::empty(), room) == slot
            &&& substitutor::instantiated(x, leaf, m, room) == leaf
            &&& substitutor::instantiated(x, Ty::Array(Box::new(ArrayTy { base: slot, len })), m, room)
                == Ty::Array(Box::new(ArrayTy { base: t, len }))
            &&& substitutor::instantiated(x, Ty::TableGeneric(seq![leaf, slot]), m, room) == Ty::TableGeneric(
                seq![leaf, t],
            )
            &&& substitutor::instantiated(
                x,
                Ty::Generic(Box::new(GenericTy { base, params: seq![slot, leaf] })),
                m,
                room,
            ) == Ty::Generic(Box::new(GenericTy { base, params: seq![t, leaf] }))
            &&& substitutor::instantiated(
                x,
                Ty::Object(
                    Box::new(
                        ObjectTy { fields: seq![(key, slot)], index_access: seq![(leaf, slot)] },
                    ),
                ),
                m,
                room,
            ) == Ty::Object(
                Box::new(ObjectTy { fields: seq![(key, t)], index_access: seq![(leaf, t)] }),
            )
            &&& substitutor::instantiated(
                x,
                Ty::DocFunction(
                    Box::new(FunctionTy { params: seq![(name, Some(slot))], ret: slot, ..f }),
                ),
                m,
                room,
            ) == Ty::DocFunction(
                Box::new(FunctionTy { params: seq![(name, Some(t))], ret: t, ..f }),
            )
            &&& substitutor::instantiated(
                x,
                Ty::Union(Box::new(UnionTy::Multi(seq![slot, leaf]))),
                m,
                room,
            ) == predicates::ty_from_list(seq![t, leaf])
            &&& substitutor::instantiated(x, Ty::Union(Box::new(UnionTy::Nullable(slot))), m, room)
                == predicates::ty_from_list(seq![t, Ty::Nil])
            &&& substitutor::instantiated(x, Ty::Intersection(seq![slot, leaf]), m, room) == Ty::Intersection(
                seq![t, leaf],
            )
        }),
{
    let slot = Ty::TplRef(Box::new(tpl));
    assert(substitutor::instantiated(x, slot, m, room) == t);
    assert(substitutor::instantiated(x, leaf, m, room) == leaf);
    assert(substitutor::instantiated_all(x, seq![leaf, slot], m, room) =~= seq![leaf, t]);
    assert(substitutor::instantiated_all(x, seq![slot, leaf], m, room) =~= seq![t, leaf]);
    assert(substitutor::instantiated_fields(x, seq![(key, slot)], m, room) =~= seq![(key, t)]);
    assert(substitutor::instantiated_pairs(x, seq![(leaf, slot)], m, room) =~= seq![(leaf, t)]);
    assert(substitutor::instantiated_opt(x, Some(slot), m, room) == Some(t));
    assert(substitutor::instantiated_named(x, seq![(name, Some(slot))], m, room) =~= seq![(name, Some(t))]);
}

/// The arguments of a generic type go to the templates of their places.
pub proof fn arguments_go_to_their_templates(
    x: TablesTy,
    room: nat,
    args: Seq<Ty>,
    i: u32,
    param: ParamTy,
)
    requires
        i < args.len() <= u32::MAX,
    ensures
        dispatch::applied(
            substitutor::index_at(x, room),
            Ty::TplRef(Box::new(TplTy { tpl_id: GenericTplId::Type(i), param })),
            args,
        ) == args[i as int],
{
    reveal(dispatch::applied);
    let m = substitutor::args_subst(args);
    assert forall|j: int| 0 <= j < i implies (#[trigger] m[j]).0 != m[i as int].0 by {}
    indexing::lemma_value_at(m, i as int);
}

/// A condition on what may be anything takes either branch.
pub proof fn open_condition_takes_either_branch(
    x: TablesTy,
    room: nat,
    b: Ty,
    yes: Ty,
    no: Ty,
    m: Seq<(GenericTplId, Ty)>,
)
    requires
        is_leaf(b),
    ensures
        instantiate::conditional_type(
            substitutor::index_at(x, room),
            ConditionalTy {
                checked_type: Ty::Any,
                extends_type: b,
                true_type: yes,
                false_type: no,
                infer_params: Seq::empty(),
                has_new: false,
            },
            m,
        ) == db::union_ty(substitutor::instantiated(x, yes, m, room), substitutor::instantiated(x, no, m, room)),
{
    lemma_leaf(x, b, m, room);
}

/// Where the types of two arguments are patterns, both bind, each its own.
pub proof fn patterns_bind_one_by_one(
    db: DbTy,
    i: u32,
    j: u32,
    param: ParamTy,
    a: Ty,
    b: Ty,
    base: Seq<char>,
)
    requires
        i != j,
    ensures
        ({
            let generic = |x: Ty, y: Ty| Ty::Generic(
                Box::new(GenericTy { base, params: seq![x, y] }),
            );
            let r = infer_match::matched(
                db,
                generic(a, b),
                generic(infer_slot(i, param), infer_slot(j, param)),
                Seq::empty(),
                InferVariance::Covariant,
            );
            &&& r.ok
            &&& conditional::finalized(r.m) == seq![
                (GenericTplId::ConditionalInfer(i), a),
                (GenericTplId::ConditionalInfer(j), b),
            ]
        }),
{
    let none = Seq::<(GenericTplId, CandidateTy)>::empty();
    let up = InferVariance::Covariant;
    let p = infer_slot(i, param);
    let q = infer_slot(j, param);
    let ki = GenericTplId::ConditionalInfer(i);
    let kj = GenericTplId::ConditionalInfer(j);
    let ca = CandidateTy { covariant: Some(a), contravariant: None };
    let cb = CandidateTy { covariant: Some(b), contravariant: None };
    let one = seq![(ki, ca)];
    let two = seq![(ki, ca), (kj, cb)];
    let sources = seq![a, b];
    let patterns = seq![p, q];
    assert(sources[0] == a && sources[1] == b && patterns[0] == p && patterns[1] == q);
    assert(infer_match::matched(db, a, p, none, up) == (MatchTy { ok: true, m: one }));
    reveal_with_fuel(conditional::bound, 2);
    assert(one.skip(1) =~= none);
    assert(conditional::bound(one, kj, b, up) =~= two);
    assert(infer_match::matched(db, b, q, one, up) == (MatchTy { ok: true, m: two }));
    assert(infer_match::matched_all(db, sources, patterns, 2, two, up) == (MatchTy { ok: true, m: two }));
    assert(infer_match::matched_all(db, sources, patterns, 1, one, up) == (MatchTy { ok: true, m: two }));
    assert(infer_match::matched_all(db, sources, patterns, 0, none, up) == (MatchTy { ok: true, m: two }));
    reveal_with_fuel(conditional::finalized, 3);
    assert(two.drop_last() =~= one);
    assert(one.drop_last() =~= none);
    assert(conditional::finalized(two) =~= seq![(ki, a), (kj, b)]);
}

} // verus!
