//! Which values may stand where a type is wanted.

use vstd::prelude::*;

use crate::db;
use crate::db::{DbTy, DeclTy};
use crate::laws::indexing;
use crate::type_check::{
    assignable, callable, callable_types, entries, error_chain, normalize, records, relation,
    simple, union,
};
use crate::type_check::error_chain::MessageTy;
use crate::type_check::relation::{IntersectionState, RelMaybe, RelScope, RelState, RelationFailure};
use crate::type_check::structured::{declared, dispatch, index, tuple};
use crate::types::{
    ArrayTy, BasicTypeKind, FunctionTy, KeyTy, LuaArrayLen, LuaTupleStatus, ObjectTy, TupleTy, Ty,
    UnionTy, basic, complex, equality, equivalence, predicates,
};

verus! {

// ----------------------------------------------------------------------------
// Values without parts.

/// The basic type of a value without parts.
pub open spec fn value_kind(t: Ty) -> Option<BasicTypeKind> {
    match t {
        Ty::Boolean | Ty::BooleanConst(_) | Ty::DocBooleanConst(_) => Some(BasicTypeKind::Boolean),
        Ty::String | Ty::StringConst(_) | Ty::DocStringConst(_) => Some(BasicTypeKind::String),
        Ty::Integer | Ty::IntegerConst(_) | Ty::DocIntegerConst(_) => Some(BasicTypeKind::Integer),
        Ty::Number => Some(BasicTypeKind::Number),
        Ty::Nil => Some(BasicTypeKind::Nil),
        Ty::Table => Some(BasicTypeKind::Table),
        Ty::Userdata => Some(BasicTypeKind::Userdata),
        Ty::Function => Some(BasicTypeKind::Function),
        Ty::Thread => Some(BasicTypeKind::Thread),
        Ty::Io => Some(BasicTypeKind::Io),
        Ty::Global => Some(BasicTypeKind::Global),
        _ => None,
    }
}

/// A literal that is written in a type is fit by the same literal alone. Any other type is fit by the
/// values of its basic type; an integer is a number, and the table of globals and a userdata are tables.
pub open spec fn value_fits(s: Ty, t: Ty) -> bool {
    match t {
        Ty::DocBooleanConst(b) => s == Ty::BooleanConst(b) || s == Ty::DocBooleanConst(b),
        Ty::DocStringConst(x) => s == Ty::StringConst(x) || s == Ty::DocStringConst(x),
        Ty::DocIntegerConst(i) => s == Ty::IntegerConst(i) || s == Ty::DocIntegerConst(i),
        _ => match (value_kind(s), value_kind(t)) {
            (Some(a), Some(b)) => a == b || (a is Integer && b is Number) || (a is Userdata
                && b is Table) || (a is Global && b is Table),
            _ => false,
        },
    }
}

proof fn lemma_glance(s: Ty, t: Ty)
    requires
        value_kind(s) is Some,
        value_kind(t) is Some,
    ensures
        simple::simple_answer(s, t) == Some(value_fits(s, t)),
{
    reveal(simple::simple_answer);
}

/// Whether a value fits is told at a glance, whatever is kept and wherever the question comes up.
pub proof fn value_fits_at_a_glance(
    db: DbTy,
    answers: Seq<(Ty, Ty, IntersectionState, bool)>,
    s: Ty,
    t: Ty,
    explain: bool,
)
    requires
        value_kind(s) is Some,
        value_kind(t) is Some,
    ensures
        simple::simple_answer(s, t) == Some(value_fits(s, t)),
        assignable::fits(db, s, t) == value_fits(s, t),
        assignable::surely_fits(db, s, t) == value_fits(s, t),
        assignable::compared(db, answers, s, t, explain).res is Ok == value_fits(s, t),
        assignable::compared(db, answers, s, t, explain).st.answers == answers,
{
    lemma_glance(s, t);
    reveal(assignable::fits);
    reveal(assignable::surely_fits);
    reveal_with_fuel(relation::rel_types, 2);
}

/// A literal fits a literal that is written in a type only if they are the same.
pub proof fn literal_fits_only_the_same_literal(
    db: DbTy,
    a: Seq<char>,
    b: Seq<char>,
    i: i64,
    j: i64,
    x: bool,
    y: bool,
)
    ensures
        simple::simple_answer(Ty::StringConst(a), Ty::DocStringConst(b)) == Some(a == b),
        simple::simple_answer(Ty::DocStringConst(a), Ty::DocStringConst(b)) == Some(a == b),
        simple::simple_answer(Ty::IntegerConst(i), Ty::DocIntegerConst(j)) == Some(i == j),
        simple::simple_answer(Ty::DocIntegerConst(i), Ty::DocIntegerConst(j)) == Some(i == j),
        simple::simple_answer(Ty::BooleanConst(x), Ty::DocBooleanConst(y)) == Some(x == y),
        simple::simple_answer(Ty::DocBooleanConst(x), Ty::DocBooleanConst(y)) == Some(x == y),
        simple::simple_answer(Ty::String, Ty::DocStringConst(b)) == Some(false),
        simple::simple_answer(Ty::Integer, Ty::DocIntegerConst(j)) == Some(false),
        simple::simple_answer(Ty::Boolean, Ty::DocBooleanConst(y)) == Some(false),
        assignable::fits(db, Ty::StringConst(a), Ty::DocStringConst(b)) == (a == b),
        assignable::fits(db, Ty::IntegerConst(i), Ty::DocIntegerConst(j)) == (i == j),
        assignable::fits(db, Ty::BooleanConst(x), Ty::DocBooleanConst(y)) == (x == y),
{
    let none = assignable::nothing_kept();
    value_fits_at_a_glance(db, none, Ty::StringConst(a), Ty::DocStringConst(b), false);
    value_fits_at_a_glance(db, none, Ty::DocStringConst(a), Ty::DocStringConst(b), false);
    value_fits_at_a_glance(db, none, Ty::IntegerConst(i), Ty::DocIntegerConst(j), false);
    value_fits_at_a_glance(db, none, Ty::DocIntegerConst(i), Ty::DocIntegerConst(j), false);
    value_fits_at_a_glance(db, none, Ty::BooleanConst(x), Ty::DocBooleanConst(y), false);
    value_fits_at_a_glance(db, none, Ty::DocBooleanConst(x), Ty::DocBooleanConst(y), false);
    value_fits_at_a_glance(db, none, Ty::String, Ty::DocStringConst(b), false);
    value_fits_at_a_glance(db, none, Ty::Integer, Ty::DocIntegerConst(j), false);
    value_fits_at_a_glance(db, none, Ty::Boolean, Ty::DocBooleanConst(y), false);
}

/// A number fits a number and nothing else that is basic.
pub proof fn number_fits_numbers(bits: u64, t: Ty)
    requires
        !basic::float_is_nan(bits),
        value_kind(t) is Some,
    ensures
        simple::simple_answer(Ty::FloatConst(bits), t) == Some(t is Number),
        simple::simple_answer(t, Ty::FloatConst(bits)) == Some(
            t is Number || value_kind(t) == Some(BasicTypeKind::Integer),
        ),
{
    reveal(simple::simple_answer);
}

/// A declared type fits itself under its own name, and its own name or nil.
pub proof fn declared_type_fits_its_name(db: DbTy, a: Seq<char>, b: Seq<char>)
    ensures
        simple::simple_answer(Ty::Ref(a), Ty::Ref(a)) == Some(true),
        simple::simple_answer(Ty::Def(a), Ty::Ref(a)) == Some(true),
        simple::simple_answer(Ty::Ref(a), Ty::Def(a)) == Some(true),
        simple::simple_answer(Ty::Ref(a), Ty::Union(Box::new(UnionTy::Nullable(Ty::Ref(a))))) == Some(true),
        a != b ==> simple::simple_answer(Ty::Ref(a), Ty::Ref(b)) is None,
{
    reveal(simple::simple_answer);
}

// ----------------------------------------------------------------------------
// The first step of a comparison.

/// The scope inside a comparison that is no part of another one.
pub open spec fn first_scope(db: DbTy, s: Ty, t: Ty, explain: bool) -> RelScope {
    RelScope {
        db,
        depth: 1,
        active: if relation::may_recur(s) || relation::may_recur(t) {
            Seq::empty().push((s, t, IntersectionState::Plain))
        } else {
            Seq::empty()
        },
        explain,
    }
}

/// What is known when such a comparison looks inside its types.
pub open spec fn first_state(s: Ty, t: Ty) -> RelState {
    RelState {
        answers: assignable::nothing_kept(),
        budget: if relation::may_recur(s) || relation::may_recur(t) {
            (assignable::full_budget() - 1) as u32
        } else {
            assignable::full_budget()
        },
        chain: Seq::empty(),
        assumptions: 0,
    }
}

pub proof fn lemma_first_step(db: DbTy, s: Ty, t: Ty, explain: bool)
    requires
        simple::simple_answer(s, t) is None,
        !(relation::is_exact_value(s) && relation::is_listed_value(db, s, t)),
    ensures
        ({
            let inner = relation::rel_inside(
                first_scope(db, s, t, explain),
                first_state(s, t),
                s,
                t,
                IntersectionState::Plain,
            );
            &&& assignable::compared(db, assignable::nothing_kept(), s, t, explain).res == inner.res
            &&& assignable::compared(db, assignable::nothing_kept(), s, t, explain).st.chain == inner.st.chain
        }),
{
    reveal(relation::is_under_way);
    let c = assignable::root_scope(db, explain);
    let st = assignable::fresh_state(assignable::nothing_kept());
    assert(c.active =~= Seq::empty());
    assert(relation::kept_answer(st.answers, s, t, IntersectionState::Plain) is None);
    assert(!relation::is_under_way(c.active, s, t, IntersectionState::Plain));
    assert(relation::rel_scoped(c, st, s, t, IntersectionState::Plain) == relation::rel_inside(
        first_scope(db, s, t, explain),
        first_state(s, t),
        s,
        t,
        IntersectionState::Plain,
    ));
    assert(relation::rel_complex(c, st, s, t, IntersectionState::Plain) == relation::rel_kept(
        c,
        st,
        relation::rel_scoped(c, st, s, t, IntersectionState::Plain),
        s,
        t,
        IntersectionState::Plain,
    ));
    assert(relation::rel_types(c, st, s, t, IntersectionState::Plain) == relation::rel_complex(
        c,
        st,
        s,
        t,
        IntersectionState::Plain,
    ));
}

pub proof fn lemma_asked(db: DbTy, s: Ty, t: Ty)
    requires
        simple::simple_answer(s, t) is None,
        !(relation::is_exact_value(s) && relation::is_listed_value(db, s, t)),
    ensures
        ({
            let inner = relation::rel_inside(
                first_scope(db, s, t, false),
                first_state(s, t),
                s,
                t,
                IntersectionState::Plain,
            );
            &&& assignable::fits(db, s, t) == (inner.res != Err::<(), RelationFailure>(
                RelationFailure::Unrelated,
            ))
            &&& assignable::surely_fits(db, s, t) == inner.res is Ok
        }),
{
    reveal(assignable::fits);
    reveal(assignable::surely_fits);
    lemma_first_step(db, s, t, false);
}

proof fn lemma_seen_at_a_glance(db: DbTy, s: Ty, t: Ty)
    requires
        simple::simple_answer(s, t) == Some(true),
    ensures
        assignable::fits(db, s, t),
        assignable::surely_fits(db, s, t),
{
    reveal(assignable::fits);
    reveal(assignable::surely_fits);
}

/// Types with parts are not told apart at a glance unless they are equal.
pub proof fn lemma_glance_at_parts(s: Ty, t: Ty)
    requires
        s is Array || s is Tuple || s is TableGeneric || s is DocFunction || s is Object,
        t is Array || t is Tuple || t is TableGeneric || t is DocFunction || t is Object,
    ensures
        simple::simple_answer(s, t) == if equality::ty_eq(s, t) {
            Some(true)
        } else {
            None
        },
{
    reveal(simple::simple_answer);
}

pub proof fn lemma_equal_values(a: Ty, b: Ty)
    requires
        value_kind(a) is Some,
        value_kind(b) is Some,
        equality::ty_eq(a, b),
    ensures
        value_fits(a, b),
        value_fits(b, a),
        a == b,
{
}

pub proof fn lemma_value_step(
    c: RelScope,
    st: RelState,
    s: Ty,
    t: Ty,
    state: IntersectionState,
)
    requires
        value_kind(s) is Some,
        value_kind(t) is Some,
    ensures
        value_fits(s, t) ==> relation::rel_types(c, st, s, t, state) == relation::rel_ok(st),
        !value_fits(s, t) ==> relation::rel_types(c, st, s, t, state) == relation::rel_fail(c, st, relation::misfit(s, t)),
{
    lemma_glance(s, t);
}

pub proof fn lemma_own_form(db: DbTy, t: Ty)
    requires
        t is Array || t is Tuple || t is DocFunction || t is Object || t is Union
            || t is TableGeneric || value_kind(t) is Some,
    ensures
        relation::unfolded(db, t) is None,
        !relation::may_recur(t),
{
    reveal(normalize::normalized);
}

// ----------------------------------------------------------------------------
// Arrays, tuples, tables and functions.

/// An array fits an array if its elements do.
pub proof fn array_fits_by_its_elements(db: DbTy, a: Ty, b: Ty, len: LuaArrayLen)
    requires
        value_kind(a) is Some,
        value_kind(b) is Some,
        !db.strict_array_index || b is Nil,
    ensures
        ({
            let s = Ty::Array(Box::new(ArrayTy { base: a, len }));
            let t = Ty::Array(Box::new(ArrayTy { base: b, len }));
            &&& assignable::fits(db, s, t) == value_fits(a, b)
            &&& assignable::surely_fits(db, s, t) == value_fits(a, b)
            &&& !assignable::fits(db, s, b) || b is Table
            &&& !assignable::fits(db, b, t) || b is Table
        }),
{
    let s = Ty::Array(Box::new(ArrayTy { base: a, len }));
    let t = Ty::Array(Box::new(ArrayTy { base: b, len }));
    lemma_glance_at_parts(s, t);
    if equality::ty_eq(s, t) {
        assert(equality::ty_eq(a, b));
        lemma_equal_values(a, b);
        lemma_seen_at_a_glance(db, s, t);
    } else {
        lemma_asked(db, s, t);
        lemma_arrays(first_scope(db, s, t, false), first_state(s, t), a, b, len);
    }
    if !(b is Table) {
        lemma_array_and_value(db, s, b);
        lemma_array_and_value(db, t, b);
    }
}

proof fn lemma_arrays(c: RelScope, st: RelState, a: Ty, b: Ty, len: LuaArrayLen)
    requires
        value_kind(a) is Some,
        value_kind(b) is Some,
        !c.explain,
        !c.db.strict_array_index || b is Nil,
    ensures
        relation::rel_inside(
            c,
            st,
            Ty::Array(Box::new(ArrayTy { base: a, len })),
            Ty::Array(Box::new(ArrayTy { base: b, len })),
            IntersectionState::Plain,
        ).res == if value_fits(a, b) {
            Ok::<(), RelationFailure>(())
        } else {
            Err(RelationFailure::Unrelated)
        },
{
    let s = Ty::Array(Box::new(ArrayTy { base: a, len }));
    let t = Ty::Array(Box::new(ArrayTy { base: b, len }));
    reveal(normalize::array_slot);
    lemma_value_step(c, st, a, b, IntersectionState::Plain);
    lemma_plain_steps(c, st, s, t);
    assert(normalize::array_slot(c.db, b) == b);
    assert(dispatch::rel_to_array(c, st, s, t, b, IntersectionState::Plain) == Some(
        relation::rel_note(
            c,
            relation::rel_types(c, st, a, b, IntersectionState::Plain),
            MessageTy::ArrayElement,
        ),
    ));
}

pub proof fn lemma_plain_steps(c: RelScope, st: RelState, s: Ty, t: Ty)
    requires
        s is Array || s is Tuple || s is TableGeneric || value_kind(s) is Some,
        t is Array || t is Tuple || t is TableGeneric || value_kind(t) is Some,
        !(s is Function),
        !(t is Function),
    ensures
        relation::rel_inside(c, st, s, t, IntersectionState::Plain) == if s is Table && dispatch::is_structural_target(
            t,
        ) {
            relation::rel_ok(st)
        } else {
            match dispatch::rel_to_structure(c, st, s, t, IntersectionState::Plain) {
                Some(r) => r,
                None => relation::rel_fail(c, st, relation::misfit(s, t)),
            }
        },
{
    lemma_own_form(c.db, s);
    lemma_own_form(c.db, t);
    let p = IntersectionState::Plain;
    assert(relation::rel_inside(c, st, s, t, p) == relation::rel_plain(c, st, s, t, p));
    assert(dispatch::rel_by_source(c, st, s, t, p) == (RelMaybe { st, res: None }));
    assert(dispatch::rel_by_target(c, st, s, t, p) == relation::rel_opt(st, dispatch::rel_to_structure(c, st, s, t, p)));
}

proof fn lemma_array_and_value(db: DbTy, s: Ty, b: Ty)
    requires
        s is Array,
        value_kind(b) is Some,
        !(b is Table),
    ensures
        !assignable::fits(db, s, b),
        !assignable::fits(db, b, s),
{
    reveal(relation::is_listed_value);
    assert(simple::simple_answer(s, b) is None && simple::simple_answer(b, s) is None) by {
        reveal(simple::simple_answer);
    }
    lemma_asked(db, s, b);
    lemma_asked(db, b, s);
    let p = IntersectionState::Plain;
    if !(b is Function) {
        lemma_plain_steps(first_scope(db, s, b, false), first_state(s, b), s, b);
        lemma_plain_steps(first_scope(db, b, s, false), first_state(b, s), b, s);
    } else {
        lemma_own_form(db, s);
        lemma_own_form(db, b);
        reveal(callable_types::call_candidates);
        reveal(callable_types::own_candidates);
        reveal(normalize::normalized);
        reveal_with_fuel(callable_types::call_candidates, 2);
        let c = first_scope(db, s, b, false);
        let st = first_state(s, b);
        assert(relation::rel_inside(c, st, s, b, p) == relation::rel_plain(c, st, s, b, p));
        let c2 = first_scope(db, b, s, false);
        let st2 = first_state(b, s);
        assert(callable_types::signatures_of(db, s, db.type_decls.len()) =~= Seq::empty());
        assert(relation::rel_inside(c2, st2, b, s, p) == relation::rel_plain(c2, st2, b, s, p));
    }
}

/// A table fits a table if its keys and its values do.
pub proof fn table_fits_by_keys_and_values(db: DbTy, k: Ty, v: Ty, l: Ty, w: Ty)
    requires
        value_kind(k) is Some,
        value_kind(v) is Some,
        value_kind(l) is Some,
        value_kind(w) is Some,
    ensures
        assignable::fits(db, Ty::TableGeneric(seq![k, v]), Ty::TableGeneric(seq![l, w])) == (value_fits(k, l)
            && value_fits(v, w)),
{
    let x = seq![k, v];
    let y = seq![l, w];
    let s = Ty::TableGeneric(x);
    let t = Ty::TableGeneric(y);
    assert(x[0] == k && x[1] == v && y[0] == l && y[1] == w);
    lemma_glance_at_parts(s, t);
    if equality::ty_eq(s, t) {
        assert(equality::tys_eq(x, y));
        assert(equality::ty_eq(x[0], y[0]) && equality::ty_eq(x[1], y[1]));
        lemma_equal_values(k, l);
        lemma_equal_values(v, w);
        lemma_seen_at_a_glance(db, s, t);
    } else {
        lemma_asked(db, s, t);
        lemma_tables(first_scope(db, s, t, false), first_state(s, t), k, v, l, w);
    }
}

proof fn lemma_tables(c: RelScope, st: RelState, k: Ty, v: Ty, l: Ty, w: Ty)
    requires
        value_kind(k) is Some,
        value_kind(v) is Some,
        value_kind(l) is Some,
        value_kind(w) is Some,
        !c.explain,
    ensures
        relation::rel_inside(
            c,
            st,
            Ty::TableGeneric(seq![k, v]),
            Ty::TableGeneric(seq![l, w]),
            IntersectionState::Plain,
        ).res == if value_fits(k, l) && value_fits(v, w) {
            Ok::<(), RelationFailure>(())
        } else {
            Err(RelationFailure::Unrelated)
        },
{
    let s = Ty::TableGeneric(seq![k, v]);
    let t = Ty::TableGeneric(seq![l, w]);
    let p = IntersectionState::Plain;
    lemma_plain_steps(c, st, s, t);
    reveal(entries::index_entries);
    let listed = entries::index_entries(c.db, s);
    assert(listed.len() == 1 && listed[0].key == k && listed[0].value == v);
    assert(listed[0].origin is Generic);
    lemma_value_step(c, st, k, l, p);
    lemma_value_step(c, st, v, w, p);
    let r = index::rel_pair(c, st, listed[0], l, w, p);
    assert(r.res == if value_fits(k, l) && value_fits(v, w) {
        Ok::<(), RelationFailure>(())
    } else {
        Err(RelationFailure::Unrelated)
    });
    assert(index::rel_pairs(c, r.st, listed, 1, l, w, p) == relation::rel_ok(r.st));
    assert(index::rel_pairs(c, st, listed, 0, l, w, p).res == r.res);
    assert(index::rel_table_generic(c, st, s, t, seq![l, w], p).res == r.res);
    assert(dispatch::rel_to_table(c, st, s, t, p) == Some(
        index::rel_table_generic(c, st, s, t, seq![l, w], p),
    ));
}

/// A tuple fits a tuple place by place: each element has to fit, and one that may not be left out has
/// to be there.
pub proof fn tuple_fits_place_by_place(
    db: DbTy,
    a: Ty,
    b: Ty,
    x: Ty,
    y: Ty,
    status: LuaTupleStatus,
)
    requires
        value_kind(a) is Some,
        value_kind(b) is Some,
        value_kind(x) is Some,
        value_kind(y) is Some,
    ensures
        ({
            let pair = |p: Ty, q: Ty| Ty::Tuple(Box::new(TupleTy { types: seq![p, q], status }));
            let single = |p: Ty| Ty::Tuple(Box::new(TupleTy { types: seq![p], status }));
            &&& assignable::fits(db, pair(a, b), pair(x, y)) == (value_fits(a, x) && value_fits(b, y))
            &&& assignable::fits(db, single(a), single(x)) == value_fits(a, x)
            &&& assignable::fits(db, single(a), pair(x, y)) == (value_fits(a, x) && y is Nil)
            &&& assignable::fits(db, pair(a, b), single(x)) == value_fits(a, x)
        }),
{
    tuples_fit_at_each_place(db, seq![a, b], seq![x, y], status);
    tuples_fit_at_each_place(db, seq![a], seq![x], status);
    tuples_fit_at_each_place(db, seq![a], seq![x, y], status);
    tuples_fit_at_each_place(db, seq![a, b], seq![x], status);
    assert(place_fits(seq![a, b], seq![x, y], 0) == value_fits(a, x));
    assert(place_fits(seq![a, b], seq![x, y], 1) == value_fits(b, y));
    assert(place_fits(seq![a], seq![x], 0) == value_fits(a, x));
    assert(place_fits(seq![a], seq![x, y], 0) == value_fits(a, x));
    assert(place_fits(seq![a], seq![x, y], 1) == y is Nil);
    assert(place_fits(seq![a, b], seq![x], 0) == value_fits(a, x));
}

/// The element at a place fits, or may be missing there.
pub open spec fn place_fits(p: Seq<Ty>, q: Seq<Ty>, i: int) -> bool {
    if i < p.len() {
        value_fits(p[i], q[i])
    } else {
        q[i] is Nil
    }
}

/// Tuples of any length are compared at each place of the wanted one.
pub proof fn tuples_fit_at_each_place(db: DbTy, p: Seq<Ty>, q: Seq<Ty>, status: LuaTupleStatus)
    requires
        0 < p.len() < 100,
        0 < q.len() < 100,
        forall|i: int| 0 <= i < p.len() ==> value_kind(#[trigger] p[i]) is Some,
        forall|i: int| 0 <= i < q.len() ==> value_kind(#[trigger] q[i]) is Some,
    ensures
        assignable::fits(
            db,
            Ty::Tuple(Box::new(TupleTy { types: p, status })),
            Ty::Tuple(Box::new(TupleTy { types: q, status })),
        ) == forall|i: int| 0 <= i < q.len() ==> #[trigger] place_fits(p, q, i),
{
    let s = Ty::Tuple(Box::new(TupleTy { types: p, status }));
    let t = Ty::Tuple(Box::new(TupleTy { types: q, status }));
    lemma_glance_at_parts(s, t);
    if equality::ty_eq(s, t) {
        assert(equality::tys_eq(p, q));
        assert forall|i: int| 0 <= i < q.len() implies #[trigger] place_fits(p, q, i) by {
            assert(equality::ty_eq(p[i], q[i]));
            assert(value_kind(p[i]) is Some && value_kind(q[i]) is Some);
            lemma_equal_values(p[i], q[i]);
        }
        lemma_seen_at_a_glance(db, s, t);
    } else {
        lemma_asked(db, s, t);
        let c = first_scope(db, s, t, false);
        let st = first_state(s, t);
        let state = IntersectionState::Plain;
        lemma_plain_steps(c, st, s, t);
        lemma_own_form(db, s);
        lemma_own_form(db, t);
        reveal(tuple::looked_at_len);
        reveal(tuple::compared_len);
        assert(value_kind(q[q.len() - 1]) is Some);
        assert(tuple::compared_len(q, tuple::looked_at_len(p)) == q.len());
        lemma_elements(c, st, p, q, 0);
        assert(dispatch::rel_to_structure(c, st, s, t, state) == Some(
            tuple::rel_elements(c, st, p, q, 0, q.len(), state),
        ));
    }
}

proof fn lemma_elements(c: RelScope, st: RelState, p: Seq<Ty>, q: Seq<Ty>, k: nat)
    requires
        !c.explain,
        0 < p.len() < 100,
        0 < q.len() < 100,
        k <= q.len(),
        st.budget >= 1000 - k,
        forall|i: int| 0 <= i < p.len() ==> value_kind(#[trigger] p[i]) is Some,
        forall|i: int| 0 <= i < q.len() ==> value_kind(#[trigger] q[i]) is Some,
    ensures
        tuple::rel_elements(c, st, p, q, k, q.len(), IntersectionState::Plain).res == if forall|i: int|
            k <= i < q.len() ==> #[trigger] place_fits(p, q, i) {
            Ok::<(), RelationFailure>(())
        } else {
            Err(RelationFailure::Unrelated)
        },
    decreases q.len() - k,
{
    if k < q.len() {
        let state = IntersectionState::Plain;
        reveal(tuple::element_at);
        reveal(tuple::demanded_len);
        reveal(normalize::omittable);
        reveal_with_fuel(normalize::may_be_omitted, 2);
        assert(value_kind(q[k as int]) is Some);
        assert(value_kind(p[p.len() - 1]) is Some);
        assert(value_kind(q[q.len() - 1]) is Some);
        let spent = relation::rel_spend(st);
        let r = tuple::rel_element(c, st, tuple::element_at(p, k), q, k, state);
        if k < p.len() {
            assert(value_kind(p[k as int]) is Some);
            lemma_value_step(c, spent.st, p[k as int], q[k as int], state);
        }
        assert(r.res == if place_fits(p, q, k as int) {
            Ok::<(), RelationFailure>(())
        } else {
            Err(RelationFailure::Unrelated)
        });
        if place_fits(p, q, k as int) {
            lemma_elements(c, r.st, p, q, k + 1);
            if forall|i: int| k + 1 <= i < q.len() ==> #[trigger] place_fits(p, q, i) {
                assert forall|i: int| k <= i < q.len() implies #[trigger] place_fits(p, q, i) by {}
            }
        }
    }
}

/// Functions are compared by what they take, the other way round: what the wanted function is called
/// with has to fit what the given one takes. One that takes less fits as well.
pub proof fn function_fits_by_what_it_takes(
    db: DbTy,
    a: Ty,
    b: Ty,
    name: Seq<char>,
    f: FunctionTy,
    g: FunctionTy,
)
    requires
        value_kind(a) is Some,
        value_kind(b) is Some,
        name != "..."@,
        f.params == seq![(name, Some(a))],
        g.params == seq![(name, Some(b))],
        !f.is_colon_define,
        !g.is_colon_define,
    ensures
        ({
            let s = Ty::DocFunction(Box::new(f));
            let t = Ty::DocFunction(Box::new(g));
            let less = Ty::DocFunction(Box::new(FunctionTy { params: Seq::empty(), ..f }));
            &&& assignable::fits(db, s, t) == value_fits(b, a)
            &&& assignable::fits(db, less, t)
            &&& assignable::fits(db, s, Ty::Function)
        }),
{
    let s = Ty::DocFunction(Box::new(f));
    let t = Ty::DocFunction(Box::new(g));
    let h = FunctionTy { params: Seq::empty(), ..f };
    let less = Ty::DocFunction(Box::new(h));
    assert(f.params[0] == (name, Some(a)) && g.params[0] == (name, Some(b)));
    assert(simple::simple_answer(s, Ty::Function) == Some(true)) by {
        reveal(simple::simple_answer);
    }
    lemma_seen_at_a_glance(db, s, Ty::Function);
    lemma_glance_at_parts(s, t);
    lemma_glance_at_parts(less, t);
    if equality::ty_eq(s, t) {
        assert(equality::named_eq(f.params, g.params));
        assert(equality::opt_eq(f.params[0].1, g.params[0].1));
        assert(equality::ty_eq(a, b));
        lemma_equal_values(a, b);
        lemma_seen_at_a_glance(db, s, t);
    } else {
        lemma_asked(db, s, t);
        let c = first_scope(db, s, t, false);
        let st = first_state(s, t);
        lemma_functions(c, st, f, g);
        lemma_value_step(c, st, b, a, IntersectionState::Plain);
        assert(callable::rel_params(c, st, f.params, g.params, 1, IntersectionState::Plain)
            == relation::rel_ok(st));
    }
    assert(!equality::ty_eq(less, t)) by {
        if equality::ty_eq(less, t) {
            assert(equality::named_eq(h.params, g.params));
        }
    }
    lemma_asked(db, less, t);
    lemma_functions(first_scope(db, less, t, false), first_state(less, t), h, g);
}

pub proof fn lemma_functions(c: RelScope, st: RelState, f: FunctionTy, g: FunctionTy)
    requires
        !f.is_colon_define,
        !g.is_colon_define,
    ensures
        relation::rel_inside(
            c,
            st,
            Ty::DocFunction(Box::new(f)),
            Ty::DocFunction(Box::new(g)),
            IntersectionState::Plain,
        ) == callable::rel_params(c, st, f.params, g.params, 0, IntersectionState::Plain),
{
    let s = Ty::DocFunction(Box::new(f));
    let t = Ty::DocFunction(Box::new(g));
    let state = IntersectionState::Plain;
    lemma_own_form(c.db, s);
    lemma_own_form(c.db, t);
    assert(relation::rel_inside(c, st, s, t, state) == relation::rel_plain(c, st, s, t, state));
    assert(callable::rel_function(c, st, f, g, state) == callable::rel_params(
        c,
        st,
        f.params,
        g.params,
        0,
        state,
    ));
    assert(callable::rel_callable(c, st, s, t, state) == Some(
        callable::rel_function(c, st, f, g, state),
    ));
    assert(dispatch::rel_by_source(c, st, s, t, state) == relation::rel_some(
        callable::rel_function(c, st, f, g, state),
    ));
}

// ----------------------------------------------------------------------------
// Unions.

/// A union fits if both of its members do; what fits one member of a union fits the union, and what
/// fits none does not. Nil fits what may be nil.
pub proof fn union_fits_by_its_members(db: DbTy, a: Ty, b: Ty, t: Ty)
    requires
        value_kind(a) is Some,
        value_kind(b) is Some,
        value_kind(t) is Some,
        !(a is Nil),
        !(b is Nil),
    ensures
        ({
            let u = Ty::Union(Box::new(UnionTy::Multi(seq![a, b])));
            let optional = Ty::Union(Box::new(UnionTy::Nullable(a)));
            &&& assignable::fits(db, u, t) == (value_fits(a, t) && value_fits(b, t))
            &&& assignable::fits(db, t, u) == (value_fits(t, a) || value_fits(t, b))
            &&& assignable::fits(db, optional, t) == (value_fits(a, t) && value_fits(Ty::Nil, t))
            &&& assignable::fits(db, t, optional) == (t is Nil || value_fits(t, a))
        }),
{
    let u = UnionTy::Multi(seq![a, b]);
    let v = UnionTy::Nullable(a);
    lemma_union_source(db, u, t);
    lemma_union_source(db, v, t);
    lemma_union_target(db, u, t);
    lemma_union_target(db, v, t);
    assert(complex::union_tys(u)[0] == a && complex::union_tys(u)[1] == b);
    assert(complex::union_tys(v)[0] == a && complex::union_tys(v)[1] == Ty::Nil);
    let x = complex::union_tys(u);
    let y = complex::union_tys(v);
    if value_fits(t, a) {
        assert(value_fits(t, x[0]) && value_fits(t, y[0]));
    }
    if value_fits(t, b) {
        assert(value_fits(t, x[1]));
    }
    if t is Nil {
        assert(value_fits(t, y[1]));
    }
}

proof fn lemma_union_source(db: DbTy, u: UnionTy, t: Ty)
    requires
        0 < complex::union_tys(u).len(),
        u is Multi || u is Nullable,
        forall|i: int| 0 <= i < complex::union_tys(u).len() ==> value_kind(#[trigger] complex::union_tys(u)[i]) is Some,
        value_kind(t) is Some,
    ensures
        assignable::fits(db, Ty::Union(Box::new(u)), t) == forall|i: int|
            0 <= i < complex::union_tys(u).len() ==> value_fits(#[trigger] complex::union_tys(u)[i], t),
{
    let s = Ty::Union(Box::new(u));
    reveal(assignable::fits);
    assert(simple::simple_answer(s, t) is None) by {
        reveal(simple::simple_answer);
    }
    lemma_own_form(db, s);
    lemma_own_form(db, t);
    lemma_first_step(db, s, t, false);
    let c = first_scope(db, s, t, false);
    let st = first_state(s, t);
    lemma_sources(c, st, complex::union_tys(u), 0, t);
}

pub proof fn lemma_sources(c: RelScope, st: RelState, members: Seq<Ty>, k: nat, t: Ty)
    requires
        !c.explain,
        k <= members.len(),
        forall|i: int| 0 <= i < members.len() ==> value_kind(#[trigger] members[i]) is Some,
        value_kind(t) is Some,
    ensures
        union::rel_source_members(c, st, members, k, None, t, IntersectionState::Plain).res == if forall|
            i: int,
        |
            k <= i < members.len() ==> value_fits(#[trigger] members[i], t) {
            Ok::<(), RelationFailure>(())
        } else {
            Err(RelationFailure::Unrelated)
        },
    decreases members.len() - k,
{
    if k < members.len() {
        let s = members[k as int];
        assert(value_kind(s) is Some);
        lemma_value_step(relation::quiet(c), st, s, t, IntersectionState::Plain);
        lemma_sources(c, st, members, k + 1, t);
        if value_fits(s, t) {
            if forall|i: int| k + 1 <= i < members.len() ==> value_fits(#[trigger] members[i], t) {
                assert forall|i: int| k <= i < members.len() implies value_fits(
                    #[trigger] members[i],
                    t,
                ) by {}
            }
        } else {
            assert(!value_fits(members[k as int], t));
        }
    }
}

proof fn lemma_union_target(db: DbTy, u: UnionTy, s: Ty)
    requires
        1 < complex::union_tys(u).len(),
        u is Multi ==> forall|i: int|
            0 <= i < complex::union_tys(u).len() ==> !((#[trigger] complex::union_tys(u)[i]) is Nil),
        u matches UnionTy::Nullable(x) ==> !(x is Nil),
        u is Multi || u is Nullable,
        forall|i: int| 0 <= i < complex::union_tys(u).len() ==> value_kind(#[trigger] complex::union_tys(u)[i]) is Some,
        value_kind(s) is Some,
    ensures
        assignable::fits(db, s, Ty::Union(Box::new(u))) == exists|i: int|
            0 <= i < complex::union_tys(u).len() && value_fits(s, #[trigger] complex::union_tys(u)[i]),
{
    let t = Ty::Union(Box::new(u));
    let members = complex::union_tys(u);
    reveal(assignable::fits);
    assert(simple::simple_answer(s, t) is None) by {
        reveal(simple::simple_answer);
    }
    let state = IntersectionState::Plain;
    if relation::is_exact_value(s) && relation::is_listed_value(db, s, t) {
        assert(exists|i: int| 0 <= i < members.len() && value_fits(s, #[trigger] members[i])) by {
            reveal(relation::is_listed_value);
            let i: int = match u {
                UnionTy::Multi(types) => choose|i: int|
                    0 <= i < types.len() && simple::fast_eq(s, #[trigger] types[i]),
                _ => 0,
            };
            assert(simple::fast_eq(s, members[i]));
            assert(value_kind(members[i]) is Some);
            assert(value_fits(s, members[i])) by {
                lemma_glance(s, members[i]);
                reveal(simple::simple_answer);
            }
        }
        let c = assignable::root_scope(db, false);
        let st = assignable::fresh_state(assignable::nothing_kept());
        assert(relation::rel_complex(c, st, s, t, state) == relation::rel_ok(st));
        assert(relation::rel_types(c, st, s, t, state) == relation::rel_ok(st));
    } else {
        lemma_own_form(db, s);
        lemma_own_form(db, t);
        lemma_first_step(db, s, t, false);
        let c = first_scope(db, s, t, false);
        let st = first_state(s, t);
        assert(predicates::ty_is_nullable(s) == s is Nil);
        if !(s is Nil) && union::single_non_nil(members) is Some {
            match u {
                UnionTy::Nullable(x) => {
                    reveal(union::single_non_nil);
                    reveal_with_fuel(union::non_nil, 3);
                    assert(members.drop_last() =~= seq![x]);
                    assert(seq![x].drop_last() =~= Seq::<Ty>::empty());
                    assert(union::non_nil(members) =~= seq![x]);
                    lemma_value_step(c, st, s, x, state);
                    assert(members[0] == x && members[1] == Ty::Nil);
                    assert(!value_fits(s, members[1]));
                    if value_fits(s, x) {
                        assert(value_fits(s, members[0]));
                    }
                },
                _ => {
                    reveal(union::single_non_nil);
                    lemma_all_non_nil(members);
                },
            }
        } else {
            lemma_targets(c, st, s, members, 0);
            assert(union::rel_union(c, st, s, t, state) == Some(
                union::rel_target_members(c, st, s, t, members, state),
            ));
        }
    }
}

proof fn lemma_all_non_nil(types: Seq<Ty>)
    requires
        forall|i: int| 0 <= i < types.len() ==> !((#[trigger] types[i]) is Nil),
    ensures
        union::non_nil(types) == types,
    decreases types.len(),
{
    if types.len() > 0 {
        let front = types.drop_last();
        assert forall|i: int| 0 <= i < front.len() implies !((#[trigger] front[i]) is Nil) by {
            assert(front[i] == types[i]);
        }
        assert(!(types[types.len() - 1] is Nil));
        lemma_all_non_nil(front);
        assert(front.push(types.last()) =~= types);
    } else {
        assert(union::non_nil(types) =~= types);
    }
}

proof fn lemma_targets(c: RelScope, st: RelState, s: Ty, members: Seq<Ty>, k: nat)
    requires
        k <= members.len(),
        forall|i: int| 0 <= i < members.len() ==> value_kind(#[trigger] members[i]) is Some,
        value_kind(s) is Some,
    ensures
        ({
            let (after, found, first) = union::rel_try_members(
                c,
                st,
                s,
                members,
                k,
                None,
                IntersectionState::Plain,
            );
            &&& first is None
            &&& found == exists|i: int|
                k <= i < members.len() && value_fits(s, #[trigger] members[i])
        }),
    decreases members.len() - k,
{
    if k < members.len() {
        let t = members[k as int];
        assert(value_kind(t) is Some);
        lemma_value_step(relation::quiet(c), st, s, t, IntersectionState::Plain);
        lemma_targets(c, st, s, members, k + 1);
        if value_fits(s, t) {
            assert(value_fits(s, members[k as int]));
        } else if exists|i: int| k + 1 <= i < members.len() && value_fits(s, #[trigger] members[i]) {
            let i = choose|i: int|
                k + 1 <= i < members.len() && value_fits(s, #[trigger] members[i]);
            assert(value_fits(s, members[i]));
        }
    }
}

// ----------------------------------------------------------------------------
// Objects.

/// The object has a field that fits the wanted one, or lacks it where it may be left out.
pub open spec fn has_wanted_field(fields: Seq<(KeyTy, Ty)>, wanted: (KeyTy, Ty)) -> bool {
    ||| exists|i: int|
        0 <= i < fields.len() && (#[trigger] fields[i]).0 == wanted.0 && value_fits(
            fields[i].1,
            wanted.1,
        )
    ||| wanted.1 is Nil && forall|i: int|
        0 <= i < fields.len() ==> (#[trigger] fields[i]).0 != wanted.0
}

/// The object has each field once, and values without parts in them.
pub open spec fn is_flat_object(o: ObjectTy) -> bool {
    &&& o.index_access.len() == 0
    &&& o.fields.len() <= 1000
    &&& equivalence::has_plain_keys(o.fields)
    &&& forall|i: int|
        0 <= i < o.fields.len() ==> value_kind((#[trigger] o.fields[i]).1) is Some
            && !(o.fields[i].1 is Function)
}

/// An object fits an object field by field: every wanted field has to be there and to fit, or may be
/// left out.
pub proof fn object_fits_field_by_field(db: DbTy, a: ObjectTy, b: ObjectTy)
    requires
        is_flat_object(a),
        is_flat_object(b),
        !equality::ty_eq(Ty::Object(Box::new(a)), Ty::Object(Box::new(b))),
    ensures
        assignable::fits(db, Ty::Object(Box::new(a)), Ty::Object(Box::new(b))) == forall|j: int|
            0 <= j < b.fields.len() ==> has_wanted_field(a.fields, #[trigger] b.fields[j]),
{
    let s = Ty::Object(Box::new(a));
    let t = Ty::Object(Box::new(b));
    reveal(assignable::fits);
    reveal(entries::member_entries);
    let entries = entries::member_entries(db, t);
    assert(entries =~= b.fields);
    assert(simple::simple_answer(s, t) is None) by {
        reveal(simple::simple_answer);
    }
    lemma_flat_object_is_data(db, a);
    lemma_flat_object_is_data(db, b);
    assert forall|j: int| 0 <= j < b.fields.len() implies records::field_settled_within(
        db,
        s,
        #[trigger] b.fields[j],
        99,
    ) && records::field_fits(db, s, b.fields[j], 99) == has_wanted_field(a.fields, b.fields[j]) by {
        lemma_wanted_field(db, a, b, j);
    }
    assert(records::fields_settled_within(db, s, entries, 99));
    assert(records::settled_within(db, s, t, 100));
    lemma_flat_steps(db, a, b, 0);
    assert(records::data_steps(db, s, t, 100) <= 20_000);
    assert(records::all_fields_fit(db, s, entries, 0, 99) == forall|j: int|
        0 <= j < b.fields.len() ==> has_wanted_field(a.fields, #[trigger] b.fields[j])) by {
        if records::all_fields_fit(db, s, entries, 0, 99) {
            assert forall|j: int| 0 <= j < b.fields.len() implies has_wanted_field(
                a.fields,
                #[trigger] b.fields[j],
            ) by {
                assert(records::field_fits(db, s, entries[j], 99));
            }
        }
    }
    records::data_is_compared_by_shape(db, assignable::nothing_kept(), s, t, false);
}

pub proof fn lemma_flat_object_is_data(db: DbTy, o: ObjectTy)
    requires
        is_flat_object(o),
    ensures
        records::is_data(db, Ty::Object(Box::new(o))),
{
    assert(records::data_fields(db, o.fields)) by {
        assert forall|i: int| 0 <= i < o.fields.len() implies records::is_data(db, (#[trigger] o.fields[i]).1) by {
            assert(value_kind(o.fields[i].1) is Some);
        }
    }
}

pub proof fn lemma_wanted_field(db: DbTy, a: ObjectTy, b: ObjectTy, j: int)
    requires
        is_flat_object(a),
        is_flat_object(b),
        0 <= j < b.fields.len(),
    ensures
        records::field_settled_within(db, Ty::Object(Box::new(a)), b.fields[j], 99),
        records::field_fits(db, Ty::Object(Box::new(a)), b.fields[j], 99) == has_wanted_field(
            a.fields,
            b.fields[j],
        ),
        entries::direct_member(db, Ty::Object(Box::new(a)), b.fields[j].0) matches Some(t) ==> value_kind(
            t,
        ) is Some,
{
    let s = Ty::Object(Box::new(a));
    let (key, t) = b.fields[j];
    reveal(entries::direct_member);
    reveal(normalize::omittable);
    reveal_with_fuel(normalize::may_be_omitted, 2);
    assert(value_kind(b.fields[j].1) is Some && !(b.fields[j].0 is TypeKey));
    assert(entries::direct_member(db, s, key) == complex::first_field(a.fields, key));
    if exists|i: int| 0 <= i < a.fields.len() && (#[trigger] a.fields[i]).0 == key {
        let i = choose|i: int| 0 <= i < a.fields.len() && (#[trigger] a.fields[i]).0 == key;
        assert forall|k: int| 0 <= k < a.fields.len() && k != i implies (#[trigger] a.fields[k]).0
            != key by {
            if k < i {
                assert(a.fields[k].0 != a.fields[i].0);
            } else {
                assert(a.fields[i].0 != a.fields[k].0);
            }
        }
        indexing::lemma_first_field(a.fields, key, i);
        assert(value_kind(a.fields[i].1) is Some);
        lemma_glance(a.fields[i].1, t);
        if value_fits(a.fields[i].1, t) {
            assert(has_wanted_field(a.fields, b.fields[j]));
        }
    } else {
        assert forall|i: int| 0 <= i < a.fields.len() implies (#[trigger] a.fields[i]).0 != key by {}
        indexing::lemma_no_field(a.fields, key);
    }
}

pub proof fn lemma_flat_steps(db: DbTy, a: ObjectTy, b: ObjectTy, k: nat)
    requires
        is_flat_object(a),
        is_flat_object(b),
        k <= b.fields.len(),
    ensures
        records::fields_steps(db, Ty::Object(Box::new(a)), b.fields, k, 99) == b.fields.len() - k,
    decreases b.fields.len() - k,
{
    if k < b.fields.len() {
        lemma_wanted_field(db, a, b, k as int);
        lemma_flat_steps(db, a, b, k + 1);
        assert(value_kind(b.fields[k as int].1) is Some);
        if let Some(t) = entries::direct_member(db, Ty::Object(Box::new(a)), b.fields[k as int].0) {
            lemma_glance(t, b.fields[k as int].1);
            assert(records::data_steps(db, t, b.fields[k as int].1, 99) == 0);
        }
    }
}

/// The reason why an object does not fit names the field, and what does not fit in it.
pub proof fn misfit_of_a_field_is_named(db: DbTy, name: Seq<char>, a: Ty, b: Ty)
    requires
        value_kind(a) is Some && !(a is Function),
        value_kind(b) is Some && !(b is Function),
        !value_fits(a, b),
    ensures
        ({
            let object = |t: Ty| Ty::Object(
                Box::new(
                    ObjectTy { fields: seq![(KeyTy::Name(name), t)], index_access: Seq::empty() },
                ),
            );
            let r = assignable::compared(db, assignable::nothing_kept(), object(a), object(b), true);
            &&& r.res == Err::<(), RelationFailure>(RelationFailure::Unrelated)
            &&& r.st.chain == seq![
                MessageTy::Field { name },
                MessageTy::NotAssignable { source: a, target: b },
            ]
        }),
{
    let x = ObjectTy { fields: seq![(KeyTy::Name(name), a)], index_access: Seq::empty() };
    let y = ObjectTy { fields: seq![(KeyTy::Name(name), b)], index_access: Seq::empty() };
    let s = Ty::Object(Box::new(x));
    let t = Ty::Object(Box::new(y));
    assert(x.fields[0] == (KeyTy::Name(name), a) && y.fields[0] == (KeyTy::Name(name), b));
    lemma_flat_object_is_data(db, x);
    lemma_flat_object_is_data(db, y);
    lemma_glance(a, b);
    reveal(entries::member_entries);
    let entries = entries::member_entries(db, t);
    assert(entries =~= y.fields);
    assert(!equality::ty_eq(s, t)) by {
        if equality::ty_eq(s, t) {
            assert(equality::fields_eq(x.fields, y.fields));
            assert(equality::among_fields(x.fields[0], y.fields));
            lemma_only_field(y.fields[0], x.fields[0]);
            assert(equality::ty_eq(a, b));
        }
    }
    assert(simple::simple_answer(s, t) is None) by {
        reveal(simple::simple_answer);
    }
    lemma_wanted_field(db, x, y, 0);
    indexing::lemma_first_field(x.fields, KeyTy::Name(name), 0);
    reveal(entries::direct_member);
    assert(entries::direct_member(db, s, KeyTy::Name(name)) == Some(a));
    assert(records::fields_settled_within(db, s, entries, 99));
    assert(records::settled_within(db, s, t, 100));
    lemma_flat_steps(db, x, y, 0);
    assert(!records::all_fields_fit(db, s, entries, 0, 99)) by {
        assert(!records::field_fits(db, s, entries[0], 99));
    }
    records::data_is_compared_by_shape(db, assignable::nothing_kept(), s, t, true);
    reveal_with_fuel(records::absent_keys, 2);
    assert(entries.drop_last() =~= Seq::<(KeyTy, Ty)>::empty());
    assert(!records::is_lacking(db, s, entries.last()));
    assert(records::absent_keys(db, s, entries) =~= Seq::<KeyTy>::empty());
    let inner = records::data_reason(db, a, b, 99, Seq::empty());
    assert(inner =~= seq![MessageTy::NotAssignable { source: a, target: b }]);
    assert(records::fields_reason(db, s, entries, 0, 99, Seq::empty()) == error_chain::pushed(
        inner,
        MessageTy::Field { name },
    ));
    assert(error_chain::pushed(inner, MessageTy::Field { name }) =~= seq![
        MessageTy::Field { name },
        MessageTy::NotAssignable { source: a, target: b },
    ]);
}

proof fn lemma_only_field(f: (KeyTy, Ty), g: (KeyTy, Ty))
    requires
        equality::among_fields(g, seq![f]),
    ensures
        equality::ty_eq(g.1, f.1),
{
}

// ----------------------------------------------------------------------------
// Declared types.

/// An alias is fit by what fits the type behind it, and fits what that fits.
pub proof fn alias_fits_like_the_type_behind_it(
    db: DbTy,
    id: Seq<char>,
    decl: DeclTy,
    a: Ty,
    b: Ty,
)
    requires
        db::decl_of(db, id) == Some(decl),
        decl.kind is Alias,
        decl.alias_ref == Some(b),
        value_kind(a) is Some,
        value_kind(b) is Some,
    ensures
        assignable::fits(db, a, Ty::Ref(id)) == value_fits(a, b),
        assignable::fits(db, Ty::Ref(id), a) == value_fits(b, a),
{
    let t = Ty::Ref(id);
    let state = IntersectionState::Plain;
    reveal(assignable::fits);
    reveal(normalize::normalized);
    reveal(relation::is_listed_value);
    assert(simple::simple_answer(a, t) is None && simple::simple_answer(t, a) is None) by {
        reveal(simple::simple_answer);
    }
    assert(!equality::ty_eq(b, t));
    lemma_own_form(db, a);
    lemma_first_step(db, a, t, false);
    lemma_first_step(db, t, a, false);
    lemma_value_step(first_scope(db, a, t, false), first_state(a, t), a, b, state);
    lemma_value_step(first_scope(db, t, a, false), first_state(t, a), b, a, state);
    if equality::ty_eq(a, b) {
        assert(value_fits(a, b));
    }
    if equality::ty_eq(b, a) {
        assert(value_fits(b, a));
    }
    assert(relation::unfolded(db, t) == Some(b));
}

/// An enumeration is fit by its own values alone.
pub proof fn enumeration_is_fit_by_its_values(
    db: DbTy,
    id: Seq<char>,
    decl: DeclTy,
    values: Seq<Ty>,
    s: Ty,
)
    requires
        db::decl_of(db, id) == Some(decl),
        decl.kind is Enum,
        decl.alias_ref is None,
        values.len() > 1,
        decl.enum_fields == Some(Ty::Union(Box::new(UnionTy::Multi(values)))),
        forall|i: int|
            0 <= i < values.len() ==> (#[trigger] values[i]) is DocStringConst
                || values[i] is DocIntegerConst,
        s is StringConst || s is IntegerConst || s is DocStringConst || s is DocIntegerConst,
    ensures
        assignable::fits(db, s, Ty::Ref(id)) == exists|i: int|
            0 <= i < values.len() && value_fits(s, #[trigger] values[i]),
{
    let t = Ty::Ref(id);
    let u = UnionTy::Multi(values);
    let v = Ty::Union(Box::new(u));
    let state = IntersectionState::Plain;
    reveal(assignable::fits);
    reveal(normalize::normalized);
    assert(simple::simple_answer(s, t) is None && simple::simple_answer(s, v) is None) by {
        reveal(simple::simple_answer);
    }
    assert(!relation::is_listed_value(db, s, t)) by {
        reveal(relation::is_listed_value);
    }
    lemma_own_form(db, s);
    lemma_own_form(db, v);
    assert(relation::unfolded(db, t) is None);
    lemma_first_step(db, s, t, false);
    let c = first_scope(db, s, t, false);
    let st = first_state(s, t);
    let inner = relation::rel_types(c, st, s, v, state);
    assert(relation::rel_inside(c, st, s, t, state) == relation::rel_plain(c, st, s, t, state));
    assert(dispatch::rel_by_source(c, st, s, t, state) == (RelMaybe { st, res: None }));
    assert(declared::rel_declared_target(c, st, s, t, state) == Some(inner));
    assert(dispatch::rel_structured(c, st, s, t, state) == relation::rel_some(inner));
    assert forall|i: int| 0 <= i < values.len() implies value_kind(#[trigger] values[i]) is Some by {}
    assert(inner == relation::rel_complex(c, st, s, v, state));
    if relation::is_listed_value(db, s, v) {
        assert(inner == relation::rel_ok(st));
        reveal(relation::is_listed_value);
        let i = choose|i: int| 0 <= i < values.len() && simple::fast_eq(s, #[trigger] values[i]);
        assert(value_fits(s, values[i])) by {
            lemma_glance(s, values[i]);
            reveal(simple::simple_answer);
        }
    } else {
        let d = RelScope { depth: 2, ..c };
        assert(relation::rel_scoped(c, st, s, v, state) == relation::rel_inside(d, st, s, v, state));
        assert forall|i: int| 0 <= i < values.len() implies !((#[trigger] values[i]) is Nil) by {
            assert(values[i] is DocStringConst || values[i] is DocIntegerConst);
        }
        lemma_all_non_nil(values);
        reveal(union::single_non_nil);
        lemma_targets(d, st, s, values, 0);
        assert(union::rel_union(d, st, s, v, state) == Some(
            union::rel_target_members(d, st, s, v, values, state),
        ));
        assert(relation::rel_inside(d, st, s, v, state) == union::rel_target_members(d, st, s, v, values, state));
        assert(relation::kept_answer(st.answers, s, v, state) is None);
        assert(inner.res == relation::rel_scoped(c, st, s, v, state).res);
    }
}

/// Functions with as many parameters are compared at each place, the other way round.
pub proof fn functions_fit_parameter_by_parameter(db: DbTy, f: FunctionTy, g: FunctionTy)
    requires
        !f.is_colon_define,
        !g.is_colon_define,
        f.params.len() == g.params.len(),
        forall|i: int|
            0 <= i < f.params.len() ==> ((#[trigger] f.params[i]).1 matches Some(t) && value_kind(t) is Some)
                && f.params[i].0 != "..."@,
        forall|i: int|
            0 <= i < g.params.len() ==> ((#[trigger] g.params[i]).1 matches Some(t) && value_kind(t) is Some)
                && g.params[i].0 != "..."@,
    ensures
        assignable::fits(db, Ty::DocFunction(Box::new(f)), Ty::DocFunction(Box::new(g))) == forall|i: int|
            0 <= i < f.params.len() ==> value_fits(
                g.params[i].1.unwrap(),
                (#[trigger] f.params[i]).1.unwrap(),
            ),
{
    let s = Ty::DocFunction(Box::new(f));
    let t = Ty::DocFunction(Box::new(g));
    lemma_glance_at_parts(s, t);
    if equality::ty_eq(s, t) {
        assert(equality::named_eq(f.params, g.params));
        assert forall|i: int| 0 <= i < f.params.len() implies value_fits(
            g.params[i].1.unwrap(),
            (#[trigger] f.params[i]).1.unwrap(),
        ) by {
            assert(equality::opt_eq(f.params[i].1, g.params[i].1));
            assert(g.params[i].1 is Some);
            lemma_equal_values(f.params[i].1.unwrap(), g.params[i].1.unwrap());
        }
        lemma_seen_at_a_glance(db, s, t);
    } else {
        lemma_asked(db, s, t);
        let c = first_scope(db, s, t, false);
        let st = first_state(s, t);
        lemma_functions(c, st, f, g);
        lemma_parameters(c, st, f, g, 0);
    }
}

proof fn lemma_parameters(c: RelScope, st: RelState, f: FunctionTy, g: FunctionTy, k: nat)
    requires
        !c.explain,
        f.params.len() == g.params.len(),
        k <= f.params.len(),
        forall|i: int|
            0 <= i < f.params.len() ==> ((#[trigger] f.params[i]).1 matches Some(t) && value_kind(t) is Some)
                && f.params[i].0 != "..."@,
        forall|i: int|
            0 <= i < g.params.len() ==> ((#[trigger] g.params[i]).1 matches Some(t) && value_kind(t) is Some)
                && g.params[i].0 != "..."@,
    ensures
        callable::rel_params(c, st, f.params, g.params, k, IntersectionState::Plain).res == if forall|i: int|
            k <= i < f.params.len() ==> value_fits(
                g.params[i].1.unwrap(),
                (#[trigger] f.params[i]).1.unwrap(),
            ) {
            Ok::<(), RelationFailure>(())
        } else {
            Err(RelationFailure::Unrelated)
        },
    decreases f.params.len() - k,
{
    if k < f.params.len() {
        assert(f.params[k as int].1 is Some && g.params[k as int].1 is Some);
        let a = f.params[k as int].1.unwrap();
        let b = g.params[k as int].1.unwrap();
        assert(value_kind(a) is Some && value_kind(b) is Some);
        lemma_value_step(c, st, b, a, IntersectionState::Plain);
        lemma_parameters(c, st, f, g, k + 1);
        if value_fits(b, a) {
            if forall|i: int|
                k + 1 <= i < f.params.len() ==> value_fits(
                    g.params[i].1.unwrap(),
                    (#[trigger] f.params[i]).1.unwrap(),
                ) {
                assert forall|i: int| k <= i < f.params.len() implies value_fits(
                    g.params[i].1.unwrap(),
                    (#[trigger] f.params[i]).1.unwrap(),
                ) by {}
            }
        } else {
            assert(!value_fits(g.params[k as int].1.unwrap(), f.params[k as int].1.unwrap()));
        }
    }
}

proof fn lemma_optional_step(c: RelScope, st: RelState, a: Ty, b: Ty)
    requires
        c.depth < 99,
        !c.explain,
        st.answers == assignable::nothing_kept(),
        value_kind(a) is Some,
        value_kind(b) is Some,
        !(b is Nil),
    ensures
        relation::rel_types(
            c,
            st,
            a,
            Ty::Union(Box::new(UnionTy::Nullable(b))),
            IntersectionState::Plain,
        ).res == if a is Nil || value_fits(a, b) {
            Ok::<(), RelationFailure>(())
        } else {
            Err(RelationFailure::Unrelated)
        },
{
    let u = UnionTy::Nullable(b);
    let t = Ty::Union(Box::new(u));
    let state = IntersectionState::Plain;
    let members = complex::union_tys(u);
    assert(members[0] == b && members[1] == Ty::Nil);
    assert(simple::simple_answer(a, t) is None) by {
        reveal(simple::simple_answer);
    }
    lemma_own_form(c.db, a);
    lemma_own_form(c.db, t);
    assert(relation::rel_types(c, st, a, t, state) == relation::rel_complex(c, st, a, t, state));
    if relation::is_exact_value(a) && relation::is_listed_value(c.db, a, t) {
        assert(value_fits(a, b)) by {
            reveal(relation::is_listed_value);
            lemma_glance(a, b);
            reveal(simple::simple_answer);
        }
    } else {
        let d = RelScope { depth: c.depth + 1, ..c };
        assert(relation::kept_answer(st.answers, a, t, state) is None);
        assert(relation::rel_scoped(c, st, a, t, state) == relation::rel_inside(d, st, a, t, state));
        assert(predicates::ty_is_nullable(a) == a is Nil);
        if a is Nil {
            assert forall|i: int| 0 <= i < members.len() implies value_kind(#[trigger] members[i]) is Some by {
                assert(i == 0 || i == 1);
            }
            lemma_targets(d, st, a, members, 0);
            assert(value_fits(a, members[1]));
        } else {
            reveal(union::single_non_nil);
            reveal_with_fuel(union::non_nil, 3);
            assert(members.drop_last() =~= seq![b]);
            assert(seq![b].drop_last() =~= Seq::<Ty>::empty());
            assert(union::non_nil(members) =~= seq![b]);
            lemma_value_step(d, st, a, b, state);
        }
        assert(relation::rel_inside(d, st, a, t, state).res == if a is Nil || value_fits(a, b) {
            Ok::<(), RelationFailure>(())
        } else {
            Err(RelationFailure::Unrelated)
        });
    }
}

/// Where indexes are strict, an array may hold nil beside what fits its elements.
pub proof fn strict_array_may_hold_nil(db: DbTy, a: Ty, b: Ty, len: LuaArrayLen)
    requires
        value_kind(a) is Some,
        value_kind(b) is Some,
        !(b is Nil),
        db.strict_array_index,
    ensures
        assignable::fits(
            db,
            Ty::Array(Box::new(ArrayTy { base: a, len })),
            Ty::Array(Box::new(ArrayTy { base: b, len })),
        ) == (a is Nil || value_fits(a, b)),
{
    let s = Ty::Array(Box::new(ArrayTy { base: a, len }));
    let t = Ty::Array(Box::new(ArrayTy { base: b, len }));
    let p = IntersectionState::Plain;
    lemma_glance_at_parts(s, t);
    if equality::ty_eq(s, t) {
        assert(equality::ty_eq(a, b));
        lemma_equal_values(a, b);
        lemma_seen_at_a_glance(db, s, t);
    } else {
        lemma_asked(db, s, t);
        let c = first_scope(db, s, t, false);
        let st = first_state(s, t);
        let slot = Ty::Union(Box::new(UnionTy::Nullable(b)));
        reveal(normalize::array_slot);
        assert(normalize::array_slot(db, b) == slot);
        lemma_optional_step(c, st, a, b);
        lemma_plain_steps(c, st, s, t);
        assert(dispatch::rel_to_array(c, st, s, t, b, p) == Some(
            relation::rel_note(c, relation::rel_types(c, st, a, slot, p), MessageTy::ArrayElement),
        ));
    }
}

} // verus!
