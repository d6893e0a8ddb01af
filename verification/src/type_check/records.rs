//! What holds of comparisons of plain data: basic types, classes, table literals, and the objects and
//! unions made of them.

use vstd::prelude::*;

use crate::{db, types};
use crate::db::DbTy;
use crate::type_check::{assignable, entries, error_chain, normalize, relation, simple, union};
use crate::type_check::error_chain::MessageTy;
use crate::type_check::relation::{IntersectionState, Rel, RelScope, RelState, RelationFailure};
use crate::type_check::structured::{declared, dispatch, member};
use crate::type_check::structured::member::{MemberRel, MissingRel};
use crate::types::{
    BasicTypeKind, KeyTy, ObjectTy, Ty, UnionTy, basic, complex, equality, equivalence, predicates,
};

verus! {

// ----------------------------------------------------------------------------
// Plain data.

/// A basic type, or a value of one.
pub open spec fn is_flat_data(t: Ty) -> bool {
    match t {
        Ty::Unknown | Ty::Any | Ty::Nil | Ty::Table | Ty::Userdata | Ty::Thread => true,
        Ty::Boolean | Ty::String | Ty::Integer | Ty::Number | Ty::Io | Ty::Global => true,
        Ty::BooleanConst(_) | Ty::StringConst(_) | Ty::IntegerConst(_) => true,
        Ty::DocBooleanConst(_) | Ty::DocStringConst(_) | Ty::DocIntegerConst(_) => true,
        Ty::FloatConst(bits) => !basic::float_is_nan(bits),
        Ty::Namespace(_) | Ty::Language(_) => true,
        _ => false,
    }
}

/// The name of a class.
pub open spec fn is_plain_class(db: DbTy, id: Seq<char>) -> bool {
    match db::decl_of(db, id) {
        Some(decl) => decl.kind is Class && decl.alias_ref is None,
        None => false,
    }
}

/// A basic type, a class, a table literal, an object whose fields are data, or a union of these.
/// Objects have each field once, and none for a whole type of keys. Unions have each member once, and
/// no union among them.
pub open spec fn is_data(db: DbTy, t: Ty) -> bool
    decreases t,
{
    match t {
        Ty::Ref(id) => is_plain_class(db, id),
        Ty::Def(id) => is_plain_class(db, id),
        Ty::TableConst(_) => true,
        Ty::Object(o) => o.index_access.len() == 0 && equivalence::has_plain_keys(o.fields) && data_fields(
            db,
            o.fields,
        ),
        Ty::Union(u) => match *u {
            UnionTy::Basic(kinds) => flat_kinds(kinds),
            UnionTy::Nullable(x) => is_data(db, x) && !(x is Union),
            UnionTy::Multi(types) => data_members(db, types) && equivalence::all_differ(types),
        },
        _ => is_flat_data(t),
    }
}

pub open spec fn data_fields(db: DbTy, fields: Seq<(KeyTy, Ty)>) -> bool
    decreases fields,
{
    forall|i: int| 0 <= i < fields.len() ==> is_data(db, (#[trigger] fields[i]).1)
}

pub open spec fn data_members(db: DbTy, types: Seq<Ty>) -> bool
    decreases types,
{
    forall|i: int| 0 <= i < types.len() ==> is_data(db, #[trigger] types[i]) && !(types[i] is Union)
}

pub open spec fn flat_kinds(kinds: Seq<BasicTypeKind>) -> bool {
    forall|i: int| 0 <= i < kinds.len() ==> is_flat_data(types::kind_ty(#[trigger] kinds[i]))
}

/// A type that goes by its members.
pub open spec fn has_members(t: Ty) -> bool {
    t is Object || t is TableConst || t is Ref || t is Def
}

// ----------------------------------------------------------------------------
// How data is compared.

/// Whether data fits where one side has no members. Tables fit what has members, and the other way
/// round; a class fits the basic type that it is named after, and is fit by those it inherits.
pub open spec fn fits_without_members(db: DbTy, source: Ty, target: Ty) -> bool {
    match (source, target) {
        (Ty::Table, _) => has_members(target),
        (Ty::Global, Ty::Ref(_)) | (Ty::Global, Ty::Def(_)) => true,
        (Ty::Userdata, Ty::Ref(id)) | (Ty::Userdata, Ty::Def(id)) | (Ty::Thread, Ty::Ref(id)) | (
            Ty::Thread,
            Ty::Def(id),
        ) => match db::base_type_name(source) {
            Some(base) => db::inherits(db, id, base, db.type_decls.len()),
            None => false,
        },
        (_, Ty::Table) => has_members(source),
        (Ty::Ref(_), Ty::Userdata) | (Ty::Def(_), Ty::Userdata) => true,
        (Ty::Ref(id), Ty::String)
        | (Ty::Ref(id), Ty::StringConst(_))
        | (Ty::Ref(id), Ty::Integer)
        | (Ty::Ref(id), Ty::IntegerConst(_))
        | (Ty::Def(id), Ty::String)
        | (Ty::Def(id), Ty::StringConst(_))
        | (Ty::Def(id), Ty::Integer)
        | (Ty::Def(id), Ty::IntegerConst(_)) => db::base_type_name(target) == Some(id),
        _ => false,
    }
}

/// Data fits data, as far as `n` levels show: member by member; a union if each of its members does;
/// into a union if it fits one of its members.
pub open spec fn data_fits(db: DbTy, source: Ty, target: Ty, n: nat) -> bool
    decreases n, 0nat,
{
    match simple::simple_answer(source, target) {
        Some(answer) => answer,
        None => if n == 0 {
            false
        } else {
            match source {
                Ty::Union(u) => all_members_fit(db, complex::union_tys(*u), 0, target, (n - 1) as nat),
                _ => match target {
                    Ty::Union(u) => fits_a_member(db, source, complex::union_tys(*u), 0, (n - 1) as nat),
                    _ => if has_members(source) && has_members(target) {
                        all_fields_fit(db, source, entries::member_entries(db, target), 0, (n - 1) as nat)
                    } else {
                        fits_without_members(db, source, target)
                    },
                },
            }
        },
    }
}

/// Every member fits, from member `k` on.
pub open spec fn all_members_fit(db: DbTy, members: Seq<Ty>, k: nat, target: Ty, n: nat) -> bool
    decreases n, 1nat,
{
    forall|i: int| k <= i < members.len() ==> data_fits(db, #[trigger] members[i], target, n)
}

/// The source fits one of the members, from member `k` on.
pub open spec fn fits_a_member(db: DbTy, source: Ty, members: Seq<Ty>, k: nat, n: nat) -> bool
    decreases n, 1nat,
{
    exists|i: int| k <= i < members.len() && data_fits(db, source, #[trigger] members[i], n)
}

/// Every one of the fields is fit by that of the source, from field `k` on.
pub open spec fn all_fields_fit(
    db: DbTy,
    source: Ty,
    fields: Seq<(KeyTy, Ty)>,
    k: nat,
    n: nat,
) -> bool
    decreases n, 2nat,
{
    forall|i: int| k <= i < fields.len() ==> field_fits(db, source, #[trigger] fields[i], n)
}

pub open spec fn field_fits(db: DbTy, source: Ty, field: (KeyTy, Ty), n: nat) -> bool
    decreases n, 1nat,
{
    match entries::direct_member(db, source, field.0) {
        Some(t) => data_fits(db, t, field.1, n),
        None => normalize::omittable(db, field.1),
    }
}

/// The source lacks the field, and it may not be left out.
pub open spec fn is_lacking(db: DbTy, source: Ty, field: (KeyTy, Ty)) -> bool {
    !(field.0 is TypeKey) && entries::direct_member(db, source, field.0) is None && !normalize::omittable(db, field.1)
}

/// The keys that the source lacks.
pub open spec fn absent_keys(db: DbTy, source: Ty, fields: Seq<(KeyTy, Ty)>) -> Seq<KeyTy>
    decreases fields.len(),
{
    if fields.len() == 0 {
        Seq::empty()
    } else if is_lacking(db, source, fields.last()) {
        absent_keys(db, source, fields.drop_last()).push(fields.last().0)
    } else {
        absent_keys(db, source, fields.drop_last())
    }
}

/// The source has one of the fields, from field `k` on.
pub open spec fn shares_key(db: DbTy, source: Ty, fields: Seq<(KeyTy, Ty)>, k: nat) -> bool {
    exists|i: int|
        k <= i < fields.len() && !((#[trigger] fields[i]).0 is TypeKey) && entries::direct_member(
            db,
            source,
            fields[i].0,
        ) is Some
}

/// The member of a union, from member `k` on, that comes nearest to the source: one that shares a
/// field with it and lacks the fewest, with the fields that it lacks.
pub open spec fn nearest_data(
    db: DbTy,
    source: Ty,
    members: Seq<Ty>,
    k: nat,
    best: Option<(nat, Seq<KeyTy>)>,
) -> Option<(nat, Seq<KeyTy>)>
    decreases members.len() - k,
{
    if k >= members.len() {
        best
    } else {
        let fields = entries::member_entries(db, members[k as int]);
        let absent = absent_keys(db, source, fields);
        let shared = shares_key(db, source, fields, 0);
        if shared && absent.len() == 0 {
            Some((k, absent))
        } else {
            nearest_data(db, source, members, k + 1, union::nearer(best, k, absent, shared))
        }
    }
}

/// The reason why data does not fit, in front of `chain`. Where members are compared: all those that
/// are missing, or else the first one that does not fit and the reason inside it. Of a union: the
/// reason against its first member that does not fit.
pub open spec fn data_reason(
    db: DbTy,
    source: Ty,
    target: Ty,
    n: nat,
    chain: Seq<MessageTy>,
) -> Seq<MessageTy>
    decreases n, 0nat, 0nat,
{
    if n == 0 {
        error_chain::pushed(chain, relation::misfit(source, target))
    } else {
        match source {
            Ty::Union(u) => error_chain::pushed(
                members_reason(db, complex::union_tys(*u), 0, target, (n - 1) as nat, chain),
                relation::misfit(source, target),
            ),
            _ => match target {
                Ty::Union(u) => union_reason(
                    db,
                    source,
                    target,
                    complex::union_tys(*u),
                    (n - 1) as nat,
                    chain,
                ),
                _ => if has_members(source) && has_members(target) {
                    shape_reason(
                        db,
                        source,
                        target,
                        entries::member_entries(db, target),
                        (n - 1) as nat,
                        chain,
                    )
                } else {
                    error_chain::pushed(chain, relation::misfit(source, target))
                },
            },
        }
    }
}

pub open spec fn members_reason(
    db: DbTy,
    members: Seq<Ty>,
    k: nat,
    target: Ty,
    n: nat,
    chain: Seq<MessageTy>,
) -> Seq<MessageTy>
    decreases n, 1nat, members.len() - k,
{
    if k >= members.len() {
        chain
    } else if data_fits(db, members[k as int], target, n) {
        members_reason(db, members, k + 1, target, n, chain)
    } else {
        data_reason(db, members[k as int], target, n, chain)
    }
}

/// The reason against all members of a union: that against the only one beside nil; else that against
/// the nearest one.
pub open spec fn union_reason(
    db: DbTy,
    source: Ty,
    target: Ty,
    members: Seq<Ty>,
    n: nat,
    chain: Seq<MessageTy>,
) -> Seq<MessageTy>
    decreases n, 1nat, 0nat,
{
    if !(source is Nil) && union::single_non_nil(members) is Some {
        data_reason(db, source, union::single_non_nil(members).unwrap(), n, chain)
    } else {
        match nearest_data(db, source, members, 0, None) {
            None => error_chain::pushed(chain, relation::misfit(source, target)),
            Some((k, keys)) => if keys.len() > 0 {
                error_chain::pushed(
                    chain,
                    MessageTy::MissingMembers { source, target: members[k as int], keys },
                )
            } else {
                data_reason(db, source, members[k as int], n, chain)
            },
        }
    }
}

pub open spec fn shape_reason(
    db: DbTy,
    source: Ty,
    target: Ty,
    fields: Seq<(KeyTy, Ty)>,
    n: nat,
    chain: Seq<MessageTy>,
) -> Seq<MessageTy>
    decreases n, 2nat, 0nat,
{
    if absent_keys(db, source, fields).len() > 0 {
        error_chain::pushed(
            chain,
            MessageTy::MissingMembers { source, target, keys: absent_keys(db, source, fields) },
        )
    } else {
        fields_reason(db, source, fields, 0, n, chain)
    }
}

pub open spec fn fields_reason(
    db: DbTy,
    source: Ty,
    fields: Seq<(KeyTy, Ty)>,
    k: nat,
    n: nat,
    chain: Seq<MessageTy>,
) -> Seq<MessageTy>
    decreases n, 1nat, fields.len() - k,
{
    if k >= fields.len() {
        chain
    } else {
        match entries::direct_member(db, source, fields[k as int].0) {
            Some(t) => if data_fits(db, t, fields[k as int].1, n) {
                fields_reason(db, source, fields, k + 1, n, chain)
            } else {
                error_chain::pushed(
                    data_reason(db, t, fields[k as int].1, n, chain),
                    error_chain::property_msg(fields[k as int].0),
                )
            },
            None => fields_reason(db, source, fields, k + 1, n, chain),
        }
    }
}

// ----------------------------------------------------------------------------
// What the limits of a comparison allow.

/// The comparison is of data all through, and goes no more than `n` levels deep.
pub open spec fn settled_within(db: DbTy, source: Ty, target: Ty, n: nat) -> bool
    decreases n, 0nat,
{
    is_data(db, source) && is_data(db, target) && (simple::simple_answer(source, target) is Some || (n > 0
        && match source {
        Ty::Union(u) => members_settled_within(db, complex::union_tys(*u), target, (n - 1) as nat),
        _ => match target {
            Ty::Union(u) => settled_with_members(db, source, complex::union_tys(*u), (n - 1) as nat),
            _ => has_members(source) && has_members(target) ==> fields_settled_within(
                db,
                source,
                entries::member_entries(db, target),
                (n - 1) as nat,
            ),
        },
    }))
}

pub open spec fn members_settled_within(db: DbTy, members: Seq<Ty>, target: Ty, n: nat) -> bool
    decreases n, 1nat,
{
    forall|i: int| 0 <= i < members.len() ==> settled_within(db, #[trigger] members[i], target, n)
}

pub open spec fn settled_with_members(db: DbTy, source: Ty, members: Seq<Ty>, n: nat) -> bool
    decreases n, 1nat,
{
    forall|i: int| 0 <= i < members.len() ==> settled_within(db, source, #[trigger] members[i], n)
}

pub open spec fn fields_settled_within(
    db: DbTy,
    source: Ty,
    fields: Seq<(KeyTy, Ty)>,
    n: nat,
) -> bool
    decreases n, 2nat,
{
    forall|i: int|
        0 <= i < fields.len() ==> field_settled_within(db, source, #[trigger] fields[i], n)
}

pub open spec fn field_settled_within(db: DbTy, source: Ty, field: (KeyTy, Ty), n: nat) -> bool
    decreases n, 1nat,
{
    !(field.0 is TypeKey) && match entries::direct_member(db, source, field.0) {
        Some(t) => settled_within(db, t, field.1, n),
        None => true,
    }
}

/// How many steps the comparison may take: one for itself and one for each field; twice what the
/// members of a union take, since the one that gives the reason is looked at again.
pub open spec fn data_steps(db: DbTy, source: Ty, target: Ty, n: nat) -> nat
    decreases n, 0nat, 0nat,
{
    if n == 0 || simple::simple_answer(source, target) is Some {
        0
    } else {
        1 + match source {
            Ty::Union(u) => 2 * members_steps(db, complex::union_tys(*u), 0, target, (n - 1) as nat),
            _ => match target {
                Ty::Union(u) => 2 * union_steps(db, source, complex::union_tys(*u), 0, (n - 1) as nat),
                _ => if has_members(source) && has_members(target) {
                    fields_steps(db, source, entries::member_entries(db, target), 0, (n - 1) as nat)
                } else {
                    0
                },
            },
        }
    }
}

pub open spec fn members_steps(db: DbTy, members: Seq<Ty>, k: nat, target: Ty, n: nat) -> nat
    decreases n, 1nat, members.len() - k,
{
    if k >= members.len() {
        0
    } else {
        data_steps(db, members[k as int], target, n) + members_steps(db, members, k + 1, target, n)
    }
}

pub open spec fn union_steps(db: DbTy, source: Ty, members: Seq<Ty>, k: nat, n: nat) -> nat
    decreases n, 1nat, members.len() - k,
{
    if k >= members.len() {
        0
    } else {
        data_steps(db, source, members[k as int], n) + union_steps(db, source, members, k + 1, n)
    }
}

pub open spec fn fields_steps(
    db: DbTy,
    source: Ty,
    fields: Seq<(KeyTy, Ty)>,
    k: nat,
    n: nat,
) -> nat
    decreases n, 1nat, fields.len() - k,
{
    if k >= fields.len() {
        0
    } else {
        1 + (match entries::direct_member(db, source, fields[k as int].0) {
            Some(t) => data_steps(db, t, fields[k as int].1, n),
            None => 0,
        }) + fields_steps(db, source, fields, k + 1, n)
    }
}

/// How deep a comparison may go.
pub open spec fn data_levels() -> nat {
    100
}

/// The answers are all on data, and right.
pub open spec fn answers_on_data(
    db: DbTy,
    answers: Seq<(Ty, Ty, IntersectionState, bool)>,
) -> bool {
    forall|i: int|
        0 <= i < answers.len() ==> settled_within(
            db,
            (#[trigger] answers[i]).0,
            answers[i].1,
            data_levels(),
        ) && answers[i].3 == data_fits(db, answers[i].0, answers[i].1, data_levels())
}

// ----------------------------------------------------------------------------
// Equal data.

proof fn lemma_data_is_sound(db: DbTy, t: Ty)
    requires
        is_data(db, t),
    ensures
        equivalence::is_sound(t),
    decreases t,
{
    if let Ty::Object(o) = t {
        lemma_data_fields_are_sound(db, o.fields);
        assert(equivalence::sound_pairs(o.index_access));
    }
    if let Ty::Union(u) = t {
        match *u {
            UnionTy::Basic(_) => {},
            UnionTy::Nullable(x) => lemma_data_is_sound(db, x),
            UnionTy::Multi(types) => lemma_data_members_are_sound(db, types),
        }
    }
}

proof fn lemma_data_fields_are_sound(db: DbTy, fields: Seq<(KeyTy, Ty)>)
    requires
        data_fields(db, fields),
    ensures
        equivalence::sound_fields(fields),
    decreases fields,
{
    assert forall|i: int| 0 <= i < fields.len() implies equivalence::is_sound((#[trigger] fields[i]).1) by {
        assert(is_data(db, fields[i].1));
        lemma_data_is_sound(db, fields[i].1);
    }
}

proof fn lemma_data_members_are_sound(db: DbTy, types: Seq<Ty>)
    requires
        data_members(db, types),
    ensures
        equivalence::all_sound(types),
    decreases types,
{
    assert forall|i: int| 0 <= i < types.len() implies equivalence::is_sound(#[trigger] types[i]) by {
        assert(is_data(db, types[i]));
        lemma_data_is_sound(db, types[i]);
    }
}

/// The types are the same, or equal data.
spec fn alike(db: DbTy, s: Ty, t: Ty) -> bool {
    s == t || (is_data(db, s) && is_data(db, t) && equality::ty_eq(s, t))
}

proof fn lemma_alike_back(db: DbTy, s: Ty, t: Ty)
    requires
        alike(db, s, t),
    ensures
        alike(db, t, s),
{
    if s != t {
        lemma_data_is_sound(db, s);
        lemma_data_is_sound(db, t);
        equivalence::equality_is_symmetric(s, t);
    }
}

proof fn lemma_alike_equal(db: DbTy, s: Ty, t: Ty)
    requires
        alike(db, s, t),
        is_data(db, s),
    ensures
        is_data(db, t),
        equality::ty_eq(s, t),
{
    lemma_data_is_sound(db, s);
    equivalence::equality_is_reflexive(s);
}

proof fn lemma_members_are_data(db: DbTy, u: UnionTy)
    requires
        is_data(db, Ty::Union(Box::new(u))),
    ensures
        data_members(db, complex::union_tys(u)),
{
    let members = complex::union_tys(u);
    match u {
        UnionTy::Basic(kinds) => {
            assert forall|i: int| 0 <= i < members.len() implies is_data(db, #[trigger] members[i])
                && !(members[i] is Union) by {
                assert(is_flat_data(types::kind_ty(kinds[i])));
            }
        },
        UnionTy::Nullable(x) => {
            assert forall|i: int| 0 <= i < members.len() implies is_data(db, #[trigger] members[i])
                && !(members[i] is Union) by {
                assert(members[i] == x || members[i] is Nil);
            }
        },
        UnionTy::Multi(types) => {},
    }
}

/// Each member of a union is like a member of an equal union.
proof fn lemma_alike_member(db: DbTy, u: UnionTy, v: UnionTy, i: int) -> (j: int)
    requires
        is_data(db, Ty::Union(Box::new(u))),
        is_data(db, Ty::Union(Box::new(v))),
        equality::ty_eq(Ty::Union(Box::new(u)), Ty::Union(Box::new(v))),
        0 <= i < complex::union_tys(u).len(),
    ensures
        0 <= j < complex::union_tys(v).len(),
        alike(db, complex::union_tys(u)[i], complex::union_tys(v)[j]),
{
    lemma_members_are_data(db, u);
    lemma_members_are_data(db, v);
    assert(is_data(db, complex::union_tys(u)[i]));
    match (u, v) {
        (UnionTy::Multi(x), UnionTy::Multi(y)) => {
            assert(equality::members_eq(x, y));
            assert(equality::among_tys(x[i], y));
            let j = choose|j: int| 0 <= j < y.len() && equality::ty_eq(x[i], #[trigger] y[j]);
            assert(is_data(db, complex::union_tys(v)[j]));
            j
        },
        _ => {
            assert(is_data(db, complex::union_tys(v)[i]));
            i
        },
    }
}

/// Equal data is answered for alike at a glance.
proof fn lemma_same_at_a_glance(db: DbTy, s: Ty, t: Ty, p: Ty, q: Ty)
    requires
        is_data(db, s),
        is_data(db, t),
        is_data(db, p),
        is_data(db, q),
        equality::ty_eq(s, p),
        equality::ty_eq(t, q),
    ensures
        simple::simple_answer(s, t) == simple::simple_answer(p, q),
{
    lemma_data_is_sound(db, s);
    lemma_data_is_sound(db, t);
    lemma_data_is_sound(db, p);
    lemma_data_is_sound(db, q);
    reveal(simple::simple_answer);
    if let (Ty::Ref(a), Ty::Union(u)) = (s, t) {
        if let (Ty::Ref(b), Ty::Union(v)) = (p, q) {
            assert(a == b);
            if let (UnionTy::Nullable(x), UnionTy::Nullable(y)) = (*u, *v) {
                assert(equality::ty_eq(x, y));
                assert((x == Ty::Ref(a)) == (y == Ty::Ref(a)));
            }
            assert((*u == UnionTy::Nullable(Ty::Ref(a))) == (*v == UnionTy::Nullable(Ty::Ref(b))));
        }
    }
    if !is_flat_data(s) || !is_flat_data(t) {
        if equality::ty_eq(s, t) {
            equivalence::equality_is_symmetric(s, p);
            equivalence::equality_is_transitive(p, s, t);
            equivalence::equality_is_transitive(p, t, q);
        }
        if equality::ty_eq(p, q) {
            equivalence::equality_is_symmetric(t, q);
            equivalence::equality_is_transitive(s, p, q);
            equivalence::equality_is_transitive(s, q, t);
        }
    }
}

spec fn is_open_data(t: Ty) -> bool {
    t is Nil || t is Any || t is Unknown
}

spec fn may_be_absent(t: Ty) -> bool {
    match t {
        Ty::Union(u) => match *u {
            UnionTy::Basic(kinds) => kinds.contains(BasicTypeKind::Nil),
            UnionTy::Nullable(_) => true,
            UnionTy::Multi(types) => exists|i: int|
                0 <= i < types.len() && is_open_data(#[trigger] types[i]),
        },
        _ => is_open_data(t),
    }
}

proof fn lemma_may_be_absent(db: DbTy, t: Ty)
    requires
        is_data(db, t),
    ensures
        normalize::omittable(db, t) == may_be_absent(t),
{
    reveal(normalize::omittable);
    reveal_with_fuel(normalize::may_be_omitted, 3);
    reveal_with_fuel(normalize::alias_may_be_omitted, 2);
    if let Ty::Union(u) = t {
        if let UnionTy::Multi(types) = *u {
            assert(data_members(db, types));
            assert forall|i: int| 0 <= i < types.len() implies normalize::may_be_omitted(
                db,
                #[trigger] types[i],
                8,
            ) == is_open_data(types[i]) by {
                assert(is_data(db, types[i]) && !(types[i] is Union));
            }
            assert(normalize::may_be_omitted(db, t, 9) == normalize::any_may_be_omitted(db, types, 8));
            if normalize::any_may_be_omitted(db, types, 8) {
                let i = choose|i: int|
                    0 <= i < types.len() && normalize::may_be_omitted(db, #[trigger] types[i], 8);
                assert(is_open_data(types[i]));
            }
            if may_be_absent(t) {
                let i = choose|i: int| 0 <= i < types.len() && is_open_data(#[trigger] types[i]);
                assert(normalize::may_be_omitted(db, types[i], 8));
            }
        }
    }
}

/// Equal types may be left out alike.
proof fn lemma_same_absence(db: DbTy, t: Ty, q: Ty)
    requires
        alike(db, t, q),
        normalize::omittable(db, t),
    ensures
        normalize::omittable(db, q),
{
    if t != q {
        lemma_may_be_absent(db, t);
        lemma_may_be_absent(db, q);
        if let (Ty::Union(u), Ty::Union(v)) = (t, q) {
            if let UnionTy::Multi(x) = *u {
                let i = choose|i: int| 0 <= i < x.len() && is_open_data(#[trigger] x[i]);
                let j = lemma_alike_member(db, *u, *v, i);
                assert(is_open_data(complex::union_tys(*v)[j]));
            }
        }
    }
}

proof fn lemma_field_found(fields: Seq<(KeyTy, Ty)>, key: KeyTy) -> (i: int)
    requires
        equivalence::has_plain_keys(fields),
        !(key is TypeKey),
        complex::first_field(fields, key) is Some,
    ensures
        0 <= i < fields.len(),
        fields[i].0 == key,
        complex::first_field(fields, key) == Some(fields[i].1),
    decreases fields.len(),
{
    if equality::key_eq(fields[0].0, key) {
        assert(!(fields[0].0 is TypeKey));
        0
    } else {
        let rest = fields.skip(1);
        assert(equivalence::has_plain_keys(rest)) by {
            assert forall|i: int| 0 <= i < rest.len() implies !((#[trigger] rest[i]).0 is TypeKey) by {
                assert(rest[i] == fields[i + 1]);
            }
            assert forall|i: int, j: int| 0 <= i < j < rest.len() implies (#[trigger] rest[i]).0 != (
            #[trigger] rest[j]).0 by {
                assert(rest[i] == fields[i + 1] && rest[j] == fields[j + 1]);
            }
        }
        let i = lemma_field_found(rest, key);
        assert(rest[i] == fields[i + 1]);
        i + 1
    }
}

proof fn lemma_field_at(fields: Seq<(KeyTy, Ty)>, i: int)
    requires
        equivalence::has_plain_keys(fields),
        0 <= i < fields.len(),
    ensures
        complex::first_field(fields, fields[i].0) == Some(fields[i].1),
    decreases fields.len(),
{
    assert(!(fields[i].0 is TypeKey));
    if i > 0 {
        assert(fields[0].0 != fields[i].0);
        assert(!(fields[0].0 is TypeKey));
        let rest = fields.skip(1);
        assert(equivalence::has_plain_keys(rest)) by {
            assert forall|j: int| 0 <= j < rest.len() implies !((#[trigger] rest[j]).0 is TypeKey) by {
                assert(rest[j] == fields[j + 1]);
            }
            assert forall|j: int, k: int| 0 <= j < k < rest.len() implies (#[trigger] rest[j]).0 != (
            #[trigger] rest[k]).0 by {
                assert(rest[j] == fields[j + 1] && rest[k] == fields[k + 1]);
            }
        }
        lemma_field_at(rest, i - 1);
        assert(rest[i - 1] == fields[i]);
    } else {
        assert(equality::key_eq(fields[0].0, fields[i].0));
    }
}

/// Equal objects have equal fields under the same keys.
proof fn lemma_same_field(a: ObjectTy, b: ObjectTy, key: KeyTy)
    requires
        equivalence::has_plain_keys(a.fields),
        equivalence::has_plain_keys(b.fields),
        equality::fields_eq(a.fields, b.fields),
        complex::first_field(a.fields, key) is Some,
        !(key is TypeKey),
    ensures
        complex::first_field(b.fields, key) is Some,
        equality::ty_eq(complex::first_field(a.fields, key).unwrap(), complex::first_field(b.fields, key).unwrap()),
{
    let i = lemma_field_found(a.fields, key);
    assert(equality::among_fields(a.fields[i], b.fields));
    let j = choose|j: int|
        0 <= j < b.fields.len() && equality::key_eq(a.fields[i].0, (#[trigger] b.fields[j]).0) && equality::ty_eq(
            a.fields[i].1,
            b.fields[j].1,
        );
    lemma_field_at(b.fields, j);
}

/// Equal data has like members under the same keys.
proof fn lemma_alike_at_key(db: DbTy, s: Ty, p: Ty, key: KeyTy)
    requires
        is_data(db, s),
        is_data(db, p),
        equality::ty_eq(s, p),
        has_members(s),
        !(key is TypeKey),
    ensures
        has_members(p),
        match (entries::direct_member(db, s, key), entries::direct_member(db, p, key)) {
            (Some(x), Some(y)) => alike(db, x, y),
            (None, None) => true,
            _ => false,
        },
{
    if let (Ty::Object(a), Ty::Object(b)) = (s, p) {
        reveal(entries::direct_member);
        lemma_data_is_sound(db, s);
        lemma_data_is_sound(db, p);
        equivalence::equality_is_symmetric(s, p);
        assert(data_fields(db, a.fields) && data_fields(db, b.fields));
        if complex::first_field(a.fields, key) is Some {
            lemma_same_field(*a, *b, key);
            let i = lemma_field_found(a.fields, key);
            let j = lemma_field_found(b.fields, key);
            assert(is_data(db, a.fields[i].1) && is_data(db, b.fields[j].1));
        }
        if complex::first_field(b.fields, key) is Some {
            lemma_same_field(*b, *a, key);
        }
    }
}

/// Each member that data asks for is like one that equal data asks for.
proof fn lemma_alike_entry(db: DbTy, t: Ty, q: Ty, j: int) -> (i: int)
    requires
        is_data(db, t),
        is_data(db, q),
        equality::ty_eq(t, q),
        has_members(t),
        0 <= j < entries::member_entries(db, q).len(),
    ensures
        0 <= i < entries::member_entries(db, t).len(),
        entries::member_entries(db, t)[i].0 == entries::member_entries(db, q)[j].0,
        alike(db, entries::member_entries(db, t)[i].1, entries::member_entries(db, q)[j].1),
{
    if let (Ty::Object(a), Ty::Object(b)) = (t, q) {
        reveal(entries::member_entries);
        lemma_data_is_sound(db, t);
        lemma_data_is_sound(db, q);
        equivalence::equality_is_symmetric(t, q);
        assert(equality::fields_eq(b.fields, a.fields));
        assert(entries::member_entries(db, t) =~= a.fields);
        assert(entries::member_entries(db, q) =~= b.fields);
        assert(equality::among_fields(b.fields[j], a.fields));
        let i = choose|i: int|
            0 <= i < a.fields.len() && equality::key_eq(b.fields[j].0, (#[trigger] a.fields[i]).0) && equality::ty_eq(
                b.fields[j].1,
                a.fields[i].1,
            );
        assert(!(b.fields[j].0 is TypeKey));
        assert(data_fields(db, a.fields) && data_fields(db, b.fields));
        assert(is_data(db, a.fields[i].1) && is_data(db, b.fields[j].1));
        lemma_alike_back(db, b.fields[j].1, a.fields[i].1);
        i
    } else {
        j
    }
}

/// A comparison of like data goes no deeper.
proof fn lemma_alike_settled(db: DbTy, s: Ty, t: Ty, p: Ty, q: Ty, n: nat)
    requires
        alike(db, s, p),
        alike(db, t, q),
        settled_within(db, s, t, n),
    ensures
        settled_within(db, p, q, n),
    decreases n,
{
    lemma_alike_equal(db, s, p);
    lemma_alike_equal(db, t, q);
    lemma_same_at_a_glance(db, s, t, p, q);
    if simple::simple_answer(s, t) is None {
        let m = (n - 1) as nat;
        match (s, p) {
            (Ty::Union(u), Ty::Union(v)) => {
                lemma_alike_back(db, s, p);
                lemma_alike_equal(db, p, s);
                let x = complex::union_tys(*u);
                let y = complex::union_tys(*v);
                assert forall|j: int| 0 <= j < y.len() implies settled_within(
                    db,
                    #[trigger] y[j],
                    q,
                    m,
                ) by {
                    let i = lemma_alike_member(db, *v, *u, j);
                    lemma_alike_back(db, y[j], x[i]);
                    assert(settled_within(db, x[i], t, m));
                    lemma_alike_settled(db, x[i], t, y[j], q, m);
                }
                assert(members_settled_within(db, y, q, m));
            },
            _ => match (t, q) {
                (Ty::Union(u), Ty::Union(v)) => {
                    lemma_alike_back(db, t, q);
                    lemma_alike_equal(db, q, t);
                    let x = complex::union_tys(*u);
                    let y = complex::union_tys(*v);
                    assert forall|j: int| 0 <= j < y.len() implies settled_within(
                        db,
                        p,
                        #[trigger] y[j],
                        m,
                    ) by {
                        let i = lemma_alike_member(db, *v, *u, j);
                        lemma_alike_back(db, y[j], x[i]);
                        assert(settled_within(db, s, x[i], m));
                        lemma_alike_settled(db, s, x[i], p, y[j], m);
                    }
                    assert(settled_with_members(db, p, y, m));
                },
                _ => if has_members(s) && has_members(t) {
                    let x = entries::member_entries(db, t);
                    let y = entries::member_entries(db, q);
                    assert(fields_settled_within(db, s, x, m));
                    assert forall|j: int| 0 <= j < y.len() implies field_settled_within(
                        db,
                        p,
                        #[trigger] y[j],
                        m,
                    ) by {
                        let i = lemma_alike_entry(db, t, q, j);
                        assert(field_settled_within(db, s, x[i], m));
                        lemma_alike_at_key(db, s, p, x[i].0);
                        if let (Some(a), Some(b)) = (
                            entries::direct_member(db, s, x[i].0),
                            entries::direct_member(db, p, x[i].0),
                        ) {
                            lemma_alike_settled(db, a, x[i].1, b, y[j].1, m);
                        }
                    }
                    assert(fields_settled_within(db, p, y, m));
                },
            },
        }
    }
}

/// What fits goes on fitting when like data stands in its place.
proof fn lemma_alike_fits(db: DbTy, s: Ty, t: Ty, p: Ty, q: Ty, n: nat)
    requires
        alike(db, s, p),
        alike(db, t, q),
        settled_within(db, s, t, n),
        data_fits(db, s, t, n),
    ensures
        data_fits(db, p, q, n),
    decreases n,
{
    lemma_alike_equal(db, s, p);
    lemma_alike_equal(db, t, q);
    lemma_same_at_a_glance(db, s, t, p, q);
    if simple::simple_answer(s, t) is None {
        let m = (n - 1) as nat;
        match (s, p) {
            (Ty::Union(u), Ty::Union(v)) => {
                lemma_alike_back(db, s, p);
                lemma_alike_equal(db, p, s);
                let x = complex::union_tys(*u);
                let y = complex::union_tys(*v);
                assert(members_settled_within(db, x, t, m));
                assert forall|j: int| 0 <= j < y.len() implies data_fits(
                    db,
                    #[trigger] y[j],
                    q,
                    m,
                ) by {
                    let i = lemma_alike_member(db, *v, *u, j);
                    lemma_alike_back(db, y[j], x[i]);
                    assert(settled_within(db, x[i], t, m) && data_fits(db, x[i], t, m));
                    lemma_alike_fits(db, x[i], t, y[j], q, m);
                }
                assert(all_members_fit(db, y, 0, q, m));
            },
            _ => match (t, q) {
                (Ty::Union(u), Ty::Union(v)) => {
                    let x = complex::union_tys(*u);
                    let y = complex::union_tys(*v);
                    let i = choose|i: int|
                        0 <= i < x.len() && data_fits(db, s, #[trigger] x[i], m);
                    let j = lemma_alike_member(db, *u, *v, i);
                    assert(settled_within(db, s, x[i], m));
                    lemma_alike_fits(db, s, x[i], p, y[j], m);
                    assert(fits_a_member(db, p, y, 0, m));
                },
                _ => if has_members(s) && has_members(t) {
                    let x = entries::member_entries(db, t);
                    let y = entries::member_entries(db, q);
                    assert(fields_settled_within(db, s, x, m));
                    assert(all_fields_fit(db, s, x, 0, m));
                    assert forall|j: int| 0 <= j < y.len() implies field_fits(
                        db,
                        p,
                        #[trigger] y[j],
                        m,
                    ) by {
                        let i = lemma_alike_entry(db, t, q, j);
                        assert(field_settled_within(db, s, x[i], m));
                        assert(field_fits(db, s, x[i], m));
                        lemma_alike_at_key(db, s, p, x[i].0);
                        if let (Some(a), Some(b)) = (
                            entries::direct_member(db, s, x[i].0),
                            entries::direct_member(db, p, x[i].0),
                        ) {
                            lemma_alike_fits(db, a, x[i].1, b, y[j].1, m);
                        } else {
                            lemma_same_absence(db, x[i].1, y[j].1);
                        }
                    }
                    assert(all_fields_fit(db, p, y, 0, m));
                },
            },
        }
    }
}

/// More levels than are needed change nothing.
proof fn lemma_levels_to_spare(db: DbTy, s: Ty, t: Ty, n: nat, m: nat)
    requires
        settled_within(db, s, t, n),
        n <= m,
    ensures
        settled_within(db, s, t, m),
        data_fits(db, s, t, n) == data_fits(db, s, t, m),
    decreases n,
{
    if simple::simple_answer(s, t) is None {
        let i = (n - 1) as nat;
        let j = (m - 1) as nat;
        match s {
            Ty::Union(u) => {
                let x = complex::union_tys(*u);
                assert forall|k: int| 0 <= k < x.len() implies settled_within(
                    db,
                    #[trigger] x[k],
                    t,
                    j,
                ) && data_fits(db, x[k], t, i) == data_fits(db, x[k], t, j) by {
                    assert(settled_within(db, x[k], t, i));
                    lemma_levels_to_spare(db, x[k], t, i, j);
                }
                assert(members_settled_within(db, x, t, j));
                assert(all_members_fit(db, x, 0, t, i) == all_members_fit(db, x, 0, t, j));
            },
            _ => match t {
                Ty::Union(u) => {
                    let x = complex::union_tys(*u);
                    assert forall|k: int| 0 <= k < x.len() implies settled_within(
                        db,
                        s,
                        #[trigger] x[k],
                        j,
                    ) && data_fits(db, s, x[k], i) == data_fits(db, s, x[k], j) by {
                        assert(settled_within(db, s, x[k], i));
                        lemma_levels_to_spare(db, s, x[k], i, j);
                    }
                    assert(settled_with_members(db, s, x, j));
                    if fits_a_member(db, s, x, 0, i) {
                        let k = choose|k: int|
                            0 <= k < x.len() && data_fits(db, s, #[trigger] x[k], i);
                        assert(data_fits(db, s, x[k], j));
                    }
                    if fits_a_member(db, s, x, 0, j) {
                        let k = choose|k: int|
                            0 <= k < x.len() && data_fits(db, s, #[trigger] x[k], j);
                        assert(data_fits(db, s, x[k], i));
                    }
                },
                _ => if has_members(s) && has_members(t) {
                    let b = entries::member_entries(db, t);
                    assert(fields_settled_within(db, s, b, i));
                    assert forall|k: int| 0 <= k < b.len() implies field_settled_within(
                        db,
                        s,
                        #[trigger] b[k],
                        j,
                    ) && field_fits(db, s, b[k], i) == field_fits(db, s, b[k], j) by {
                        assert(field_settled_within(db, s, b[k], i));
                        if let Some(x) = entries::direct_member(db, s, b[k].0) {
                            lemma_levels_to_spare(db, x, b[k].1, i, j);
                        }
                    }
                    assert(fields_settled_within(db, s, b, j));
                    assert(all_fields_fit(db, s, b, 0, i) == all_fields_fit(db, s, b, 0, j));
                },
            },
        }
    }
}

/// A kept answer on data is right.
proof fn lemma_kept_on_data(
    db: DbTy,
    answers: Seq<(Ty, Ty, IntersectionState, bool)>,
    source: Ty,
    target: Ty,
    state: IntersectionState,
)
    requires
        answers_on_data(db, answers),
        settled_within(db, source, target, data_levels()),
    ensures
        relation::kept_answer(answers, source, target, state) matches Some(answer) ==> answer == data_fits(
            db,
            source,
            target,
            data_levels(),
        ),
    decreases answers.len(),
{
    if answers.len() > 0 {
        let last = answers[answers.len() - 1];
        let front = answers.drop_last();
        let n = data_levels();
        assert(settled_within(db, last.0, last.1, n) && last.3 == data_fits(db, last.0, last.1, n));
        if relation::is_answer_for(last, source, target, state) {
            assert(alike(db, last.0, source) && alike(db, last.1, target));
            lemma_alike_back(db, last.0, source);
            lemma_alike_back(db, last.1, target);
            if data_fits(db, last.0, last.1, n) {
                lemma_alike_fits(db, last.0, last.1, source, target, n);
            }
            if data_fits(db, source, target, n) {
                lemma_alike_fits(db, source, target, last.0, last.1, n);
            }
        } else {
            assert(answers_on_data(db, front)) by {
                assert forall|i: int| 0 <= i < front.len() implies settled_within(
                    db,
                    (#[trigger] front[i]).0,
                    front[i].1,
                    n,
                ) && front[i].3 == data_fits(db, front[i].0, front[i].1, n) by {
                    assert(front[i] == answers[i]);
                }
            }
            lemma_kept_on_data(db, front, source, target, state);
        }
    }
}

// ----------------------------------------------------------------------------
// A comparison that is settled is never part of itself.

/// The second comparison is nearer to its end than the first one.
spec fn leads_to(db: DbTy, s: Ty, t: Ty, x: Ty, y: Ty) -> bool {
    forall|n: nat| #[trigger]
        settled_within(db, s, t, n) ==> n > 0 && settled_within(db, x, y, (n - 1) as nat)
}

/// The comparison is nearer to its end than all those that are under way.
spec fn is_below(db: DbTy, active: Seq<(Ty, Ty, IntersectionState)>, s: Ty, t: Ty) -> bool {
    forall|i: int|
        0 <= i < active.len() ==> is_data(db, (#[trigger] active[i]).0) && is_data(db, active[i].1)
            && leads_to(db, active[i].0, active[i].1, s, t)
}

proof fn lemma_leads_on(db: DbTy, p: Ty, q: Ty, s: Ty, t: Ty, x: Ty, y: Ty)
    requires
        leads_to(db, p, q, s, t),
        leads_to(db, s, t, x, y),
    ensures
        leads_to(db, p, q, x, y),
{
    assert forall|n: nat| #[trigger] settled_within(db, p, q, n) implies n > 0 && settled_within(
        db,
        x,
        y,
        (n - 1) as nat,
    ) by {
        assert(settled_within(db, s, t, (n - 1) as nat));
        lemma_levels_to_spare(db, x, y, (n - 2) as nat, (n - 1) as nat);
    }
}

proof fn lemma_goes_below(
    db: DbTy,
    active: Seq<(Ty, Ty, IntersectionState)>,
    s: Ty,
    t: Ty,
    state: IntersectionState,
    x: Ty,
    y: Ty,
)
    requires
        is_below(db, active, s, t),
        is_data(db, s),
        is_data(db, t),
        leads_to(db, s, t, x, y),
    ensures
        is_below(db, active, x, y),
        is_below(db, active.push((s, t, state)), x, y),
{
    let more = active.push((s, t, state));
    assert forall|i: int| 0 <= i < active.len() implies leads_to(
        db,
        (#[trigger] active[i]).0,
        active[i].1,
        x,
        y,
    ) by {
        lemma_leads_on(db, active[i].0, active[i].1, s, t, x, y);
    }
    assert forall|i: int| 0 <= i < more.len() implies is_data(db, (#[trigger] more[i]).0)
        && is_data(db, more[i].1) && leads_to(db, more[i].0, more[i].1, x, y) by {
        if i < active.len() {
            assert(more[i] == active[i]);
        }
    }
}

proof fn lemma_never_ends(db: DbTy, p: Ty, q: Ty, s: Ty, t: Ty, n: nat)
    requires
        alike(db, s, p),
        alike(db, t, q),
        leads_to(db, p, q, s, t),
    ensures
        !settled_within(db, s, t, n),
    decreases n,
{
    if settled_within(db, s, t, n) {
        lemma_alike_settled(db, s, t, p, q, n);
        assert(n > 0 && settled_within(db, s, t, (n - 1) as nat));
        lemma_never_ends(db, p, q, s, t, (n - 1) as nat);
    }
}

proof fn lemma_not_under_way(
    db: DbTy,
    active: Seq<(Ty, Ty, IntersectionState)>,
    s: Ty,
    t: Ty,
    state: IntersectionState,
    n: nat,
)
    requires
        is_below(db, active, s, t),
        settled_within(db, s, t, n),
    ensures
        !relation::is_under_way(active, s, t, state),
{
    reveal(relation::is_under_way);
    if relation::is_under_way(active, s, t, state) {
        let i = choose|i: int|
            0 <= i < active.len() && (#[trigger] active[i]).2 == state && relation::recurring_eq(
                active[i].0,
                s,
            ) && relation::recurring_eq(active[i].1, t);
        let p = active[i].0;
        let q = active[i].1;
        assert(is_data(db, p) && is_data(db, q) && leads_to(db, p, q, s, t));
        assert(alike(db, p, s) && alike(db, q, t));
        lemma_alike_back(db, p, s);
        lemma_alike_back(db, q, t);
        lemma_never_ends(db, p, q, s, t, n);
    }
}

// ----------------------------------------------------------------------------
// The comparison, step by step.

proof fn lemma_data_is_its_own_form(db: DbTy, t: Ty)
    requires
        is_data(db, t),
    ensures
        relation::unfolded(db, t) is None,
        relation::may_recur(t) == (t is Ref || t is Def),
        relation::is_composite(t) == t is Union,
{
    reveal(normalize::normalized);
}

proof fn lemma_absent_keys(db: DbTy, source: Ty, fields: Seq<(KeyTy, Ty)>)
    ensures
        absent_keys(db, source, fields).len() == 0 <==> forall|i: int|
            0 <= i < fields.len() ==> !is_lacking(db, source, #[trigger] fields[i]),
    decreases fields.len(),
{
    if fields.len() > 0 {
        let front = fields.drop_last();
        lemma_absent_keys(db, source, front);
        if absent_keys(db, source, fields).len() == 0 {
            assert forall|i: int| 0 <= i < fields.len() implies !is_lacking(
                db,
                source,
                #[trigger] fields[i],
            ) by {
                if i < front.len() {
                    assert(front[i] == fields[i]);
                }
            }
        } else if absent_keys(db, source, front).len() > 0 {
            let i = choose|i: int|
                0 <= i < front.len() && is_lacking(db, source, #[trigger] front[i]);
            assert(fields[i] == front[i]);
        } else {
            assert(is_lacking(db, source, fields[fields.len() - 1]));
        }
    }
}

proof fn lemma_member_found(c: RelScope, st: RelState, t: Ty, key: KeyTy, state: IntersectionState)
    requires
        is_data(c.db, t),
    ensures
        member::rel_member_type(c, st, t, key, state) == (MemberRel {
            st,
            res: Ok(entries::direct_member(c.db, t, key)),
        }),
{
    reveal_with_fuel(member::rel_member_type, 2);
}

/// The missing fields are found without a comparison.
proof fn lemma_missing(
    c: RelScope,
    st: RelState,
    source: Ty,
    b: Seq<(KeyTy, Ty)>,
    k: nat,
    shared: bool,
    state: IntersectionState,
)
    requires
        is_data(c.db, source),
        k <= b.len(),
    ensures
        member::rel_missing_of(
            c,
            st,
            source,
            b,
            k,
            absent_keys(c.db, source, b.take(k as int)),
            shared,
            state,
        ) == (MissingRel {
            st,
            res: Ok(
                (absent_keys(c.db, source, b), shared || shares_key(c.db, source, b, k)),
            ),
        }),
    decreases b.len() - k,
{
    reveal_with_fuel(member::rel_missing_of, 2);
    if k < b.len() {
        let (key, t) = b[k as int];
        lemma_member_found(c, st, source, key, state);
        assert(b.take((k + 1) as int).drop_last() =~= b.take(k as int));
        assert(b.take((k + 1) as int).last() == b[k as int]);
        let here = !(key is TypeKey) && entries::direct_member(c.db, source, key) is Some;
        assert(shares_key(c.db, source, b, k) == (here || shares_key(c.db, source, b, k + 1))) by {
            if here {
                assert(!(b[k as int].0 is TypeKey));
            }
            if shares_key(c.db, source, b, k + 1) {
                let i = choose|i: int|
                    k + 1 <= i < b.len() && !((#[trigger] b[i]).0 is TypeKey) && entries::direct_member(
                        c.db,
                        source,
                        b[i].0,
                    ) is Some;
                assert(!(b[i].0 is TypeKey));
            }
        }
        lemma_missing(c, st, source, b, k + 1, shared, state);
        lemma_missing(c, st, source, b, k + 1, true, state);
    } else {
        assert(b.take(k as int) =~= b);
    }
}

proof fn lemma_missing_of(c: RelScope, st: RelState, source: Ty, target: Ty, state: IntersectionState)
    requires
        is_data(c.db, source),
    ensures
        member::rel_missing(c, st, source, target, state) == (MissingRel {
            st,
            res: Ok(
                (
                    absent_keys(c.db, source, entries::member_entries(c.db, target)),
                    shares_key(c.db, source, entries::member_entries(c.db, target), 0),
                ),
            ),
        }),
{
    let b = entries::member_entries(c.db, target);
    reveal_with_fuel(member::rel_missing, 2);
    assert(b.take(0) =~= Seq::<(KeyTy, Ty)>::empty());
    assert(absent_keys(c.db, source, b.take(0)) =~= Seq::<KeyTy>::empty());
    lemma_missing(c, st, source, b, 0, false, state);
}

/// The nearest member of a union is found without a comparison.
proof fn lemma_nearest(
    c: RelScope,
    st: RelState,
    source: Ty,
    members: Seq<Ty>,
    k: nat,
    best: Option<(nat, Seq<KeyTy>)>,
    state: IntersectionState,
)
    requires
        is_data(c.db, source),
        best matches Some((j, _)) ==> j < members.len(),
    ensures
        union::rel_nearest(c, st, source, members, k, best, state) == (
            st,
            Ok::<Option<(nat, Seq<KeyTy>)>, RelationFailure>(
                nearest_data(c.db, source, members, k, best),
            ),
        ),
        nearest_data(c.db, source, members, k, best) matches Some((j, _)) ==> j < members.len(),
    decreases members.len() - k,
{
    reveal_with_fuel(union::rel_nearest, 2);
    if k < members.len() {
        let t = members[k as int];
        lemma_missing_of(c, st, source, t, state);
        let fields = entries::member_entries(c.db, t);
        let absent = absent_keys(c.db, source, fields);
        let shared = shares_key(c.db, source, fields, 0);
        lemma_nearest(c, st, source, members, k + 1, union::nearer(best, k, absent, shared), state);
    }
}

/// What a comparison of data leaves behind.
spec fn went_as_data(
    c: RelScope,
    st: RelState,
    r: Rel,
    fits: bool,
    size: nat,
    reason: Seq<MessageTy>,
) -> bool {
    &&& r.res == if fits {
        Ok::<(), RelationFailure>(())
    } else {
        Err(RelationFailure::Unrelated)
    }
    &&& answers_on_data(c.db, r.st.answers)
    &&& r.st.assumptions == st.assumptions
    &&& r.st.budget <= st.budget
    &&& r.st.budget + size >= st.budget
    &&& r.st.chain == if fits || !c.explain {
        st.chain
    } else {
        reason
    }
}

/// One more answer on data is kept.
proof fn lemma_one_more(
    db: DbTy,
    answers: Seq<(Ty, Ty, IntersectionState, bool)>,
    source: Ty,
    target: Ty,
    state: IntersectionState,
)
    requires
        answers_on_data(db, answers),
        settled_within(db, source, target, data_levels()),
    ensures
        answers_on_data(
            db,
            answers.push((source, target, state, data_fits(db, source, target, data_levels()))),
        ),
{
    let more = answers.push((source, target, state, data_fits(db, source, target, data_levels())));
    assert forall|i: int| 0 <= i < more.len() implies settled_within(
        db,
        (#[trigger] more[i]).0,
        more[i].1,
        data_levels(),
    ) && more[i].3 == data_fits(db, more[i].0, more[i].1, data_levels()) by {
        if i < answers.len() {
            assert(more[i] == answers[i]);
        }
    }
}

/// A value that is listed in a union fits it.
proof fn lemma_listed_value_fits(db: DbTy, source: Ty, target: Ty, n: nat)
    requires
        is_data(db, target),
        relation::is_exact_value(source),
        relation::is_listed_value(db, source, target),
        simple::simple_answer(source, target) is None,
        n > 0,
    ensures
        data_fits(db, source, target, n),
{
    reveal(relation::is_listed_value);
    let m = (n - 1) as nat;
    if let Ty::Union(u) = target {
        let x = complex::union_tys(*u);
        let i: int = match *u {
            UnionTy::Multi(types) => choose|i: int|
                0 <= i < types.len() && simple::fast_eq(source, #[trigger] types[i]),
            _ => 0,
        };
        assert(simple::fast_eq(source, x[i]));
        assert(data_fits(db, source, x[i], m)) by {
            reveal(simple::simple_answer);
        }
        assert(fits_a_member(db, source, x, 0, m));
    }
}

proof fn lemma_compares_data(
    c: RelScope,
    st: RelState,
    source: Ty,
    target: Ty,
    state: IntersectionState,
)
    requires
        answers_on_data(c.db, st.answers),
        is_below(c.db, c.active, source, target),
        settled_within(c.db, source, target, relation::levels(c)),
        st.budget >= data_steps(c.db, source, target, relation::levels(c)),
    ensures
        went_as_data(
            c,
            st,
            relation::rel_types(c, st, source, target, state),
            data_fits(c.db, source, target, relation::levels(c)),
            data_steps(c.db, source, target, relation::levels(c)),
            data_reason(c.db, source, target, relation::levels(c), st.chain),
        ),
    decreases relation::levels(c), 0nat, 1nat,
{
    let n = relation::levels(c);
    reveal_with_fuel(relation::rel_types, 2);
    match simple::simple_answer(source, target) {
        Some(answer) => {
            assert(!answer ==> is_flat_data(source) && is_flat_data(target)) by {
                reveal(simple::simple_answer);
            }
        },
        None => {
            reveal_with_fuel(relation::rel_complex, 2);
            if relation::is_exact_value(source) && relation::is_listed_value(c.db, source, target) {
                lemma_listed_value_fits(c.db, source, target, n);
            } else {
                lemma_levels_to_spare(c.db, source, target, n, data_levels());
                lemma_kept_on_data(c.db, st.answers, source, target, state);
                lemma_compares_shapes(c, st, source, target, state);
                let inner = relation::rel_scoped(c, st, source, target, state);
                lemma_one_more(c.db, inner.st.answers, source, target, state);
            }
        },
    }
}

/// The scope inside a comparison.
spec fn inner_scope(c: RelScope, source: Ty, target: Ty, state: IntersectionState) -> RelScope {
    if relation::may_recur(source) || relation::may_recur(target) {
        RelScope { depth: c.depth + 1, active: c.active.push((source, target, state)), ..c }
    } else {
        RelScope { depth: c.depth + 1, ..c }
    }
}

proof fn lemma_compares_shapes(
    c: RelScope,
    st: RelState,
    source: Ty,
    target: Ty,
    state: IntersectionState,
)
    requires
        answers_on_data(c.db, st.answers),
        is_below(c.db, c.active, source, target),
        simple::simple_answer(source, target) is None,
        settled_within(c.db, source, target, relation::levels(c)),
        st.budget >= data_steps(c.db, source, target, relation::levels(c)),
    ensures
        went_as_data(
            c,
            st,
            relation::rel_scoped(c, st, source, target, state),
            data_fits(c.db, source, target, relation::levels(c)),
            data_steps(c.db, source, target, relation::levels(c)),
            data_reason(c.db, source, target, relation::levels(c), st.chain),
        ),
    decreases relation::levels(c), 0nat, 0nat,
{
    let n = relation::levels(c);
    lemma_data_is_its_own_form(c.db, source);
    lemma_data_is_its_own_form(c.db, target);
    lemma_not_under_way(c.db, c.active, source, target, state, n);
    let d = inner_scope(c, source, target, state);
    let spent = if relation::may_recur(source) || relation::may_recur(target) {
        relation::rel_spend(st).st
    } else {
        st
    };
    assert(st.budget > 0);
    reveal_with_fuel(relation::rel_scoped, 2);
    assert(relation::rel_scoped(c, st, source, target, state) == relation::rel_inside(
        d,
        spent,
        source,
        target,
        state,
    ));
    reveal_with_fuel(relation::rel_inside, 2);
    match source {
        Ty::Union(u) => {
            let x = complex::union_tys(*u);
            assert forall|i: int| 0 <= i < x.len() implies is_below(
                c.db,
                d.active,
                #[trigger] x[i],
                target,
            ) by {
                assert forall|m: nat| #[trigger]
                    settled_within(c.db, source, target, m) implies m > 0 && settled_within(
                    c.db,
                    x[i],
                    target,
                    (m - 1) as nat,
                ) by {
                    assert(members_settled_within(c.db, x, target, (m - 1) as nat));
                }
                lemma_goes_below(c.db, c.active, source, target, state, x[i], target);
            }
            lemma_compares_source_union(d, spent, source, *u, target, state);
        },
        _ => match target {
            Ty::Union(u) => {
                let x = complex::union_tys(*u);
                assert forall|i: int| 0 <= i < x.len() implies is_below(
                    c.db,
                    d.active,
                    source,
                    #[trigger] x[i],
                ) by {
                    assert forall|m: nat| #[trigger]
                        settled_within(c.db, source, target, m) implies m > 0 && settled_within(
                        c.db,
                        source,
                        x[i],
                        (m - 1) as nat,
                    ) by {
                        assert(settled_with_members(c.db, source, x, (m - 1) as nat));
                    }
                    lemma_goes_below(c.db, c.active, source, target, state, source, x[i]);
                }
                lemma_compares_target_union(d, spent, source, target, *u, state);
            },
            _ => {
                assert(relation::rel_inside(d, spent, source, target, state) == relation::rel_plain(
                    d,
                    spent,
                    source,
                    target,
                    state,
                ));
                if has_members(source) && has_members(target) {
                    let b = entries::member_entries(c.db, target);
                    assert forall|i: int| 0 <= i < b.len() implies field_is_below(
                        c.db,
                        d.active,
                        source,
                        #[trigger] b[i],
                    ) by {
                        if let Some(s) = entries::direct_member(c.db, source, b[i].0) {
                            assert forall|m: nat| #[trigger]
                                settled_within(c.db, source, target, m) implies m > 0
                                && settled_within(c.db, s, b[i].1, (m - 1) as nat) by {
                                assert(fields_settled_within(c.db, source, b, (m - 1) as nat));
                                assert(field_settled_within(c.db, source, b[i], (m - 1) as nat));
                            }
                            lemma_goes_below(c.db, c.active, source, target, state, s, b[i].1);
                        }
                    }
                    lemma_plain_members(d, spent, source, target, state);
                    lemma_compares_by_members(d, spent, source, target, state);
                } else {
                    lemma_plain_without_members(d, spent, source, target, state);
                }
            },
        },
    }
}

spec fn field_is_below(
    db: DbTy,
    active: Seq<(Ty, Ty, IntersectionState)>,
    source: Ty,
    field: (KeyTy, Ty),
) -> bool {
    match entries::direct_member(db, source, field.0) {
        Some(t) => is_below(db, active, t, field.1),
        None => true,
    }
}

proof fn lemma_compares_source_union(
    c: RelScope,
    st: RelState,
    source: Ty,
    u: UnionTy,
    target: Ty,
    state: IntersectionState,
)
    requires
        source == Ty::Union(Box::new(u)),
        answers_on_data(c.db, st.answers),
        members_settled_within(c.db, complex::union_tys(u), target, relation::levels(c)),
        forall|i: int|
            0 <= i < complex::union_tys(u).len() ==> is_below(
                c.db,
                c.active,
                #[trigger] complex::union_tys(u)[i],
                target,
            ),
        st.budget >= 2 * members_steps(c.db, complex::union_tys(u), 0, target, relation::levels(c)),
    ensures
        union::rel_union(c, st, source, target, state) is Some,
        went_as_data(
            c,
            st,
            union::rel_union(c, st, source, target, state).unwrap(),
            all_members_fit(c.db, complex::union_tys(u), 0, target, relation::levels(c)),
            2 * members_steps(c.db, complex::union_tys(u), 0, target, relation::levels(c)),
            error_chain::pushed(
                members_reason(c.db, complex::union_tys(u), 0, target, relation::levels(c), st.chain),
                relation::misfit(source, target),
            ),
        ),
    decreases relation::levels(c), 2nat, 0nat,
{
    reveal_with_fuel(union::rel_union, 2);
    lemma_compares_members(c, st, complex::union_tys(u), 0, target, state);
}

proof fn lemma_compares_members(
    c: RelScope,
    st: RelState,
    members: Seq<Ty>,
    k: nat,
    target: Ty,
    state: IntersectionState,
)
    requires
        answers_on_data(c.db, st.answers),
        k <= members.len(),
        members_settled_within(c.db, members, target, relation::levels(c)),
        forall|i: int|
            0 <= i < members.len() ==> is_below(c.db, c.active, #[trigger] members[i], target),
        st.budget >= 2 * members_steps(c.db, members, k, target, relation::levels(c)),
    ensures
        went_as_data(
            c,
            st,
            union::rel_source_members(c, st, members, k, None, target, state),
            all_members_fit(c.db, members, k, target, relation::levels(c)),
            2 * members_steps(c.db, members, k, target, relation::levels(c)),
            members_reason(c.db, members, k, target, relation::levels(c), st.chain),
        ),
    decreases relation::levels(c), 1nat, members.len() - k,
{
    let n = relation::levels(c);
    reveal_with_fuel(union::rel_source_members, 2);
    if k < members.len() {
        let s = members[k as int];
        assert(settled_within(c.db, s, target, n));
        lemma_compares_data(relation::quiet(c), st, s, target, state);
        let r = relation::rel_types(relation::quiet(c), st, s, target, state);
        if data_fits(c.db, s, target, n) {
            lemma_compares_members(c, r.st, members, k + 1, target, state);
            assert(all_members_fit(c.db, members, k, target, n) == all_members_fit(
                c.db,
                members,
                k + 1,
                target,
                n,
            ));
        } else {
            assert(!all_members_fit(c.db, members, k, target, n));
            if c.explain {
                lemma_compares_data(c, r.st, s, target, state);
            }
        }
    }
}

proof fn lemma_tries_members(
    c: RelScope,
    st: RelState,
    source: Ty,
    members: Seq<Ty>,
    k: nat,
    state: IntersectionState,
)
    requires
        answers_on_data(c.db, st.answers),
        k <= members.len(),
        settled_with_members(c.db, source, members, relation::levels(c)),
        forall|i: int|
            0 <= i < members.len() ==> is_below(c.db, c.active, source, #[trigger] members[i]),
        st.budget >= union_steps(c.db, source, members, k, relation::levels(c)),
    ensures
        ({
            let (after, found, first) = union::rel_try_members(c, st, source, members, k, None, state);
            &&& found == fits_a_member(c.db, source, members, k, relation::levels(c))
            &&& first is None
            &&& answers_on_data(c.db, after.answers)
            &&& after.assumptions == st.assumptions
            &&& after.chain == st.chain
            &&& after.budget <= st.budget
            &&& after.budget + union_steps(c.db, source, members, k, relation::levels(c)) >= st.budget
        }),
    decreases relation::levels(c), 1nat, members.len() - k,
{
    let n = relation::levels(c);
    reveal_with_fuel(union::rel_try_members, 2);
    if k < members.len() {
        let t = members[k as int];
        assert(settled_within(c.db, source, t, n));
        lemma_compares_data(relation::quiet(c), st, source, t, state);
        let r = relation::rel_types(relation::quiet(c), st, source, t, state);
        if data_fits(c.db, source, t, n) {
            assert(fits_a_member(c.db, source, members, k, n));
        } else {
            lemma_tries_members(c, r.st, source, members, k + 1, state);
            assert(fits_a_member(c.db, source, members, k, n) == fits_a_member(
                c.db,
                source,
                members,
                k + 1,
                n,
            )) by {
                if fits_a_member(c.db, source, members, k + 1, n) {
                    let i = choose|i: int|
                        k + 1 <= i < members.len() && data_fits(
                            c.db,
                            source,
                            #[trigger] members[i],
                            n,
                        );
                    assert(data_fits(c.db, source, members[i], n));
                }
            }
        }
    }
}

proof fn lemma_steps_of_member(db: DbTy, source: Ty, members: Seq<Ty>, k: nat, j: int, n: nat)
    requires
        k <= j < members.len(),
    ensures
        data_steps(db, source, members[j], n) <= union_steps(db, source, members, k, n),
    decreases members.len() - k,
{
    if k < j {
        lemma_steps_of_member(db, source, members, k + 1, j, n);
    }
}

proof fn lemma_non_nil(types: Seq<Ty>)
    ensures
        union::non_nil(types).len() <= types.len(),
        forall|i: int|
            0 <= i < types.len() && !((#[trigger] types[i]) is Nil) ==> union::non_nil(types).contains(
                types[i],
            ),
        forall|j: int| 0 <= j < union::non_nil(types).len() ==> types.contains(#[trigger] union::non_nil(types)[j]),
    decreases types.len(),
{
    if types.len() > 0 {
        let front = types.drop_last();
        let all = union::non_nil(types);
        lemma_non_nil(front);
        assert forall|i: int| 0 <= i < types.len() && !((#[trigger] types[i]) is Nil) implies all.contains(
            types[i],
        ) by {
            if i < front.len() {
                assert(front[i] == types[i]);
                let j = choose|j: int| 0 <= j < union::non_nil(front).len() && union::non_nil(front)[j] == types[i];
                assert(all[j] == types[i]);
            } else {
                assert(all[all.len() - 1] == types[i]);
            }
        }
        assert forall|j: int| 0 <= j < all.len() implies types.contains(#[trigger] all[j]) by {
            if j < union::non_nil(front).len() {
                assert(all[j] == union::non_nil(front)[j]);
                let i = choose|i: int| 0 <= i < front.len() && front[i] == all[j];
                assert(types[i] == all[j]);
            } else {
                assert(all[j] == types[types.len() - 1]);
            }
        }
    }
}

/// A type that is not nil fits a union of nil and one other type if it fits that one.
proof fn lemma_single(db: DbTy, source: Ty, members: Seq<Ty>, n: nat) -> (j: int)
    requires
        is_data(db, source),
        !(source is Union),
        !(source is Nil),
        !(source is Any),
        !(source is Unknown),
        union::single_non_nil(members) is Some,
    ensures
        0 <= j < members.len(),
        members[j] == union::single_non_nil(members).unwrap(),
        fits_a_member(db, source, members, 0, n) == data_fits(db, source, members[j], n),
{
    reveal(union::single_non_nil);
    lemma_non_nil(members);
    let rest = union::non_nil(members);
    assert(members.contains(rest[0]));
    let j = choose|j: int| 0 <= j < members.len() && members[j] == rest[0];
    if fits_a_member(db, source, members, 0, n) {
        let i = choose|i: int|
            0 <= i < members.len() && data_fits(db, source, #[trigger] members[i], n);
        if members[i] is Nil {
            reveal(simple::simple_answer);
            assert(false);
        } else {
            assert(rest.contains(members[i]));
            assert(members[i] == members[j]);
        }
    }
    j
}

proof fn lemma_compares_target_union(
    c: RelScope,
    st: RelState,
    source: Ty,
    target: Ty,
    u: UnionTy,
    state: IntersectionState,
)
    requires
        target == Ty::Union(Box::new(u)),
        !(source is Union),
        is_data(c.db, source),
        answers_on_data(c.db, st.answers),
        simple::simple_answer(source, target) is None,
        settled_with_members(c.db, source, complex::union_tys(u), relation::levels(c)),
        forall|i: int|
            0 <= i < complex::union_tys(u).len() ==> is_below(
                c.db,
                c.active,
                source,
                #[trigger] complex::union_tys(u)[i],
            ),
        st.budget >= 2 * union_steps(c.db, source, complex::union_tys(u), 0, relation::levels(c)),
    ensures
        union::rel_union(c, st, source, target, state) is Some,
        went_as_data(
            c,
            st,
            union::rel_union(c, st, source, target, state).unwrap(),
            fits_a_member(c.db, source, complex::union_tys(u), 0, relation::levels(c)),
            2 * union_steps(c.db, source, complex::union_tys(u), 0, relation::levels(c)),
            union_reason(c.db, source, target, complex::union_tys(u), relation::levels(c), st.chain),
        ),
    decreases relation::levels(c), 2nat, 0nat,
{
    let n = relation::levels(c);
    let members = complex::union_tys(u);
    reveal_with_fuel(union::rel_union, 2);
    assert(!(source is Any) && !(source is Unknown)) by {
        reveal(simple::simple_answer);
    }
    assert(predicates::ty_is_nullable(source) == source is Nil);
    if !(source is Nil) && union::single_non_nil(members) is Some {
        let j = lemma_single(c.db, source, members, n);
        assert(settled_within(c.db, source, members[j], n));
        lemma_steps_of_member(c.db, source, members, 0, j, n);
        lemma_compares_data(c, st, source, members[j], state);
    } else {
        reveal_with_fuel(union::rel_target_members, 2);
        lemma_tries_members(c, st, source, members, 0, state);
        let (tried, found, first) = union::rel_try_members(c, st, source, members, 0, None, state);
        if !found && c.explain {
            lemma_nearest(c, tried, source, members, 0, None, state);
            if let Some((k, keys)) = nearest_data(c.db, source, members, 0, None) {
                if keys.len() == 0 {
                    assert(settled_within(c.db, source, members[k as int], n));
                    assert(!data_fits(c.db, source, members[k as int], n));
                    lemma_steps_of_member(c.db, source, members, 0, k as int, n);
                    lemma_compares_data(c, tried, source, members[k as int], state);
                }
            }
        }
    }
}

proof fn lemma_plain_without_members(
    c: RelScope,
    st: RelState,
    source: Ty,
    target: Ty,
    state: IntersectionState,
)
    requires
        is_data(c.db, source),
        is_data(c.db, target),
        !(source is Union),
        !(target is Union),
        !(has_members(source) && has_members(target)),
        simple::simple_answer(source, target) is None,
    ensures
        relation::rel_plain(c, st, source, target, state) == if fits_without_members(c.db, source, target) {
            relation::rel_ok(st)
        } else {
            relation::rel_fail(c, st, relation::misfit(source, target))
        },
{
    assert(has_members(source) || has_members(target)) by {
        reveal(simple::simple_answer);
    }
    reveal_with_fuel(relation::rel_plain, 2);
    reveal_with_fuel(dispatch::rel_structured, 2);
    reveal_with_fuel(dispatch::rel_by_source, 2);
    reveal_with_fuel(dispatch::rel_by_target, 2);
    reveal_with_fuel(dispatch::rel_declared_source, 2);
    reveal_with_fuel(declared::rel_declared_target, 2);
    reveal_with_fuel(declared::rel_class_target, 2);
    reveal_with_fuel(dispatch::rel_to_structure, 2);
    reveal_with_fuel(dispatch::rel_to_object, 2);
    reveal_with_fuel(dispatch::rel_to_table, 2);
}

proof fn lemma_plain_members(
    c: RelScope,
    st: RelState,
    source: Ty,
    target: Ty,
    state: IntersectionState,
)
    requires
        is_data(c.db, source),
        is_data(c.db, target),
        has_members(source),
        has_members(target),
        simple::simple_answer(source, target) is None,
    ensures
        relation::rel_plain(c, st, source, target, state) == member::rel_members(c, st, source, target, state),
{
    assert(simple::decl_name(source) is Some && simple::decl_name(target) is Some ==> simple::decl_name(source)
        != simple::decl_name(target)) by {
        reveal(simple::simple_answer);
    }
    reveal_with_fuel(relation::rel_plain, 2);
    reveal_with_fuel(dispatch::rel_structured, 2);
    reveal_with_fuel(dispatch::rel_by_source, 2);
    reveal_with_fuel(dispatch::rel_by_target, 2);
    reveal_with_fuel(dispatch::rel_declared_source, 2);
    reveal_with_fuel(declared::rel_declared_target, 2);
    reveal_with_fuel(declared::rel_class_target, 2);
    reveal_with_fuel(declared::rel_class_class, 2);
    reveal_with_fuel(dispatch::rel_to_structure, 2);
    reveal_with_fuel(dispatch::rel_to_object, 2);
    reveal_with_fuel(dispatch::rel_to_table, 2);
}

proof fn lemma_compares_by_members(
    c: RelScope,
    st: RelState,
    source: Ty,
    target: Ty,
    state: IntersectionState,
)
    requires
        answers_on_data(c.db, st.answers),
        is_data(c.db, source),
        fields_settled_within(c.db, source, entries::member_entries(c.db, target), relation::levels(c)),
        forall|i: int|
            0 <= i < entries::member_entries(c.db, target).len() ==> field_is_below(
                c.db,
                c.active,
                source,
                #[trigger] entries::member_entries(c.db, target)[i],
            ),
        st.budget >= fields_steps(c.db, source, entries::member_entries(c.db, target), 0, relation::levels(c)),
    ensures
        went_as_data(
            c,
            st,
            member::rel_members(c, st, source, target, state),
            all_fields_fit(c.db, source, entries::member_entries(c.db, target), 0, relation::levels(c)),
            fields_steps(c.db, source, entries::member_entries(c.db, target), 0, relation::levels(c)),
            shape_reason(
                c.db,
                source,
                target,
                entries::member_entries(c.db, target),
                relation::levels(c),
                st.chain,
            ),
        ),
    decreases relation::levels(c), 2nat, 0nat,
{
    let n = relation::levels(c);
    let b = entries::member_entries(c.db, target);
    reveal_with_fuel(member::rel_members, 2);
    lemma_absent_keys(c.db, source, b);
    lemma_missing_of(c, st, source, target, state);
    if c.explain && absent_keys(c.db, source, b).len() > 0 {
        let i = choose|i: int| 0 <= i < b.len() && is_lacking(c.db, source, #[trigger] b[i]);
        assert(!field_fits(c.db, source, b[i], n));
    } else {
        lemma_compares_fields(c, st, source, target, b, 0, state);
    }
}

proof fn lemma_compares_fields(
    c: RelScope,
    st: RelState,
    source: Ty,
    target: Ty,
    b: Seq<(KeyTy, Ty)>,
    k: nat,
    state: IntersectionState,
)
    requires
        answers_on_data(c.db, st.answers),
        is_data(c.db, source),
        fields_settled_within(c.db, source, b, relation::levels(c)),
        forall|i: int|
            0 <= i < b.len() ==> field_is_below(c.db, c.active, source, #[trigger] b[i]),
        k <= b.len(),
        st.budget >= fields_steps(c.db, source, b, k, relation::levels(c)),
        c.explain ==> forall|i: int|
            0 <= i < b.len() ==> !is_lacking(c.db, source, #[trigger] b[i]),
    ensures
        went_as_data(
            c,
            st,
            member::rel_each_member(c, st, source, target, b, k, state),
            all_fields_fit(c.db, source, b, k, relation::levels(c)),
            fields_steps(c.db, source, b, k, relation::levels(c)),
            fields_reason(c.db, source, b, k, relation::levels(c), st.chain),
        ),
    decreases relation::levels(c), 1nat, b.len() - k,
{
    let n = relation::levels(c);
    reveal_with_fuel(member::rel_each_member, 2);
    if k < b.len() {
        let (key, t) = b[k as int];
        assert(field_settled_within(c.db, source, b[k as int], n));
        assert(field_is_below(c.db, c.active, source, b[k as int]));
        assert(c.explain ==> !is_lacking(c.db, source, b[k as int]));
        let spent = relation::rel_spend(st);
        lemma_member_found(c, spent.st, source, key, state);
        reveal_with_fuel(member::rel_member, 2);
        let r = member::rel_member(c, st, source, target, key, t, state);
        if let Some(s) = entries::direct_member(c.db, source, key) {
            lemma_compares_data(c, spent.st, s, t, state);
        }
        if field_fits(c.db, source, b[k as int], n) {
            lemma_compares_fields(c, r.st, source, target, b, k + 1, state);
            assert(all_fields_fit(c.db, source, b, k, n) == all_fields_fit(
                c.db,
                source,
                b,
                k + 1,
                n,
            ));
        } else {
            assert(!all_fields_fit(c.db, source, b, k, n));
        }
    }
}

// ----------------------------------------------------------------------------
// What holds of comparisons of data.

/// Data is compared by its shape alone, and the reason against it is found in its shape alone,
/// whatever right answers on data are kept. Right answers are all that is kept of it. The comparison
/// comes to an end by itself, and does not go too deep or take too many steps to be decided.
pub proof fn data_is_compared_by_shape(
    db: DbTy,
    answers: Seq<(Ty, Ty, IntersectionState, bool)>,
    source: Ty,
    target: Ty,
    explain: bool,
)
    requires
        answers_on_data(db, answers),
        settled_within(db, source, target, data_levels()),
        data_steps(db, source, target, data_levels()) <= assignable::full_budget(),
    ensures
        ({
            let r = assignable::compared(db, answers, source, target, explain);
            let fit = data_fits(db, source, target, data_levels());
            &&& r.res == if fit {
                Ok::<(), RelationFailure>(())
            } else {
                Err(RelationFailure::Unrelated)
            }
            &&& r.st.chain == if explain && !fit {
                data_reason(db, source, target, data_levels(), Seq::empty())
            } else {
                Seq::empty()
            }
            &&& answers_on_data(db, r.st.answers)
        }),
{
    lemma_compares_data(
        assignable::root_scope(db, explain),
        assignable::fresh_state(answers),
        source,
        target,
        IntersectionState::Plain,
    );
}

/// A refusal is explained the same way however often it is asked for, and whether or not it was asked
/// without a reason before.
pub proof fn refusal_of_data_repeats(
    db: DbTy,
    answers: Seq<(Ty, Ty, IntersectionState, bool)>,
    source: Ty,
    target: Ty,
    explain_first: bool,
)
    requires
        answers_on_data(db, answers),
        settled_within(db, source, target, data_levels()),
        data_steps(db, source, target, data_levels()) <= assignable::full_budget(),
    ensures
        ({
            let first = assignable::compared(db, answers, source, target, explain_first);
            let again = assignable::compared(db, first.st.answers, source, target, true);
            let fresh = assignable::compared(db, assignable::nothing_kept(), source, target, true);
            again.res == fresh.res && again.st.chain == fresh.st.chain
        }),
{
    data_is_compared_by_shape(db, answers, source, target, explain_first);
    let first = assignable::compared(db, answers, source, target, explain_first);
    data_is_compared_by_shape(db, first.st.answers, source, target, true);
    data_is_compared_by_shape(db, assignable::nothing_kept(), source, target, true);
}

} // verus!
