//! All the members of a type.

use vstd::prelude::*;

use std::sync::Arc;

use crate::{db, types};
use crate::db::{
    DbIndex, DbTy, DeclTy, ItemTy, LuaMemberOwner, OwnerTy, TypeOps, get_buildin_type_map_type_id,
};
use crate::generic::substitutor;
use crate::generic::substitutor::{TypeSubstitutor, instantiate_type_generic, instantiate_types};
use crate::types::{
    BasicTypeKind, FileId, GenericTplId, GenericTy, KeyTy, LuaArrayType, LuaGenericType,
    LuaInstanceType, LuaIntersectionType, LuaMemberKey, LuaMultiLineUnion, LuaObjectType, LuaType,
    LuaTypeDeclId, LuaUnionType, Ty, UnionTy, VariadicTy, VariadicType, basic, complex, equality,
};
use crate::types::complex::clone_types;
use crate::types::equality::holds_same;

verus! {

/// Where the type of a member comes from.
#[derive(Debug)]
pub enum MemberOrigin {
    /// The declarations of a member.
    Indexed(Vec<LuaType>),
    /// A global variable.
    Decl(Option<LuaType>),
    Type(LuaType),
    /// The members of that key of all branches of a union.
    Union(Vec<MemberSymbol>),
    /// The members of that key of the parts of an intersection.
    Intersection(Vec<MemberSymbol>),
}

/// A member, with the types to be put in the place of templates when its type is asked for.
#[derive(Debug)]
pub struct MemberSymbol {
    pub origin: MemberOrigin,
    pub substitutor: Option<TypeSubstitutor>,
}

pub enum OriginTy {
    Indexed(Seq<Ty>),
    Decl(Option<Ty>),
    Type(Ty),
    Union(Seq<SymbolTy>),
    Intersection(Seq<SymbolTy>),
}

pub struct SymbolTy {
    pub origin: OriginTy,
    pub substitutor: Option<Seq<(GenericTplId, Ty)>>,
}

pub open spec fn opt_subst(s: Option<TypeSubstitutor>) -> Option<Seq<(GenericTplId, Ty)>> {
    match s {
        Some(s) => Some(s@),
        None => None,
    }
}

pub open spec fn symbol_ty(s: MemberSymbol) -> SymbolTy
    decreases s,
{
    SymbolTy {
        origin: match s.origin {
            MemberOrigin::Indexed(types) => OriginTy::Indexed(types::tys(types@)),
            MemberOrigin::Decl(t) => OriginTy::Decl(types::opt_ty(t)),
            MemberOrigin::Type(t) => OriginTy::Type(t@),
            MemberOrigin::Union(members) => OriginTy::Union(symbol_tys(members@)),
            MemberOrigin::Intersection(members) => OriginTy::Intersection(symbol_tys(members@)),
        },
        substitutor: opt_subst(s.substitutor),
    }
}

pub open spec fn symbol_tys(s: Seq<MemberSymbol>) -> Seq<SymbolTy>
    decreases s,
{
    Seq::new(
        s.len(),
        |i: int|
            if 0 <= i < s.len() {
                symbol_ty(s[i])
            } else {
                arbitrary()
            },
    )
}

impl View for MemberSymbol {
    type V = SymbolTy;

    open spec fn view(&self) -> SymbolTy {
        symbol_ty(*self)
    }
}

/// The type as it is where nothing is bound, and with the bound types put in otherwise.
pub open spec fn maybe_subst(db: DbTy, t: Ty, m: Option<Seq<(GenericTplId, Ty)>>) -> Ty {
    match m {
        Some(m) => db::evaluated(db, t, m),
        None => t,
    }
}

/// The type of a member.
pub open spec fn symbol_type(db: DbTy, s: SymbolTy) -> Ty
    decreases s,
{
    let t = match s.origin {
        OriginTy::Indexed(types) => match db::item_type(ItemTy { key: KeyTy::NoKey, types }) {
            Some(t) => t,
            None => Ty::Unknown,
        },
        OriginTy::Decl(t) => match t {
            Some(t) => t,
            None => Ty::Unknown,
        },
        OriginTy::Type(t) => t,
        OriginTy::Union(members) => db::union_all_ty(symbol_types(db, members)),
        OriginTy::Intersection(members) => if members.len() == 0 {
            Ty::Unknown
        } else {
            intersect_all(symbol_types(db, members))
        },
    };
    maybe_subst(db, t, s.substitutor)
}

pub open spec fn symbol_types(db: DbTy, s: Seq<SymbolTy>) -> Seq<Ty>
    decreases s,
{
    Seq::new(
        s.len(),
        |i: int|
            if 0 <= i < s.len() {
                symbol_type(db, s[i])
            } else {
                Ty::Unknown
            },
    )
}

/// What all types of a list have in common, taken from the left.
pub open spec fn intersect_all(types: Seq<Ty>) -> Ty
    decreases types.len(),
{
    if types.len() == 0 {
        Ty::Unknown
    } else if types.len() == 1 {
        types[0]
    } else {
        db::intersect_ty(intersect_all(types.drop_last()), types.last())
    }
}

pub fn instantiate(db: &DbIndex, t: &LuaType, s: &Option<TypeSubstitutor>) -> (r: LuaType)
    ensures
        r@ == maybe_subst(db@, t@, opt_subst(*s)),
    decreases db@.room, 2nat,
{
    match s {
        Some(s) => instantiate_type_generic(db, t, s),
        None => t.clone(),
    }
}

pub fn clone_substitutor(s: &Option<TypeSubstitutor>) -> (r: Option<TypeSubstitutor>)
    ensures
        opt_subst(r) == opt_subst(*s),
{
    match s {
        Some(s) => Some(s.clone()),
        None => None,
    }
}

impl MemberSymbol {
    pub fn new(origin: MemberOrigin, substitutor: Option<TypeSubstitutor>) -> (r: Self)
        ensures
            r == (MemberSymbol { origin, substitutor }),
    {
        MemberSymbol { origin, substitutor }
    }

    /// The type of the member.
    pub fn typ(&self, db: &DbIndex) -> (r: LuaType)
        ensures
            r@ == symbol_type(db@, self@),
        decreases db@.room, 3nat, self,
    {
        let t = match &self.origin {
            MemberOrigin::Indexed(types) => {
                if types.len() == 0 {
                    LuaType::Unknown
                } else if types.len() == 1 {
                    assert(types::tys(types@)[0] == types@[0]@);
                    types[0].clone()
                } else {
                    TypeOps::union_all(types)
                }
            },
            MemberOrigin::Decl(t) => match t {
                Some(t) => t.clone(),
                None => LuaType::Unknown,
            },
            MemberOrigin::Type(t) => t.clone(),
            MemberOrigin::Union(members) => {
                assert(self@.origin == OriginTy::Union(symbol_tys(members@)));
                let types = types_of_symbols(db, members);
                TypeOps::union_all(&types)
            },
            MemberOrigin::Intersection(members) => {
                assert(self@.origin == OriginTy::Intersection(symbol_tys(members@)));
                let types = types_of_symbols(db, members);
                intersect_types(&types)
            },
        };
        instantiate(db, &t, &self.substitutor)
    }
}

fn intersect_types(types: &Vec<LuaType>) -> (r: LuaType)
    ensures
        r@ == intersect_all(types::tys(types@)),
{
    let ghost all = types::tys(types@);
    if types.len() == 0 {
        return LuaType::Unknown;
    }
    let mut result = types[0].clone();
    let mut i: usize = 1;
    assert(all.take(1)[0] == types@[0]@);
    while i < types.len()
        invariant
            1 <= i <= types@.len(),
            all == types::tys(types@),
            result@ == intersect_all(all.take(i as int)),
        decreases types@.len() - i,
    {
        proof {
            assert(all.take(i + 1).drop_last() =~= all.take(i as int));
            assert(all.take(i + 1).last() == all[i as int]);
            assert(all[i as int] == types@[i as int]@);
        }
        result = TypeOps::intersect(&result, &types[i]);
        i += 1;
    }
    assert(all.take(i as int) =~= all);
    result
}

fn types_of_symbols(db: &DbIndex, members: &Vec<MemberSymbol>) -> (r: Vec<LuaType>)
    ensures
        types::tys(r@) == symbol_types(db@, symbol_tys(members@)),
    decreases db@.room, 3nat, members,
{
    let mut types: Vec<LuaType> = Vec::new();
    let mut i: usize = 0;
    while i < members.len()
        invariant
            i <= members@.len(),
            types@.len() == i,
            forall|j: int|
                0 <= j < i ==> (#[trigger] types@[j])@ == symbol_types(db@, symbol_tys(members@))[j],
        decreases members@.len() - i,
    {
        assert(symbol_tys(members@)[i as int] == members@[i as int]@);
        types.push(members[i].typ(db));
        i += 1;
    }
    assert(types::tys(types@) =~= symbol_types(db@, symbol_tys(members@)));
    types
}

// ----------------------------------------------------------------------------
// Lists of members, each key once.

pub open spec fn member_tys(s: Seq<(LuaMemberKey, MemberSymbol)>) -> Seq<(KeyTy, SymbolTy)> {
    Seq::new(s.len(), |i: int| (s[i].0@, s[i].1@))
}

/// The member under a key.
pub open spec fn find_member(members: Seq<(KeyTy, SymbolTy)>, key: KeyTy) -> Option<SymbolTy>
    decreases members.len(),
{
    if members.len() == 0 {
        None
    } else if equality::key_eq(members[0].0, key) {
        Some(members[0].1)
    } else {
        find_member(members.skip(1), key)
    }
}

/// The members with one more, where its key is new.
pub open spec fn put_member(
    members: Seq<(KeyTy, SymbolTy)>,
    key: KeyTy,
    symbol: SymbolTy,
) -> Seq<(KeyTy, SymbolTy)> {
    if find_member(members, key) is Some {
        members
    } else {
        members.push((key, symbol))
    }
}

/// The members with those of `more` whose keys are new.
pub open spec fn merged_members(
    members: Seq<(KeyTy, SymbolTy)>,
    more: Seq<(KeyTy, SymbolTy)>,
) -> Seq<(KeyTy, SymbolTy)>
    decreases more.len(),
{
    if more.len() == 0 {
        members
    } else {
        put_member(merged_members(members, more.drop_last()), more.last().0, more.last().1)
    }
}

/// The key with the bound types put in.
pub open spec fn subst_key(db: DbTy, key: KeyTy, m: Option<Seq<(GenericTplId, Ty)>>) -> KeyTy {
    match key {
        KeyTy::TypeKey(t) => KeyTy::TypeKey(Box::new(maybe_subst(db, *t, m))),
        _ => key,
    }
}

/// The members with one more under its instantiated key, where that key is new.
pub open spec fn add_member(
    db: DbTy,
    members: Seq<(KeyTy, SymbolTy)>,
    key: KeyTy,
    origin: OriginTy,
    m: Option<Seq<(GenericTplId, Ty)>>,
) -> Seq<(KeyTy, SymbolTy)> {
    put_member(members, subst_key(db, key, m), SymbolTy { origin, substitutor: m })
}

/// The members that the fields of an object give.
pub open spec fn field_members(
    db: DbTy,
    fields: Seq<(KeyTy, Ty)>,
    m: Option<Seq<(GenericTplId, Ty)>>,
) -> Seq<(KeyTy, SymbolTy)>
    decreases fields.len(),
{
    if fields.len() == 0 {
        Seq::empty()
    } else {
        add_member(
            db,
            field_members(db, fields.drop_last(), m),
            fields.last().0,
            OriginTy::Type(fields.last().1),
            m,
        )
    }
}

/// The members that index entries add.
pub open spec fn index_members(
    db: DbTy,
    start: Seq<(KeyTy, SymbolTy)>,
    entries: Seq<(Ty, Ty)>,
    m: Option<Seq<(GenericTplId, Ty)>>,
) -> Seq<(KeyTy, SymbolTy)>
    decreases entries.len(),
{
    if entries.len() == 0 {
        start
    } else {
        add_member(
            db,
            index_members(db, start, entries.drop_last(), m),
            KeyTy::TypeKey(Box::new(entries.last().0)),
            OriginTy::Type(entries.last().1),
            m,
        )
    }
}

/// The members that the declarations of an owner give.
pub open spec fn item_members(
    db: DbTy,
    items: Seq<ItemTy>,
    m: Option<Seq<(GenericTplId, Ty)>>,
) -> Seq<(KeyTy, SymbolTy)>
    decreases items.len(),
{
    if items.len() == 0 {
        Seq::empty()
    } else {
        add_member(
            db,
            item_members(db, items.drop_last(), m),
            items.last().key,
            OriginTy::Indexed(items.last().types),
            m,
        )
    }
}

pub open spec fn global_members(
    db: DbTy,
    globals: Seq<(Seq<char>, Option<Ty>)>,
    m: Option<Seq<(GenericTplId, Ty)>>,
) -> Seq<(KeyTy, SymbolTy)>
    decreases globals.len(),
{
    if globals.len() == 0 {
        Seq::empty()
    } else {
        add_member(
            db,
            global_members(db, globals.drop_last(), m),
            KeyTy::Name(globals.last().0),
            OriginTy::Decl(globals.last().1),
            m,
        )
    }
}

pub open spec fn namespace_members(
    db: DbTy,
    children: Seq<(Seq<char>, Ty)>,
    m: Option<Seq<(GenericTplId, Ty)>>,
) -> Seq<(KeyTy, SymbolTy)>
    decreases children.len(),
{
    if children.len() == 0 {
        Seq::empty()
    } else {
        add_member(
            db,
            namespace_members(db, children.drop_last(), m),
            KeyTy::Name(children.last().0),
            OriginTy::Type(children.last().1),
            m,
        )
    }
}

/// The key of the element at place `i` of a tuple.
pub open spec fn element_key(i: int) -> KeyTy {
    KeyTy::Integer((i + 1) as i64)
}

/// The members that the elements of a tuple add from place `i` on. A run of values under a
/// substitution ends them; where it stands for a bound template it gives one last member.
pub open spec fn tuple_members(
    db: DbTy,
    start: Seq<(KeyTy, SymbolTy)>,
    types: Seq<Ty>,
    i: nat,
    m: Option<Seq<(GenericTplId, Ty)>>,
) -> Seq<(KeyTy, SymbolTy)>
    decreases types.len() - i,
{
    if i >= types.len() {
        start
    } else {
        match (types[i as int], m) {
            (Ty::Variadic(v), Some(bound)) => match *v {
                VariadicTy::Base(Ty::TplRef(tpl)) => {
                    let t = match db::first_value(bound, tpl.tpl_id) {
                        Some(t) => t,
                        None => types[i as int],
                    };
                    add_member(db, start, element_key(i as int), OriginTy::Type(t), None)
                },
                _ => start,
            },
            _ => tuple_members(
                db,
                add_member(db, start, element_key(i as int), OriginTy::Type(types[i as int]), m),
                types,
                i + 1,
                m,
            ),
        }
    }
}

/// Members gathered by key.
pub open spec fn find_group(groups: Seq<(KeyTy, Seq<SymbolTy>)>, key: KeyTy) -> Option<int>
    decreases groups.len(),
{
    if groups.len() == 0 {
        None
    } else if equality::key_eq(groups[0].0, key) {
        Some(0int)
    } else {
        match find_group(groups.skip(1), key) {
            Some(i) => Some(i + 1),
            None => None,
        }
    }
}

pub open spec fn put_group(
    groups: Seq<(KeyTy, Seq<SymbolTy>)>,
    key: KeyTy,
    symbol: SymbolTy,
) -> Seq<(KeyTy, Seq<SymbolTy>)> {
    match find_group(groups, key) {
        Some(i) => groups.update(i, (groups[i].0, groups[i].1.push(symbol))),
        None => groups.push((key, seq![symbol])),
    }
}

/// The groups with every member of a list in the group of its key.
pub open spec fn grouped(
    groups: Seq<(KeyTy, Seq<SymbolTy>)>,
    members: Seq<(KeyTy, SymbolTy)>,
) -> Seq<(KeyTy, Seq<SymbolTy>)>
    decreases members.len(),
{
    if members.len() == 0 {
        groups
    } else {
        put_group(grouped(groups, members.drop_last()), members.last().0, members.last().1)
    }
}

/// The groups whose keys are among `members` too, each with the member added.
pub open spec fn retained(
    groups: Seq<(KeyTy, Seq<SymbolTy>)>,
    members: Seq<(KeyTy, SymbolTy)>,
) -> Seq<(KeyTy, Seq<SymbolTy>)>
    decreases groups.len(),
{
    if groups.len() == 0 {
        Seq::empty()
    } else {
        let front = retained(groups.drop_last(), members);
        match find_member(members, groups.last().0) {
            Some(symbol) => front.push((groups.last().0, groups.last().1.push(symbol))),
            None => front,
        }
    }
}

/// The groups with those of one more branch of a union: the first branch gives the groups, each
/// later one keeps those that it has too.
pub open spec fn joined(
    groups: Option<Seq<(KeyTy, Seq<SymbolTy>)>>,
    members: Seq<(KeyTy, SymbolTy)>,
) -> Seq<(KeyTy, Seq<SymbolTy>)> {
    match groups {
        Some(groups) => retained(groups, members),
        None => Seq::new(members.len(), |i: int| (members[i].0, seq![members[i].1])),
    }
}

pub open spec fn union_symbols(groups: Seq<(KeyTy, Seq<SymbolTy>)>) -> Seq<(KeyTy, SymbolTy)> {
    Seq::new(
        groups.len(),
        |i: int|
            (groups[i].0, SymbolTy { origin: OriginTy::Union(groups[i].1), substitutor: None }),
    )
}

pub open spec fn intersection_symbols(groups: Seq<(KeyTy, Seq<SymbolTy>)>) -> Seq<
    (KeyTy, SymbolTy),
> {
    Seq::new(
        groups.len(),
        |i: int|
            (
                groups[i].0,
                SymbolTy { origin: OriginTy::Intersection(groups[i].1), substitutor: None },
            ),
    )
}

// ----------------------------------------------------------------------------
// How deep unions, intersections and instances lie in each other.

pub open spec fn nest_size(t: Ty) -> nat
    decreases t,
{
    match t {
        Ty::Union(u) => match *u {
            UnionTy::Basic(kinds) => 1 + kinds.len(),
            UnionTy::Nullable(x) => 2 + nest_size(x),
            UnionTy::Multi(types) => 1 + nest_sum(types),
        },
        Ty::MultiLineUnion(lines) => 1 + nest_sum_lines(lines),
        Ty::Intersection(types) => 1 + nest_sum(types),
        Ty::Instance(x) => 1 + nest_size(x.base),
        _ => 1,
    }
}

pub open spec fn nest_sum(types: Seq<Ty>) -> nat
    decreases types,
{
    if types.len() == 0 {
        0
    } else {
        nest_sum(types.drop_last()) + nest_size(types.last())
    }
}

pub open spec fn nest_sum_lines(lines: Seq<(Ty, Option<Seq<char>>)>) -> nat
    decreases lines,
{
    if lines.len() == 0 {
        0
    } else {
        nest_sum_lines(lines.drop_last()) + nest_size(lines.last().0)
    }
}

pub proof fn lemma_nest_positive(t: Ty)
    ensures
        nest_size(t) >= 1,
{
}

proof fn lemma_nest_lines(lines: Seq<(Ty, Option<Seq<char>>)>)
    ensures
        nest_sum(complex::line_types(lines)) == nest_sum_lines(lines),
    decreases lines.len(),
{
    if lines.len() > 0 {
        lemma_nest_lines(lines.drop_last());
        assert(complex::line_types(lines).drop_last() =~= complex::line_types(lines.drop_last()));
    }
}

proof fn lemma_with_kind_len(kinds: Seq<BasicTypeKind>, kind: BasicTypeKind)
    ensures
        basic::with_kind(kinds, kind).len() <= kinds.len() + 1,
    decreases kinds.len(),
{
    if kinds.len() > 0 {
        lemma_with_kind_len(kinds.drop_last(), kind);
    }
}

proof fn lemma_kinds_len(types: Seq<Ty>)
    ensures
        complex::kinds_of(types).len() <= types.len(),
    decreases types.len(),
{
    if types.len() > 0 {
        lemma_kinds_len(types.drop_last());
        lemma_with_kind_len(
            complex::kinds_of(types.drop_last()),
            complex::ty_kind(types.last()).unwrap(),
        );
    }
}

proof fn lemma_nest_sum_basic(types: Seq<Ty>)
    requires
        forall|i: int| 0 <= i < types.len() ==> nest_size(#[trigger] types[i]) == 1,
    ensures
        nest_sum(types) == types.len(),
    decreases types.len(),
{
    if types.len() > 0 {
        lemma_nest_sum_basic(types.drop_last());
    }
}

proof fn lemma_nest_sum_len(types: Seq<Ty>)
    ensures
        nest_sum(types) >= types.len(),
    decreases types.len(),
{
    if types.len() > 0 {
        lemma_nest_sum_len(types.drop_last());
        lemma_nest_positive(types.last());
    }
}

/// The members that a union lists are smaller than the union.
pub proof fn lemma_nest_union(u: UnionTy)
    ensures
        nest_sum(complex::union_tys(u)) < nest_size(Ty::Union(Box::new(u))),
{
    match u {
        UnionTy::Basic(kinds) => {
            assert forall|i: int| 0 <= i < kinds.len() implies nest_size(
                #[trigger] complex::union_tys(u)[i],
            ) == 1 by {
                assert(complex::union_tys(u)[i] == types::kind_ty(kinds[i]));
            }
            lemma_nest_sum_basic(complex::union_tys(u));
        },
        UnionTy::Nullable(x) => {
            let types = complex::union_tys(u);
            assert(types.drop_last() =~= seq![x]);
            assert(seq![x].drop_last() =~= Seq::<Ty>::empty());
            reveal_with_fuel(nest_sum, 3);
        },
        UnionTy::Multi(_) => {},
    }
}

/// So are those that a union over several lines stands for.
pub proof fn lemma_nest_line_union(lines: Seq<(Ty, Option<Seq<char>>)>)
    ensures
        nest_sum(complex::union_tys(complex::union_of(complex::line_types(lines)))) < nest_size(Ty::MultiLineUnion(lines)),
{
    let types = complex::line_types(lines);
    lemma_nest_lines(lines);
    match complex::union_of(types) {
        UnionTy::Basic(kinds) => {
            assert forall|i: int| 0 <= i < kinds.len() implies nest_size(
                #[trigger] complex::union_tys(complex::union_of(types))[i],
            ) == 1 by {
                assert(complex::union_tys(complex::union_of(types))[i] == types::kind_ty(kinds[i]));
            }
            lemma_nest_sum_basic(complex::union_tys(complex::union_of(types)));
            lemma_kinds_len(types);
            lemma_nest_sum_len(types);
        },
        UnionTy::Nullable(x) => {
            let listed = complex::union_tys(complex::union_of(types));
            assert(listed.drop_last() =~= seq![x]);
            assert(seq![x].drop_last() =~= Seq::<Ty>::empty());
            assert(types.drop_last() =~= seq![types[0]]);
            assert(seq![types[0]].drop_last() =~= Seq::<Ty>::empty());
            reveal_with_fuel(nest_sum, 3);
        },
        UnionTy::Multi(_) => {},
    }
}

// ----------------------------------------------------------------------------
// The members of a type.

/// How many declared types may be entered on the way to a member.
pub open spec fn declared_limit() -> nat {
    128
}

/// The type under which the entry into a declared type is remembered: an alias together with its
/// arguments, anything else by its name alone.
pub open spec fn visiting_ty(id: Seq<char>, decl: DeclTy, args: Option<Seq<Ty>>) -> Ty {
    match args {
        Some(args) => if decl.kind is Alias {
            Ty::Generic(Box::new(GenericTy { base: id, params: args }))
        } else {
            Ty::Ref(id)
        },
        None => Ty::Ref(id),
    }
}

pub open spec fn opt_flag(m: Option<Seq<(GenericTplId, Ty)>>) -> nat {
    if m is Some {
        1
    } else {
        0
    }
}

pub open spec fn room(seen: Seq<Ty>) -> nat {
    if seen.len() >= declared_limit() {
        0
    } else {
        (declared_limit() - seen.len()) as nat
    }
}

/// The members of a type; none at all where the type has no values. `seen` are the declared types
/// being entered, `modules` is the number of module references that may still be followed.
pub open spec fn collected(
    db: DbTy,
    seen: Seq<Ty>,
    modules: nat,
    t: Ty,
    m: Option<Seq<(GenericTplId, Ty)>>,
) -> Option<Seq<(KeyTy, SymbolTy)>>
    decreases room(seen), modules, opt_flag(m), nest_size(t), 1nat,
{
    match t {
        Ty::Never => None,
        Ty::Ref(id) => collected_declared(db, seen, modules, id, None, None),
        Ty::Def(id) => collected_declared(db, seen, modules, id, None, None),
        Ty::Generic(g) => collected_declared(db, seen, modules, g.base, Some(g.params), m),
        Ty::Object(o) => Some(index_members(db, field_members(db, o.fields, m), o.index_access, m)),
        Ty::Tuple(x) => Some(tuple_members(db, Seq::empty(), x.types, 0, m)),
        Ty::TableGeneric(params) => if params.len() == 2 {
            Some(
                add_member(
                    db,
                    Seq::empty(),
                    KeyTy::TypeKey(Box::new(params[0])),
                    OriginTy::Type(params[1]),
                    m,
                ),
            )
        } else {
            Some(Seq::empty())
        },
        Ty::Array(a) => Some(
            add_member(
                db,
                Seq::empty(),
                KeyTy::TypeKey(Box::new(Ty::Integer)),
                OriginTy::Type(a.base),
                m,
            ),
        ),
        Ty::TableConst(range) => Some(item_members(db, db::items_of(db, OwnerTy::Element(range)), m)),
        Ty::Union(u) => {
            proof {
                lemma_nest_union(*u);
            }
            match collected_branches(db, seen, modules, complex::union_tys(*u), m) {
                Some(groups) => Some(union_symbols(groups)),
                None => None,
            }
        },
        Ty::Intersection(types) => match collected_parts(db, seen, modules, types, m) {
            Some(groups) => Some(intersection_symbols(groups)),
            None => None,
        },
        Ty::MultiLineUnion(lines) => {
            proof {
                lemma_nest_line_union(lines);
            }
            match collected_branches(db, seen, modules, complex::union_tys(complex::union_of(complex::line_types(lines))), m) {
                Some(groups) => Some(union_symbols(groups)),
                None => None,
            }
        },
        Ty::ModuleRef(file) => match db::export_of(db, file) {
            Some(export) => if modules > 0 {
                collected(db, seen, (modules - 1) as nat, export, None)
            } else {
                Some(Seq::empty())
            },
            None => Some(Seq::empty()),
        },
        Ty::Instance(x) => Some(
            merged_members(
                item_members(db, db::items_of(db, OwnerTy::Element(x.range)), m),
                match collected(db, seen, modules, x.base, m) {
                    Some(members) => members,
                    None => Seq::empty(),
                },
            ),
        ),
        Ty::Global => Some(global_members(db, db.globals, m)),
        Ty::Namespace(name) => Some(namespace_members(db, db::namespace_of(db, name), m)),
        Ty::TplRef(_) | Ty::Call(_) | Ty::Conditional(_) | Ty::Mapped(_) => if m is Some
            && !equality::ty_eq(maybe_subst(db, t, m), t) {
            collected(db, seen, modules, maybe_subst(db, t, m), None)
        } else {
            Some(Seq::empty())
        },
        _ => match db::member_type_name(t) {
            Some(id) => collected_declared(db, seen, modules, id, None, None),
            None => Some(Seq::empty()),
        },
    }
}

/// The members of a declared type.
pub open spec fn collected_declared(
    db: DbTy,
    seen: Seq<Ty>,
    modules: nat,
    id: Seq<char>,
    params: Option<Seq<Ty>>,
    context: Option<Seq<(GenericTplId, Ty)>>,
) -> Option<Seq<(KeyTy, SymbolTy)>>
    decreases room(seen), modules, opt_flag(context), 0nat, 0nat,
{
    match db::decl_of(db, id) {
        None => Some(Seq::empty()),
        Some(decl) => {
            let args = match params {
                Some(params) => Some(
                    match context {
                        Some(context) => db::evaluated_all(db, params, context),
                        None => params,
                    },
                ),
                None => None,
            };
            let entered = visiting_ty(id, decl, args);
            if seen.len() >= declared_limit() || equality::holds_ty(seen, entered) {
                Some(Seq::empty())
            } else {
                let m = match args {
                    Some(args) => Some(substitutor::args_subst(args)),
                    None => None,
                };
                if decl.kind is Alias {
                    match decl.alias_ref {
                        Some(origin) => collected(db, seen.push(entered), modules, origin, m),
                        None => Some(Seq::empty()),
                    }
                } else {
                    let own = item_members(db, db::items_of(db, OwnerTy::Type(id)), m);
                    if decl.kind is Class {
                        Some(
                            collected_supers(
                                db,
                                seen.push(entered),
                                modules,
                                own,
                                decl.super_types,
                                m,
                            ),
                        )
                    } else {
                        Some(own)
                    }
                }
            }
        },
    }
}

/// The members with those that the super types add.
pub open spec fn collected_supers(
    db: DbTy,
    seen: Seq<Ty>,
    modules: nat,
    own: Seq<(KeyTy, SymbolTy)>,
    supers: Seq<Ty>,
    m: Option<Seq<(GenericTplId, Ty)>>,
) -> Seq<(KeyTy, SymbolTy)>
    decreases room(seen), modules, opt_flag(m), nest_sum(supers), 2nat,
{
    if supers.len() == 0 {
        own
    } else {
        proof {
            lemma_nest_positive(supers.last());
        }
        merged_members(
            collected_supers(db, seen, modules, own, supers.drop_last(), m),
            match collected(db, seen, modules, supers.last(), m) {
                Some(members) => members,
                None => Seq::empty(),
            },
        )
    }
}

/// The members that all branches of a union have, by key.
pub open spec fn collected_branches(
    db: DbTy,
    seen: Seq<Ty>,
    modules: nat,
    types: Seq<Ty>,
    m: Option<Seq<(GenericTplId, Ty)>>,
) -> Option<Seq<(KeyTy, Seq<SymbolTy>)>>
    decreases room(seen), modules, opt_flag(m), nest_sum(types), 2nat,
{
    if types.len() == 0 {
        None
    } else {
        proof {
            lemma_nest_positive(types.last());
        }
        let front = collected_branches(db, seen, modules, types.drop_last(), m);
        match collected(db, seen, modules, types.last(), m) {
            Some(members) => Some(joined(front, members)),
            None => front,
        }
    }
}

/// The members that the parts of an intersection have together, by key.
pub open spec fn collected_parts(
    db: DbTy,
    seen: Seq<Ty>,
    modules: nat,
    types: Seq<Ty>,
    m: Option<Seq<(GenericTplId, Ty)>>,
) -> Option<Seq<(KeyTy, Seq<SymbolTy>)>>
    decreases room(seen), modules, opt_flag(m), nest_sum(types), 2nat,
{
    if types.len() == 0 {
        Some(Seq::empty())
    } else {
        proof {
            lemma_nest_positive(types.last());
        }
        match (
            collected_parts(db, seen, modules, types.drop_last(), m),
            collected(db, seen, modules, types.last(), m),
        ) {
            (Some(groups), Some(members)) => Some(grouped(groups, members)),
            _ => None,
        }
    }
}

/// The members that values of a type have, where the type may have any.
pub open spec fn possible_members(db: DbTy, t: Ty) -> Option<Seq<(KeyTy, SymbolTy)>> {
    collected(db, Seq::empty(), db.modules.len(), t, None)
}

/// The members that values of a type have.
pub open spec fn members_of_type(db: DbTy, t: Ty) -> Seq<(KeyTy, SymbolTy)> {
    match possible_members(db, t) {
        Some(members) => members,
        None => Seq::empty(),
    }
}

// ----------------------------------------------------------------------------
// The code.

/// A list of members, each key once.
pub type TypeMembers = Vec<(LuaMemberKey, MemberSymbol)>;

pub fn member_index(members: &TypeMembers, key: &LuaMemberKey) -> (r: usize)
    ensures
        r <= members@.len(),
        find_member(member_tys(members@), key@) == (if r < members@.len() {
            Some(members@[r as int].1@)
        } else {
            None
        }),
{
    let ghost all = member_tys(members@);
    let mut i: usize = 0;
    assert(all.skip(0) =~= all);
    while i < members.len()
        invariant
            i <= members@.len(),
            all == member_tys(members@),
            find_member(all, key@) == find_member(all.skip(i as int), key@),
        decreases members@.len() - i,
    {
        proof {
            assert(all.skip(i as int)[0] == all[i as int]);
            assert(all.skip(i as int).skip(1) =~= all.skip(i + 1));
        }
        if members[i].0.same(key) {
            return i;
        }
        i += 1;
    }
    i
}

fn put(members: &mut TypeMembers, key: LuaMemberKey, symbol: MemberSymbol)
    ensures
        member_tys(final(members)@) == put_member(member_tys(old(members)@), key@, symbol@),
{
    let i = member_index(members, &key);
    if i >= members.len() {
        let ghost before = member_tys(members@);
        let ghost added = (key@, symbol@);
        members.push((key, symbol));
        assert(member_tys(members@) =~= before.push(added));
    }
}

/// Adds the members of `inherited` whose keys are new.
pub fn merge_members(members: &mut TypeMembers, inherited: TypeMembers)
    ensures
        member_tys(final(members)@) == merged_members(
            member_tys(old(members)@),
            member_tys(inherited@),
        ),
{
    let ghost start = member_tys(members@);
    let ghost all = member_tys(inherited@);
    let mut rest = inherited;
    let mut reversed: TypeMembers = Vec::new();
    while rest.len() > 0
        invariant
            rest@.len() + reversed@.len() == all.len(),
            forall|j: int| 0 <= j < rest@.len() ==> (#[trigger] rest@[j]).0@ == all[j].0 && rest@[j].1@ == all[j].1,
            forall|j: int|
                0 <= j < reversed@.len() ==> (#[trigger] reversed@[j]).0@ == all[all.len() - 1 - j].0
                    && reversed@[j].1@ == all[all.len() - 1 - j].1,
        decreases rest@.len(),
    {
        if let Some(member) = rest.pop() {
            reversed.push(member);
        }
    }
    let ghost mut done: int = 0;
    assert(all.take(0) =~= Seq::<(KeyTy, SymbolTy)>::empty());
    while reversed.len() > 0
        invariant
            0 <= done <= all.len(),
            reversed@.len() == all.len() - done,
            forall|j: int|
                0 <= j < reversed@.len() ==> (#[trigger] reversed@[j]).0@ == all[all.len() - 1 - j].0
                    && reversed@[j].1@ == all[all.len() - 1 - j].1,
            member_tys(members@) == merged_members(start, all.take(done)),
        decreases reversed@.len(),
    {
        let ghost last = reversed@[reversed@.len() - 1];
        if let Some(member) = reversed.pop() {
            proof {
                assert(member == last);
                assert(all.take(done + 1).drop_last() =~= all.take(done));
                assert(all.take(done + 1).last() == all[done]);
            }
            put(members, member.0, member.1);
            proof {
                done = done + 1;
            }
        }
    }
    assert(all.take(done) =~= all);
}

/// The code that gathers the members of a type.
pub struct MemberCollector<'a> {
    pub db: &'a DbIndex,
    pub visiting: Vec<LuaType>,
    pub modules: usize,
}

fn instantiate_key(db: &DbIndex, key: &LuaMemberKey, s: &Option<TypeSubstitutor>) -> (r: LuaMemberKey)
    ensures
        r@ == subst_key(db@, key@, opt_subst(*s)),
    decreases db@.room, 3nat,
{
    match key {
        LuaMemberKey::TypeKey(t) => LuaMemberKey::TypeKey(instantiate(db, t, s)),
        _ => key.clone(),
    }
}

/// Adds a member under its instantiated key, where that key is new.
fn insert(
    db: &DbIndex,
    members: &mut TypeMembers,
    key: &LuaMemberKey,
    origin: MemberOrigin,
    substitutor: &Option<TypeSubstitutor>,
)
    ensures
        member_tys(final(members)@) == add_member(
            db@,
            member_tys(old(members)@),
            key@,
            symbol_ty(MemberSymbol { origin, substitutor: None }).origin,
            opt_subst(*substitutor),
        ),
    decreases db@.room, 4nat,
{
    let key = instantiate_key(db, key, substitutor);
    let symbol = MemberSymbol { origin, substitutor: clone_substitutor(substitutor) };
    proof {
        assert(symbol@.origin == symbol_ty(MemberSymbol { origin, substitutor: None }).origin);
        assert(symbol@.substitutor == opt_subst(*substitutor));
    }
    put(members, key, symbol);
}

fn insert_type(
    db: &DbIndex,
    members: &mut TypeMembers,
    key: &LuaMemberKey,
    t: &LuaType,
    substitutor: &Option<TypeSubstitutor>,
)
    ensures
        member_tys(final(members)@) == add_member(
            db@,
            member_tys(old(members)@),
            key@,
            OriginTy::Type(t@),
            opt_subst(*substitutor),
        ),
    decreases db@.room, 5nat,
{
    insert(db, members, key, MemberOrigin::Type(t.clone()), substitutor);
}

fn object_members(db: &DbIndex, object: &LuaObjectType, substitutor: &Option<TypeSubstitutor>) -> (r: TypeMembers)
    ensures
        member_tys(r@) == index_members(
            db@,
            field_members(db@, object@.fields, opt_subst(*substitutor)),
            object@.index_access,
            opt_subst(*substitutor),
        ),
    decreases db@.room, 6nat,
{
    let ghost m = opt_subst(*substitutor);
    let ghost fields = types::field_tys(object.fields@);
    let ghost pairs = types::pair_tys(object.index_access@);
    let mut members: TypeMembers = Vec::new();
    proof {
        assert(member_tys(members@) =~= Seq::<(KeyTy, SymbolTy)>::empty());
        assert(fields.take(0) =~= Seq::<(KeyTy, Ty)>::empty());
    }
    let mut i: usize = 0;
    while i < object.fields.len()
        invariant
            i <= object.fields@.len(),
            fields == types::field_tys(object.fields@),
            m == opt_subst(*substitutor),
            member_tys(members@) == field_members(db@, fields.take(i as int), m),
        decreases object.fields@.len() - i,
    {
        proof {
            assert(fields.take(i + 1).drop_last() =~= fields.take(i as int));
            assert(fields.take(i + 1).last() == fields[i as int]);
        }
        insert_type(db, &mut members, &object.fields[i].0, &object.fields[i].1, substitutor);
        i += 1;
    }
    let ghost start = member_tys(members@);
    proof {
        assert(fields.take(i as int) =~= fields);
        assert(pairs.take(0) =~= Seq::<(Ty, Ty)>::empty());
    }
    let mut k: usize = 0;
    while k < object.index_access.len()
        invariant
            k <= object.index_access@.len(),
            pairs == types::pair_tys(object.index_access@),
            m == opt_subst(*substitutor),
            member_tys(members@) == index_members(db@, start, pairs.take(k as int), m),
        decreases object.index_access@.len() - k,
    {
        proof {
            assert(pairs.take(k + 1).drop_last() =~= pairs.take(k as int));
            assert(pairs.take(k + 1).last() == pairs[k as int]);
        }
        let key = LuaMemberKey::TypeKey(object.index_access[k].0.clone());
        assert(key@ == KeyTy::TypeKey(Box::new(pairs[k as int].0)));
        insert_type(db, &mut members, &key, &object.index_access[k].1, substitutor);
        k += 1;
    }
    assert(pairs.take(k as int) =~= pairs);
    members
}

fn tuple_element_members(
    db: &DbIndex,
    types: &Vec<LuaType>,
    substitutor: &Option<TypeSubstitutor>,
) -> (r: TypeMembers)
    ensures
        member_tys(r@) == tuple_members(db@, Seq::empty(), types::tys(types@), 0, opt_subst(*substitutor)),
    decreases db@.room, 6nat,
{
    let ghost m = opt_subst(*substitutor);
    let ghost all = types::tys(types@);
    let mut members: TypeMembers = Vec::new();
    assert(member_tys(members@) =~= Seq::<(KeyTy, SymbolTy)>::empty());
    let mut i: usize = 0;
    while i < types.len()
        invariant
            i <= types@.len(),
            all == types::tys(types@),
            m == opt_subst(*substitutor),
            tuple_members(db@, member_tys(members@), all, i as nat, m) == tuple_members(
                db@,
                Seq::empty(),
                all,
                0,
                m,
            ),
        decreases types@.len() - i,
    {
        assert(all[i as int] == types@[i as int]@);
        let key = LuaMemberKey::Integer((i + 1) as i64);
        if let (LuaType::Variadic(variadic), Some(bound)) = (&types[i], substitutor) {
            if let VariadicType::Base(LuaType::TplRef(tpl)) = &**variadic {
                assert(variadic@ == VariadicTy::Base(Ty::TplRef(Box::new(tpl@))));
                match bound.resolve_type(tpl.get_tpl_id()) {
                    Some(t) => insert_type(db, &mut members, &key, t, &None),
                    None => insert_type(db, &mut members, &key, &types[i], &None),
                }
                return members;
            }
            assert(!(variadic@ matches VariadicTy::Base(Ty::TplRef(_)))) by {
                if let VariadicType::Base(b) = **variadic {
                    assert(variadic@ == VariadicTy::Base(b@));
                }
            }
            return members;
        }
        insert_type(db, &mut members, &key, &types[i], substitutor);
        i += 1;
    }
    members
}

fn owner_members(
    db: &DbIndex,
    owner: &LuaMemberOwner,
    substitutor: &Option<TypeSubstitutor>,
) -> (r: TypeMembers)
    ensures
        member_tys(r@) == item_members(db@, db::items_of(db@, owner@), opt_subst(*substitutor)),
    decreases db@.room, 5nat,
{
    let ghost m = opt_subst(*substitutor);
    let mut members: TypeMembers = Vec::new();
    assert(member_tys(members@) =~= Seq::<(KeyTy, SymbolTy)>::empty());
    if let Some(owner_members) = db.get_owner_members(owner) {
        let items = &owner_members.items;
        let ghost all = db::item_tys(items@);
        assert(all.take(0) =~= Seq::<ItemTy>::empty());
        let mut i: usize = 0;
        while i < items.len()
            invariant
                i <= items@.len(),
                all == db::item_tys(items@),
                m == opt_subst(*substitutor),
                member_tys(members@) == item_members(db@, all.take(i as int), m),
            decreases items@.len() - i,
        {
            proof {
                assert(all.take(i + 1).drop_last() =~= all.take(i as int));
                assert(all.take(i + 1).last() == all[i as int]);
                assert(all[i as int] == items@[i as int]@);
            }
            let types = clone_types(&items[i].types);
            insert(db, &mut members, &items[i].key, MemberOrigin::Indexed(types), substitutor);
            i += 1;
        }
        assert(all.take(i as int) =~= all);
    }
    members
}

fn members_of_globals(db: &DbIndex, substitutor: &Option<TypeSubstitutor>) -> (r: TypeMembers)
    ensures
        member_tys(r@) == global_members(db@, db@.globals, opt_subst(*substitutor)),
    decreases db@.room, 5nat,
{
    let ghost m = opt_subst(*substitutor);
    let ghost all = db@.globals;
    let mut members: TypeMembers = Vec::new();
    proof {
        assert(member_tys(members@) =~= Seq::<(KeyTy, SymbolTy)>::empty());
        assert(all.take(0) =~= Seq::<(Seq<char>, Option<Ty>)>::empty());
    }
    let globals = db.get_globals();
    let mut i: usize = 0;
    while i < globals.len()
        invariant
            i <= globals@.len(),
            all == db@.globals,
            all == db::global_tys(globals@),
            m == opt_subst(*substitutor),
            member_tys(members@) == global_members(db@, all.take(i as int), m),
        decreases globals@.len() - i,
    {
        proof {
            assert(all.take(i + 1).drop_last() =~= all.take(i as int));
            assert(all.take(i + 1).last() == all[i as int]);
        }
        let key = LuaMemberKey::Name(globals[i].0.clone());
        let t = match &globals[i].1 {
            Some(t) => Some(t.clone()),
            None => None,
        };
        assert(types::opt_ty(t) == all[i as int].1);
        assert(key@ == KeyTy::Name(all[i as int].0));
        insert(db, &mut members, &key, MemberOrigin::Decl(t), substitutor);
        i += 1;
    }
    assert(all.take(i as int) =~= all);
    members
}

fn members_of_namespace(
    db: &DbIndex,
    name: &String,
    substitutor: &Option<TypeSubstitutor>,
) -> (r: TypeMembers)
    ensures
        member_tys(r@) == namespace_members(db@, db::namespace_of(db@, name@), opt_subst(*substitutor)),
    decreases db@.room, 6nat,
{
    let ghost m = opt_subst(*substitutor);
    let mut members: TypeMembers = Vec::new();
    assert(member_tys(members@) =~= Seq::<(KeyTy, SymbolTy)>::empty());
    if let Some(children) = db.get_namespace(name) {
        let ghost all = db::child_tys(children@);
        assert(all.take(0) =~= Seq::<(Seq<char>, Ty)>::empty());
        let mut i: usize = 0;
        while i < children.len()
            invariant
                i <= children@.len(),
                all == db::child_tys(children@),
                m == opt_subst(*substitutor),
                member_tys(members@) == namespace_members(db@, all.take(i as int), m),
            decreases children@.len() - i,
        {
            proof {
                assert(all.take(i + 1).drop_last() =~= all.take(i as int));
                assert(all.take(i + 1).last() == all[i as int]);
            }
            let key = LuaMemberKey::Name(children[i].0.clone());
            assert(key@ == KeyTy::Name(all[i as int].0));
            insert_type(db, &mut members, &key, &children[i].1, substitutor);
            i += 1;
        }
        assert(all.take(i as int) =~= all);
    }
    members
}

// Members gathered by key.

pub open spec fn group_tys(s: Seq<(LuaMemberKey, Vec<MemberSymbol>)>) -> Seq<
    (KeyTy, Seq<SymbolTy>),
> {
    Seq::new(s.len(), |i: int| (s[i].0@, symbol_tys(s[i].1@)))
}

pub open spec fn opt_groups(s: Option<Vec<(LuaMemberKey, Vec<MemberSymbol>)>>) -> Option<
    Seq<(KeyTy, Seq<SymbolTy>)>,
> {
    match s {
        Some(s) => Some(group_tys(s@)),
        None => None,
    }
}

impl MemberSymbol {
    /// A symbol of the same member.
    pub fn duplicate(&self) -> (r: MemberSymbol)
        ensures
            r@ == self@,
        decreases self,
    {
        let origin = match &self.origin {
            MemberOrigin::Indexed(types) => MemberOrigin::Indexed(clone_types(types)),
            MemberOrigin::Decl(t) => MemberOrigin::Decl(
                match t {
                    Some(t) => Some(t.clone()),
                    None => None,
                },
            ),
            MemberOrigin::Type(t) => MemberOrigin::Type(t.clone()),
            MemberOrigin::Union(members) => MemberOrigin::Union(duplicate_symbols(members)),
            MemberOrigin::Intersection(members) => MemberOrigin::Intersection(
                duplicate_symbols(members),
            ),
        };
        let r = MemberSymbol { origin, substitutor: clone_substitutor(&self.substitutor) };
        assert(r@.origin == self@.origin);
        r
    }
}

fn duplicate_symbols(symbols: &Vec<MemberSymbol>) -> (r: Vec<MemberSymbol>)
    ensures
        symbol_tys(r@) == symbol_tys(symbols@),
    decreases symbols,
{
    let mut r: Vec<MemberSymbol> = Vec::new();
    let mut i: usize = 0;
    while i < symbols.len()
        invariant
            i <= symbols@.len(),
            r@.len() == i,
            forall|j: int| 0 <= j < i ==> (#[trigger] r@[j])@ == symbols@[j]@,
        decreases symbols@.len() - i,
    {
        r.push(symbols[i].duplicate());
        i += 1;
    }
    assert(symbol_tys(r@) =~= symbol_tys(symbols@));
    r
}

fn push_symbol(symbols: &Vec<MemberSymbol>, symbol: MemberSymbol) -> (r: Vec<MemberSymbol>)
    ensures
        symbol_tys(r@) == symbol_tys(symbols@).push(symbol@),
{
    let mut r = duplicate_symbols(symbols);
    let ghost before = symbol_tys(r@);
    let ghost added = symbol@;
    r.push(symbol);
    assert(symbol_tys(r@) =~= before.push(added));
    r
}

fn group_index(groups: &Vec<(LuaMemberKey, Vec<MemberSymbol>)>, key: &LuaMemberKey) -> (r: usize)
    ensures
        r <= groups@.len(),
        find_group(group_tys(groups@), key@) == (if r < groups@.len() {
            Some(r as int)
        } else {
            None
        }),
{
    let ghost all = group_tys(groups@);
    let mut i: usize = 0;
    assert(all.skip(0) =~= all);
    while i < groups.len()
        invariant
            i <= groups@.len(),
            all == group_tys(groups@),
            find_group(all, key@) == (match find_group(all.skip(i as int), key@) {
                Some(k) => Some(k + i),
                None => None,
            }),
        decreases groups@.len() - i,
    {
        proof {
            assert(all.skip(i as int)[0] == all[i as int]);
            assert(all.skip(i as int).skip(1) =~= all.skip(i + 1));
        }
        if groups[i].0.same(key) {
            return i;
        }
        i += 1;
    }
    i
}

/// Puts every member into the group of its key.
fn group_members(groups: &mut Vec<(LuaMemberKey, Vec<MemberSymbol>)>, members: &TypeMembers)
    ensures
        group_tys(final(groups)@) == grouped(group_tys(old(groups)@), member_tys(members@)),
{
    let ghost start = group_tys(groups@);
    let ghost all = member_tys(members@);
    let mut i: usize = 0;
    assert(all.take(0) =~= Seq::<(KeyTy, SymbolTy)>::empty());
    while i < members.len()
        invariant
            i <= members@.len(),
            all == member_tys(members@),
            group_tys(groups@) == grouped(start, all.take(i as int)),
        decreases members@.len() - i,
    {
        proof {
            assert(all.take(i + 1).drop_last() =~= all.take(i as int));
            assert(all.take(i + 1).last() == all[i as int]);
        }
        let ghost before = group_tys(groups@);
        let k = group_index(groups, &members[i].0);
        let symbol = members[i].1.duplicate();
        if k < groups.len() {
            let symbols = push_symbol(&groups[k].1, symbol);
            let key = groups[k].0.clone();
            groups.set(k, (key, symbols));
            assert(group_tys(groups@) =~= before.update(
                k as int,
                (before[k as int].0, before[k as int].1.push(all[i as int].1)),
            ));
        } else {
            let mut symbols: Vec<MemberSymbol> = Vec::new();
            symbols.push(symbol);
            assert(symbol_tys(symbols@) =~= seq![all[i as int].1]);
            groups.push((members[i].0.clone(), symbols));
            assert(group_tys(groups@) =~= before.push((all[i as int].0, seq![all[i as int].1])));
        }
        i += 1;
    }
    assert(all.take(i as int) =~= all);
}

/// The groups with one more branch of a union.
fn join_branch(
    groups: Option<Vec<(LuaMemberKey, Vec<MemberSymbol>)>>,
    members: &TypeMembers,
) -> (r: Vec<(LuaMemberKey, Vec<MemberSymbol>)>)
    ensures
        group_tys(r@) == joined(opt_groups(groups), member_tys(members@)),
{
    let mut r: Vec<(LuaMemberKey, Vec<MemberSymbol>)> = Vec::new();
    match groups {
        Some(groups) => {
            let ghost all = group_tys(groups@);
            let mut i: usize = 0;
            proof {
                assert(all.take(0) =~= Seq::<(KeyTy, Seq<SymbolTy>)>::empty());
                assert(group_tys(r@) =~= Seq::<(KeyTy, Seq<SymbolTy>)>::empty());
            }
            while i < groups.len()
                invariant
                    i <= groups@.len(),
                    all == group_tys(groups@),
                    group_tys(r@) == retained(all.take(i as int), member_tys(members@)),
                decreases groups@.len() - i,
            {
                proof {
                    assert(all.take(i + 1).drop_last() =~= all.take(i as int));
                    assert(all.take(i + 1).last() == all[i as int]);
                }
                let ghost before = group_tys(r@);
                let k = member_index(members, &groups[i].0);
                if k < members.len() {
                    let symbols = push_symbol(&groups[i].1, members[k].1.duplicate());
                    r.push((groups[i].0.clone(), symbols));
                    assert(group_tys(r@) =~= before.push(
                        (all[i as int].0, all[i as int].1.push(members@[k as int].1@)),
                    ));
                }
                i += 1;
            }
            assert(all.take(i as int) =~= all);
        },
        None => {
            let ghost all = member_tys(members@);
            let mut i: usize = 0;
            while i < members.len()
                invariant
                    i <= members@.len(),
                    all == member_tys(members@),
                    r@.len() == i,
                    forall|j: int|
                        0 <= j < i ==> (#[trigger] r@[j]).0@ == all[j].0 && symbol_tys(r@[j].1@)
                            == seq![all[j].1],
                decreases members@.len() - i,
            {
                let mut symbols: Vec<MemberSymbol> = Vec::new();
                symbols.push(members[i].1.duplicate());
                assert(symbol_tys(symbols@) =~= seq![all[i as int].1]);
                r.push((members[i].0.clone(), symbols));
                i += 1;
            }
            assert(group_tys(r@) =~= joined(None, all));
        },
    }
    r
}

/// The members whose types the groups make up together.
fn symbols_of_groups(groups: &Vec<(LuaMemberKey, Vec<MemberSymbol>)>, union: bool) -> (r:
    TypeMembers)
    ensures
        member_tys(r@) == (if union {
            union_symbols(group_tys(groups@))
        } else {
            intersection_symbols(group_tys(groups@))
        }),
{
    let ghost all = group_tys(groups@);
    let ghost wanted = if union {
        union_symbols(all)
    } else {
        intersection_symbols(all)
    };
    let mut r: TypeMembers = Vec::new();
    let mut i: usize = 0;
    while i < groups.len()
        invariant
            i <= groups@.len(),
            all == group_tys(groups@),
            wanted == (if union {
                union_symbols(all)
            } else {
                intersection_symbols(all)
            }),
            r@.len() == i,
            forall|j: int| 0 <= j < i ==> ((#[trigger] r@[j]).0@, r@[j].1@) == wanted[j],
        decreases groups@.len() - i,
    {
        let symbols = duplicate_symbols(&groups[i].1);
        let origin = if union {
            MemberOrigin::Union(symbols)
        } else {
            MemberOrigin::Intersection(symbols)
        };
        let symbol = MemberSymbol { origin, substitutor: None };
        proof {
            assert(symbol@.substitutor == None::<Seq<(GenericTplId, Ty)>>);
            assert(symbol@ == wanted[i as int].1);
        }
        r.push((groups[i].0.clone(), symbol));
        i += 1;
    }
    assert(member_tys(r@) =~= wanted);
    r
}

pub open spec fn opt_members(r: Option<TypeMembers>) -> Option<Seq<(KeyTy, SymbolTy)>> {
    match r {
        Some(members) => Some(member_tys(members@)),
        None => None,
    }
}

fn no_members() -> (r: TypeMembers)
    ensures
        member_tys(r@) == Seq::<(KeyTy, SymbolTy)>::empty(),
{
    let members: TypeMembers = Vec::new();
    assert(member_tys(members@) =~= Seq::<(KeyTy, SymbolTy)>::empty());
    members
}

fn table_generic_members(
    db: &DbIndex,
    params: &Vec<LuaType>,
    substitutor: &Option<TypeSubstitutor>,
) -> (r: TypeMembers)
    ensures
        member_tys(r@) == (if params@.len() == 2 {
            add_member(
                db@,
                Seq::empty(),
                KeyTy::TypeKey(Box::new(types::tys(params@)[0])),
                OriginTy::Type(types::tys(params@)[1]),
                opt_subst(*substitutor),
            )
        } else {
            Seq::empty()
        }),
    decreases db@.room, 6nat,
{
    let mut members = no_members();
    if params.len() == 2 {
        let key = LuaMemberKey::TypeKey(params[0].clone());
        insert_type(db, &mut members, &key, &params[1], substitutor);
    }
    members
}

fn array_members(db: &DbIndex, array: &LuaArrayType, substitutor: &Option<TypeSubstitutor>) -> (r: TypeMembers)
    ensures
        member_tys(r@) == add_member(
            db@,
            Seq::empty(),
            KeyTy::TypeKey(Box::new(Ty::Integer)),
            OriginTy::Type(array@.base),
            opt_subst(*substitutor),
        ),
    decreases db@.room, 6nat,
{
    let mut members = no_members();
    let key = LuaMemberKey::TypeKey(LuaType::Integer);
    insert_type(db, &mut members, &key, &array.base, substitutor);
    members
}

impl<'a> MemberCollector<'a> {
    pub fn new(db: &'a DbIndex) -> (r: Self)
        ensures
            r.db == db,
            r.visiting@.len() == 0,
            r.modules == db@.modules.len(),
    {
        MemberCollector { db, visiting: Vec::new(), modules: db.module_count() }
    }

    /// What a run of the collector leaves as it was.
    pub open spec fn same_place(self, other: Self) -> bool {
        self.db == other.db && self.visiting@ == other.visiting@ && self.modules == other.modules
    }

    /// The members of a type; none at all where the type has no values.
    pub fn collect(&mut self, typ: &LuaType, substitutor: &Option<TypeSubstitutor>) -> (r: Option<
        TypeMembers,
    >)
        ensures
            opt_members(r) == collected(
                old(self).db@,
                types::tys(old(self).visiting@),
                old(self).modules as nat,
                typ@,
                opt_subst(*substitutor),
            ),
            final(self).same_place(*old(self)),
        decreases
            old(self).db@.room,
            7nat,
            room(types::tys(old(self).visiting@)),
            old(self).modules,
            opt_flag(opt_subst(*substitutor)),
            nest_size(typ@),
            1nat,
    {
        match typ {
            LuaType::Never => None,
            LuaType::Ref(id) => self.collect_declared(id, None, &None),
            LuaType::Def(id) => self.collect_declared(id, None, &None),
            LuaType::Generic(generic) => {
                assert(generic@.base == generic.base@ && generic@.params == types::tys(generic.params@));
                self.collect_declared(&generic.base, Some(&generic.params), substitutor)
            },
            LuaType::Object(object) => Some(object_members(self.db, object, substitutor)),
            LuaType::Tuple(tuple) => {
                assert(tuple@.types == types::tys(tuple.types@));
                Some(tuple_element_members(self.db, &tuple.types, substitutor))
            },
            LuaType::TableGeneric(params) => Some(table_generic_members(self.db, params, substitutor)),
            LuaType::Array(array) => Some(array_members(self.db, array, substitutor)),
            LuaType::TableConst(range) => Some(
                owner_members(self.db, &LuaMemberOwner::Element(*range), substitutor),
            ),
            LuaType::Union(union) => self.collect_listed(union, substitutor),
            LuaType::Intersection(intersection) => self.collect_common(intersection, substitutor),
            LuaType::MultiLineUnion(union) => self.collect_lines(union, substitutor),
            LuaType::ModuleRef(file_id) => self.collect_module(*file_id),
            LuaType::Instance(instance) => self.collect_instance(instance, substitutor),
            LuaType::Global => Some(members_of_globals(self.db, substitutor)),
            LuaType::Namespace(name) => Some(members_of_namespace(self.db, name, substitutor)),
            LuaType::TplRef(_)
            | LuaType::Call(_)
            | LuaType::Conditional(_)
            | LuaType::Mapped(_) => self.collect_resolved(typ, substitutor),
            _ => match get_buildin_type_map_type_id(typ) {
                Some(id) => self.collect_declared(&id, None, &None),
                None => Some(no_members()),
            },
        }
    }

    fn collect_listed(&mut self, union: &LuaUnionType, substitutor: &Option<TypeSubstitutor>) -> (r: Option<
        TypeMembers,
    >)
        ensures
            opt_members(r) == collected(
                old(self).db@,
                types::tys(old(self).visiting@),
                old(self).modules as nat,
                Ty::Union(Box::new(union@)),
                opt_subst(*substitutor),
            ),
            final(self).same_place(*old(self)),
        decreases
            old(self).db@.room,
            7nat,
            room(types::tys(old(self).visiting@)),
            old(self).modules,
            opt_flag(opt_subst(*substitutor)),
            nest_size(Ty::Union(Box::new(union@))),
            0nat,
    {
        proof {
            lemma_nest_union(union@);
        }
        let branches = union.into_vec();
        self.collect_union(&branches, substitutor)
    }

    fn collect_common(&mut self, intersection: &LuaIntersectionType, substitutor: &Option<TypeSubstitutor>) -> (r: Option<
        TypeMembers,
    >)
        ensures
            opt_members(r) == collected(
                old(self).db@,
                types::tys(old(self).visiting@),
                old(self).modules as nat,
                Ty::Intersection(intersection@),
                opt_subst(*substitutor),
            ),
            final(self).same_place(*old(self)),
        decreases
            old(self).db@.room,
            7nat,
            room(types::tys(old(self).visiting@)),
            old(self).modules,
            opt_flag(opt_subst(*substitutor)),
            nest_size(Ty::Intersection(intersection@)),
            0nat,
    {
        self.collect_intersection(&intersection.types, substitutor)
    }

    fn collect_lines(&mut self, union: &LuaMultiLineUnion, substitutor: &Option<TypeSubstitutor>) -> (r: Option<
        TypeMembers,
    >)
        ensures
            opt_members(r) == collected(
                old(self).db@,
                types::tys(old(self).visiting@),
                old(self).modules as nat,
                Ty::MultiLineUnion(union@),
                opt_subst(*substitutor),
            ),
            final(self).same_place(*old(self)),
        decreases
            old(self).db@.room,
            7nat,
            room(types::tys(old(self).visiting@)),
            old(self).modules,
            opt_flag(opt_subst(*substitutor)),
            nest_size(Ty::MultiLineUnion(union@)),
            0nat,
    {
        proof {
            lemma_nest_line_union(union@);
        }
        let joined_union = LuaUnionType::from_vec(union.iter());
        let branches = joined_union.into_vec();
        self.collect_union(&branches, substitutor)
    }

    fn collect_instance(&mut self, instance: &LuaInstanceType, substitutor: &Option<TypeSubstitutor>) -> (r: Option<
        TypeMembers,
    >)
        ensures
            opt_members(r) == collected(
                old(self).db@,
                types::tys(old(self).visiting@),
                old(self).modules as nat,
                Ty::Instance(Box::new(instance@)),
                opt_subst(*substitutor),
            ),
            final(self).same_place(*old(self)),
        decreases
            old(self).db@.room,
            7nat,
            room(types::tys(old(self).visiting@)),
            old(self).modules,
            opt_flag(opt_subst(*substitutor)),
            nest_size(Ty::Instance(Box::new(instance@))),
            0nat,
    {
        let owner = LuaMemberOwner::Element(instance.range);
        let mut members = owner_members(self.db, &owner, substitutor);
        match self.collect(&instance.base, substitutor) {
            Some(inherited) => merge_members(&mut members, inherited),
            None => {},
        }
        Some(members)
    }

    /// The members of a type that is known only once its templates are bound.
    fn collect_resolved(
        &mut self,
        typ: &LuaType,
        substitutor: &Option<TypeSubstitutor>,
    ) -> (r: Option<TypeMembers>)
        requires
            typ@ is TplRef || typ@ is Call || typ@ is Conditional || typ@ is Mapped,
        ensures
            opt_members(r) == collected(
                old(self).db@,
                types::tys(old(self).visiting@),
                old(self).modules as nat,
                typ@,
                opt_subst(*substitutor),
            ),
            final(self).same_place(*old(self)),
        decreases
            old(self).db@.room,
            7nat,
            room(types::tys(old(self).visiting@)),
            old(self).modules,
            opt_flag(opt_subst(*substitutor)),
            nest_size(typ@),
            0nat,
    {
        if substitutor.is_some() {
            let resolved = instantiate(self.db, typ, substitutor);
            if !resolved.same(typ) {
                return self.collect(&resolved, &None);
            }
        }
        Some(no_members())
    }

    fn collect_module(&mut self, file_id: FileId) -> (r: Option<TypeMembers>)
        ensures
            opt_members(r) == collected(
                old(self).db@,
                types::tys(old(self).visiting@),
                old(self).modules as nat,
                Ty::ModuleRef(file_id),
                None,
            ),
            final(self).same_place(*old(self)),
        decreases old(self).db@.room, 7nat, room(types::tys(old(self).visiting@)), old(self).modules, 0nat, 1nat, 0nat,
    {
        if self.modules > 0 {
            let db = self.db;
            if let Some(export) = db.get_export_type(file_id) {
                self.modules = self.modules - 1;
                let r = self.collect(export, &None);
                self.modules = self.modules + 1;
                return r;
            }
        }
        Some(no_members())
    }

    /// The members of a declared type.
    pub fn collect_declared(
        &mut self,
        id: &LuaTypeDeclId,
        params: Option<&Vec<LuaType>>,
        context: &Option<TypeSubstitutor>,
    ) -> (r: Option<TypeMembers>)
        ensures
            opt_members(r) == collected_declared(
                old(self).db@,
                types::tys(old(self).visiting@),
                old(self).modules as nat,
                id@,
                match params {
                    Some(params) => Some(types::tys(params@)),
                    None => None,
                },
                opt_subst(*context),
            ),
            final(self).same_place(*old(self)),
        decreases
            old(self).db@.room,
            7nat,
            room(types::tys(old(self).visiting@)),
            old(self).modules,
            opt_flag(opt_subst(*context)),
            0nat,
            0nat,
    {
        let db = self.db;
        let decl = match db.get_type_decl(id) {
            Some(decl) => decl,
            None => {
                return Some(no_members());
            },
        };
        let args = match params {
            Some(params) => Some(
                match context {
                    Some(context) => instantiate_types(self.db, params, context),
                    None => clone_types(params),
                },
            ),
            None => None,
        };
        let visiting_type = match &args {
            Some(args) => if decl.is_alias() {
                LuaType::Generic(Arc::new(LuaGenericType::new(id.clone(), clone_types(args))))
            } else {
                LuaType::Ref(id.clone())
            },
            None => LuaType::Ref(id.clone()),
        };
        let ghost entered = visiting_type@;
        if self.visiting.len() >= 128 || holds_same(&self.visiting, &visiting_type) {
            return Some(no_members());
        }
        let substitutor = match &args {
            Some(args) => Some(TypeSubstitutor::from_type_array(args)),
            None => None,
        };
        let ghost before = self.visiting@;
        self.visiting.push(visiting_type);
        proof {
            assert(types::tys(self.visiting@) =~= types::tys(before).push(entered));
        }
        let members = if decl.is_alias() {
            match decl.get_alias_ref() {
                Some(origin) => self.collect(origin, &substitutor),
                None => {
                    Some(no_members())
                },
            }
        } else {
            let members = owner_members(
                self.db,
                &LuaMemberOwner::Type(id.clone()),
                &substitutor,
            );
            if decl.is_class() {
                Some(self.collect_supers(members, &decl.super_types, &substitutor))
            } else {
                Some(members)
            }
        };
        self.visiting.pop();
        assert(self.visiting@ =~= before);
        members
    }

    fn collect_supers(
        &mut self,
        own: TypeMembers,
        supers: &Vec<LuaType>,
        substitutor: &Option<TypeSubstitutor>,
    ) -> (r: TypeMembers)
        ensures
            member_tys(r@) == collected_supers(
                old(self).db@,
                types::tys(old(self).visiting@),
                old(self).modules as nat,
                member_tys(own@),
                types::tys(supers@),
                opt_subst(*substitutor),
            ),
            final(self).same_place(*old(self)),
        decreases
            old(self).db@.room,
            7nat,
            room(types::tys(old(self).visiting@)),
            old(self).modules,
            opt_flag(opt_subst(*substitutor)),
            nest_sum(types::tys(supers@)),
            2nat,
    {
        let ghost start = *self;
        let ghost all = types::tys(supers@);
        let ghost m = opt_subst(*substitutor);
        let ghost first = member_tys(own@);
        let mut members = own;
        let mut i: usize = 0;
        assert(all.take(0) =~= Seq::<Ty>::empty());
        while i < supers.len()
            invariant
                i <= supers@.len(),
                all == types::tys(supers@),
                m == opt_subst(*substitutor),
                start == *old(self),
                self.same_place(start),
                member_tys(members@) == collected_supers(
                    start.db@,
                    types::tys(start.visiting@),
                    start.modules as nat,
                    first,
                    all.take(i as int),
                    m,
                ),
            decreases supers@.len() - i,
        {
            proof {
                assert(all.take(i + 1).drop_last() =~= all.take(i as int));
                assert(all.take(i + 1).last() == all[i as int]);
                assert(all[i as int] == supers@[i as int]@);
                lemma_nest_part(all, i as int);
            }
            match self.collect(&supers[i], substitutor) {
                Some(inherited) => merge_members(&mut members, inherited),
                None => {},
            }
            i += 1;
        }
        assert(all.take(i as int) =~= all);
        members
    }

    /// The members that all branches of a union have.
    pub fn collect_union(
        &mut self,
        branches: &Vec<LuaType>,
        substitutor: &Option<TypeSubstitutor>,
    ) -> (r: Option<TypeMembers>)
        ensures
            opt_members(r) == (match collected_branches(
                old(self).db@,
                types::tys(old(self).visiting@),
                old(self).modules as nat,
                types::tys(branches@),
                opt_subst(*substitutor),
            ) {
                Some(groups) => Some(union_symbols(groups)),
                None => None,
            }),
            final(self).same_place(*old(self)),
        decreases
            old(self).db@.room,
            7nat,
            room(types::tys(old(self).visiting@)),
            old(self).modules,
            opt_flag(opt_subst(*substitutor)),
            nest_sum(types::tys(branches@)),
            2nat,
    {
        let ghost start = *self;
        let ghost all = types::tys(branches@);
        let ghost m = opt_subst(*substitutor);
        let mut common: Option<Vec<(LuaMemberKey, Vec<MemberSymbol>)>> = None;
        let mut i: usize = 0;
        assert(all.take(0) =~= Seq::<Ty>::empty());
        while i < branches.len()
            invariant
                i <= branches@.len(),
                all == types::tys(branches@),
                m == opt_subst(*substitutor),
                start == *old(self),
                self.same_place(start),
                opt_groups(common) == collected_branches(
                    start.db@,
                    types::tys(start.visiting@),
                    start.modules as nat,
                    all.take(i as int),
                    m,
                ),
            decreases branches@.len() - i,
        {
            proof {
                assert(all.take(i + 1).drop_last() =~= all.take(i as int));
                assert(all.take(i + 1).last() == all[i as int]);
                assert(all[i as int] == branches@[i as int]@);
                lemma_nest_part(all, i as int);
            }
            match self.collect(&branches[i], substitutor) {
                Some(members) => {
                    common = Some(join_branch(common, &members));
                },
                None => {},
            }
            i += 1;
        }
        assert(all.take(i as int) =~= all);
        match common {
            Some(groups) => Some(symbols_of_groups(&groups, true)),
            None => None,
        }
    }

    fn collect_intersection(
        &mut self,
        parts: &Vec<LuaType>,
        substitutor: &Option<TypeSubstitutor>,
    ) -> (r: Option<TypeMembers>)
        ensures
            opt_members(r) == (match collected_parts(
                old(self).db@,
                types::tys(old(self).visiting@),
                old(self).modules as nat,
                types::tys(parts@),
                opt_subst(*substitutor),
            ) {
                Some(groups) => Some(intersection_symbols(groups)),
                None => None,
            }),
            final(self).same_place(*old(self)),
        decreases
            old(self).db@.room,
            7nat,
            room(types::tys(old(self).visiting@)),
            old(self).modules,
            opt_flag(opt_subst(*substitutor)),
            nest_sum(types::tys(parts@)),
            2nat,
    {
        let ghost start = *self;
        let ghost all = types::tys(parts@);
        let ghost m = opt_subst(*substitutor);
        let mut combined: Vec<(LuaMemberKey, Vec<MemberSymbol>)> = Vec::new();
        let mut never = false;
        let mut i: usize = 0;
        proof {
            assert(all.take(0) =~= Seq::<Ty>::empty());
            assert(group_tys(combined@) =~= Seq::<(KeyTy, Seq<SymbolTy>)>::empty());
        }
        while i < parts.len()
            invariant
                i <= parts@.len(),
                all == types::tys(parts@),
                m == opt_subst(*substitutor),
                start == *old(self),
                self.same_place(start),
                collected_parts(
                    start.db@,
                    types::tys(start.visiting@),
                    start.modules as nat,
                    all.take(i as int),
                    m,
                ) == (if never {
                    None
                } else {
                    Some(group_tys(combined@))
                }),
            decreases parts@.len() - i,
        {
            proof {
                assert(all.take(i + 1).drop_last() =~= all.take(i as int));
                assert(all.take(i + 1).last() == all[i as int]);
                assert(all[i as int] == parts@[i as int]@);
                lemma_nest_part(all, i as int);
            }
            if !never {
                match self.collect(&parts[i], substitutor) {
                    Some(members) => group_members(&mut combined, &members),
                    None => {
                        never = true;
                    },
                }
            }
            i += 1;
        }
        assert(all.take(i as int) =~= all);
        if never {
            return None;
        }
        Some(symbols_of_groups(&combined, false))
    }
}

/// No type of a list is larger than the list.
proof fn lemma_nest_part(types: Seq<Ty>, i: int)
    requires
        0 <= i < types.len(),
    ensures
        nest_size(types[i]) <= nest_sum(types),
    decreases types.len(),
{
    if i < types.len() - 1 {
        lemma_nest_part(types.drop_last(), i);
    }
}

/// The members that values of a type have, where the type may have any.
pub fn find_members(db: &DbIndex, typ: &LuaType) -> (r: Option<TypeMembers>)
    ensures
        opt_members(r) == possible_members(db@, typ@),
    decreases db@.room, 8nat,
{
    let mut collector = MemberCollector::new(db);
    assert(types::tys(collector.visiting@) =~= Seq::<Ty>::empty());
    collector.collect(typ, &None)
}

/// The members that values of a type have.
pub fn collect_members(db: &DbIndex, typ: &LuaType) -> (r: TypeMembers)
    ensures
        member_tys(r@) == members_of_type(db@, typ@),
    decreases db@.room, 9nat,
{
    match find_members(db, typ) {
        Some(members) => members,
        None => {
            let members: TypeMembers = Vec::new();
            assert(member_tys(members@) =~= Seq::<(KeyTy, SymbolTy)>::empty());
            members
        },
    }
}

} // verus!
