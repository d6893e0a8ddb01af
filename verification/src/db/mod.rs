//! What is known of a workspace: its declared types, their members, its modules and functions.

use std::sync::Arc;
use vstd::prelude::*;

use crate::types;
use crate::generic::substitutor;
use crate::types::{
    FileId, FunctionTy, GenericParam, GenericTplId, InFiled, KeyTy, LuaFunctionType, LuaMemberKey,
    LuaSignatureId, LuaType, LuaTypeDeclId, ParamTy, Ty, complex, equality, predicates,
};
use crate::types::complex::text_is;

verus! {

/// What a declared type is.
#[derive(Debug, Clone, Copy, PartialEq, Eq, Structural)]
pub enum LuaDeclKind {
    Class,
    Alias,
    Enum,
}

/// A declared type.
#[derive(Debug)]
pub struct LuaTypeDecl {
    pub kind: LuaDeclKind,
    pub generic_params: Vec<GenericParam>,
    pub alias_ref: Option<LuaType>,
    pub super_types: Vec<LuaType>,
    pub enum_fields: Option<LuaType>,
    pub call_operators: Vec<Arc<LuaFunctionType>>,
    pub constructor: Option<LuaType>,
    pub index_operators: Vec<(LuaType, LuaType)>,
    pub is_enum_key: bool,
}

/// Who a member belongs to: a declared type or a table literal.
#[derive(Debug)]
pub enum LuaMemberOwner {
    Type(LuaTypeDeclId),
    Element(InFiled),
}

/// The declarations of one member of an owner: the types that are known of them.
#[derive(Debug)]
pub struct LuaMemberIndexItem {
    pub key: LuaMemberKey,
    pub types: Vec<LuaType>,
}

/// The members of an owner, in the order of their first declarations.
#[derive(Debug)]
pub struct LuaOwnerMembers {
    pub owner: LuaMemberOwner,
    pub items: Vec<LuaMemberIndexItem>,
}

/// What is known of a function literal: its own type and its overloads.
#[derive(Debug)]
pub struct LuaSignature {
    pub id: LuaSignatureId,
    pub function: Arc<LuaFunctionType>,
    pub overloads: Vec<Arc<LuaFunctionType>>,
}

/// What an index holds.
#[derive(Debug)]
pub struct IndexTables {
    pub type_decls: Vec<(LuaTypeDeclId, LuaTypeDecl)>,
    pub owners: Vec<LuaOwnerMembers>,
    pub modules: Vec<(FileId, Option<LuaType>)>,
    pub signatures: Vec<LuaSignature>,
    pub table_calls: Vec<(InFiled, Vec<Arc<LuaFunctionType>>)>,
    pub metatables: Vec<(InFiled, Vec<(LuaType, LuaType)>)>,
    pub globals: Vec<(String, Option<LuaType>)>,
    pub namespaces: Vec<(String, Vec<(String, LuaType)>)>,
    pub strict_array_index: bool,
}

/// How deep operators on types and conditions may stand in each other: as deep as can be counted.
pub const OPERATOR_DEPTH: usize = usize::MAX;

/// The index of a workspace, and how deep operators on types may still be resolved in it.
#[derive(Debug)]
pub struct DbIndex {
    pub tables: Arc<IndexTables>,
    pub room: usize,
}

// ----------------------------------------------------------------------------
// The mathematical picture.

pub struct DeclTy {
    pub kind: LuaDeclKind,
    pub generic_params: Seq<ParamTy>,
    pub alias_ref: Option<Ty>,
    pub super_types: Seq<Ty>,
    pub enum_fields: Option<Ty>,
    pub call_operators: Seq<FunctionTy>,
    pub constructor: Option<Ty>,
    pub index_operators: Seq<(Ty, Ty)>,
    pub is_enum_key: bool,
}

pub enum OwnerTy {
    Type(Seq<char>),
    Element(InFiled),
}

pub struct ItemTy {
    pub key: KeyTy,
    pub types: Seq<Ty>,
}

pub struct SignatureTy {
    pub function: FunctionTy,
    pub overloads: Seq<FunctionTy>,
}

pub struct TablesTy {
    pub type_decls: Seq<(Seq<char>, DeclTy)>,
    pub owners: Seq<(OwnerTy, Seq<ItemTy>)>,
    pub modules: Seq<(FileId, Option<Ty>)>,
    pub signatures: Seq<(LuaSignatureId, SignatureTy)>,
    pub table_calls: Seq<(InFiled, Seq<FunctionTy>)>,
    pub metatables: Seq<(InFiled, Seq<(Ty, Ty)>)>,
    pub globals: Seq<(Seq<char>, Option<Ty>)>,
    pub namespaces: Seq<(Seq<char>, Seq<(Seq<char>, Ty)>)>,
    pub strict_array_index: bool,
}

/// The tables of an index, how deep operators on types may stand in each other, and what a type stands
/// for once types are put in the place of templates and the operators and conditions in it are
/// resolved.
pub struct DbTy {
    pub type_decls: Seq<(Seq<char>, DeclTy)>,
    pub owners: Seq<(OwnerTy, Seq<ItemTy>)>,
    pub modules: Seq<(FileId, Option<Ty>)>,
    pub signatures: Seq<(LuaSignatureId, SignatureTy)>,
    pub table_calls: Seq<(InFiled, Seq<FunctionTy>)>,
    pub metatables: Seq<(InFiled, Seq<(Ty, Ty)>)>,
    pub globals: Seq<(Seq<char>, Option<Ty>)>,
    pub namespaces: Seq<(Seq<char>, Seq<(Seq<char>, Ty)>)>,
    pub strict_array_index: bool,
    pub room: nat,
    pub eval: spec_fn(Ty, Seq<(GenericTplId, Ty)>) -> Ty,
}

/// What a type stands for in an index, with types in the place of its templates.
pub open spec fn evaluated(db: DbTy, t: Ty, m: Seq<(GenericTplId, Ty)>) -> Ty {
    (db.eval)(t, m)
}

pub open spec fn evaluated_all(db: DbTy, types: Seq<Ty>, m: Seq<(GenericTplId, Ty)>) -> Seq<Ty> {
    Seq::new(types.len(), |i: int| evaluated(db, types[i], m))
}

pub open spec fn evaluated_function(
    db: DbTy,
    f: FunctionTy,
    m: Seq<(GenericTplId, Ty)>,
) -> FunctionTy {
    FunctionTy {
        params: Seq::new(
            f.params.len(),
            |i: int|
                (
                    f.params[i].0,
                    match f.params[i].1 {
                        Some(t) => Some(evaluated(db, t, m)),
                        None => None,
                    },
                ),
        ),
        ret: evaluated(db, f.ret, m),
        ..f
    }
}

pub open spec fn function_tys(s: Seq<Arc<LuaFunctionType>>) -> Seq<FunctionTy> {
    Seq::new(s.len(), |i: int| s[i]@)
}

impl View for LuaTypeDecl {
    type V = DeclTy;

    open spec fn view(&self) -> DeclTy {
        DeclTy {
            kind: self.kind,
            generic_params: types::param_tys(self.generic_params@),
            alias_ref: types::opt_ty(self.alias_ref),
            super_types: types::tys(self.super_types@),
            enum_fields: types::opt_ty(self.enum_fields),
            call_operators: function_tys(self.call_operators@),
            constructor: types::opt_ty(self.constructor),
            index_operators: types::pair_tys(self.index_operators@),
            is_enum_key: self.is_enum_key,
        }
    }
}

impl View for LuaMemberOwner {
    type V = OwnerTy;

    open spec fn view(&self) -> OwnerTy {
        match self {
            LuaMemberOwner::Type(id) => OwnerTy::Type(id@),
            LuaMemberOwner::Element(range) => OwnerTy::Element(*range),
        }
    }
}

impl View for LuaMemberIndexItem {
    type V = ItemTy;

    open spec fn view(&self) -> ItemTy {
        ItemTy { key: self.key@, types: types::tys(self.types@) }
    }
}

pub open spec fn item_tys(s: Seq<LuaMemberIndexItem>) -> Seq<ItemTy> {
    Seq::new(s.len(), |i: int| s[i]@)
}

impl View for LuaSignature {
    type V = SignatureTy;

    open spec fn view(&self) -> SignatureTy {
        SignatureTy { function: self.function@, overloads: function_tys(self.overloads@) }
    }
}

/// The names of a namespace, each with the type or the namespace that it stands for.
pub open spec fn child_tys(s: Seq<(String, LuaType)>) -> Seq<(Seq<char>, Ty)> {
    Seq::new(s.len(), |i: int| (s[i].0@, s[i].1@))
}

impl View for IndexTables {
    type V = TablesTy;

    open spec fn view(&self) -> TablesTy {
        TablesTy {
            type_decls: Seq::new(
                self.type_decls@.len(),
                |i: int| (self.type_decls@[i].0@, self.type_decls@[i].1@),
            ),
            owners: Seq::new(
                self.owners@.len(),
                |i: int| (self.owners@[i].owner@, item_tys(self.owners@[i].items@)),
            ),
            modules: Seq::new(
                self.modules@.len(),
                |i: int| (self.modules@[i].0, types::opt_ty(self.modules@[i].1)),
            ),
            signatures: Seq::new(
                self.signatures@.len(),
                |i: int| (self.signatures@[i].id, self.signatures@[i]@),
            ),
            table_calls: Seq::new(
                self.table_calls@.len(),
                |i: int| (self.table_calls@[i].0, function_tys(self.table_calls@[i].1@)),
            ),
            metatables: Seq::new(
                self.metatables@.len(),
                |i: int| (self.metatables@[i].0, types::pair_tys(self.metatables@[i].1@)),
            ),
            globals: Seq::new(
                self.globals@.len(),
                |i: int| (self.globals@[i].0@, types::opt_ty(self.globals@[i].1)),
            ),
            namespaces: Seq::new(
                self.namespaces@.len(),
                |i: int| (self.namespaces@[i].0@, child_tys(self.namespaces@[i].1@)),
            ),
            strict_array_index: self.strict_array_index,
        }
    }
}

impl View for DbIndex {
    type V = DbTy;

    closed spec fn view(&self) -> DbTy {
        substitutor::index_at(self.tables@, self.room as nat)
    }
}

/// What an index says comes from its tables and its room alone.
pub proof fn lemma_index(db: DbIndex)
    ensures
        db@ == substitutor::index_at(db.tables@, db.room as nat),
{
}

pub open spec fn global_tys(s: Seq<(String, Option<LuaType>)>) -> Seq<(Seq<char>, Option<Ty>)> {
    Seq::new(s.len(), |i: int| (s[i].0@, types::opt_ty(s[i].1)))
}

/// The value of the first pair whose key is `key`.
pub open spec fn first_value<K, V>(pairs: Seq<(K, V)>, key: K) -> Option<V>
    decreases pairs.len(),
{
    if pairs.len() == 0 {
        None
    } else if pairs[0].0 == key {
        Some(pairs[0].1)
    } else {
        first_value(pairs.skip(1), key)
    }
}

/// What a scan for the first pair with a key finds.
pub proof fn lemma_first_value<K, V>(pairs: Seq<(K, V)>, key: K, i: int)
    requires
        0 <= i <= pairs.len(),
        forall|j: int| 0 <= j < i ==> (#[trigger] pairs[j]).0 != key,
        i < pairs.len() ==> pairs[i].0 == key,
    ensures
        first_value(pairs, key) == (if i < pairs.len() {
            Some(pairs[i].1)
        } else {
            None
        }),
    decreases pairs.len(),
{
    if pairs.len() > 0 && pairs[0].0 != key {
        let rest = pairs.skip(1);
        assert forall|j: int| 0 <= j < i - 1 implies (#[trigger] rest[j]).0 != key by {
            assert(rest[j] == pairs[j + 1]);
        }
        if i < pairs.len() {
            assert(rest[i - 1] == pairs[i]);
        }
        lemma_first_value(rest, key, i - 1);
    }
}

/// The declaration of a type.
pub open spec fn decl_of(db: DbTy, id: Seq<char>) -> Option<DeclTy> {
    first_value(db.type_decls, id)
}

/// The members that belong to an owner.
pub open spec fn items_of(db: DbTy, owner: OwnerTy) -> Seq<ItemTy> {
    match first_value(db.owners, owner) {
        Some(items) => items,
        None => Seq::empty(),
    }
}

/// The type that a module exports.
pub open spec fn export_of(db: DbTy, file: FileId) -> Option<Ty> {
    match first_value(db.modules, file) {
        Some(export) => export,
        None => None,
    }
}

pub open spec fn signature_of(db: DbTy, id: LuaSignatureId) -> Option<SignatureTy> {
    first_value(db.signatures, id)
}

/// The call operators of the metatable of a table literal.
pub open spec fn table_calls_of(db: DbTy, range: InFiled) -> Seq<FunctionTy> {
    match first_value(db.table_calls, range) {
        Some(calls) => calls,
        None => Seq::empty(),
    }
}

/// The names of a namespace.
pub open spec fn namespace_of(db: DbTy, name: Seq<char>) -> Seq<(Seq<char>, Ty)> {
    match first_value(db.namespaces, name) {
        Some(children) => children,
        None => Seq::empty(),
    }
}

/// The place of the first member with the key `key`.
pub open spec fn find_item(items: Seq<ItemTy>, key: KeyTy) -> Option<ItemTy>
    decreases items.len(),
{
    if items.len() == 0 {
        None
    } else if equality::key_eq(items[0].key, key) {
        Some(items[0])
    } else {
        find_item(items.skip(1), key)
    }
}

// ----------------------------------------------------------------------------
// Combining types.

/// The union of two types: `never` adds nothing and `any` takes in everything.
pub open spec fn union_ty(a: Ty, b: Ty) -> Ty {
    if a is Any || b is Any {
        Ty::Any
    } else if a is Never {
        b
    } else if b is Never {
        a
    } else {
        predicates::ty_from_list(seq![a, b])
    }
}

/// The union of all types of a list.
pub open spec fn union_all_ty(types: Seq<Ty>) -> Ty
    decreases types.len(),
{
    if types.len() == 0 {
        Ty::Never
    } else {
        union_ty(union_all_ty(types.drop_last()), types.last())
    }
}

/// What two types of the same member have in common.
pub open spec fn intersect_ty(a: Ty, b: Ty) -> Ty {
    if equality::ty_eq(a, b) {
        a
    } else if a is Any || a is Unknown {
        b
    } else if b is Any || b is Unknown {
        a
    } else if a is Never || b is Never {
        Ty::Never
    } else {
        match (a, b) {
            (Ty::Union(x), _) => intersect_members(
                complex::union_tys(*x),
                predicates::members_of(b),
            ),
            (_, Ty::Union(y)) => intersect_members(
                seq![a],
                complex::union_tys(*y),
            ),
            _ => if is_plain(a) && is_plain(b) {
                Ty::Never
            } else {
                Ty::Intersection(seq![a, b])
            },
        }
    }
}

/// A type whose values are of one kind, with no members that another type could add to.
pub open spec fn is_plain(t: Ty) -> bool {
    match t {
        Ty::Nil | Ty::Boolean | Ty::String | Ty::Integer | Ty::Number | Ty::Thread => true,
        Ty::BooleanConst(_) | Ty::StringConst(_) | Ty::IntegerConst(_) | Ty::FloatConst(_) => true,
        Ty::DocStringConst(_) | Ty::DocIntegerConst(_) | Ty::DocBooleanConst(_) => true,
        _ => false,
    }
}

/// The union of those types of `a` that `b` holds too.
pub open spec fn intersect_members(a: Seq<Ty>, b: Seq<Ty>) -> Ty
    decreases a.len(),
{
    if a.len() == 0 {
        Ty::Never
    } else {
        let front = intersect_members(a.drop_last(), b);
        if equality::holds_ty(b, a.last()) {
            union_ty(front, a.last())
        } else {
            front
        }
    }
}

/// The type without the members that are the same as a type that is taken away.
pub open spec fn remove_ty(a: Ty, b: Ty) -> Ty {
    match a {
        Ty::Union(u) => {
            let kept = removed(
                complex::union_tys(*u),
                predicates::members_of(b),
            );
            if kept.len() == 0 {
                Ty::Never
            } else {
                predicates::ty_from_list(kept)
            }
        },
        _ => if equality::holds_ty(predicates::members_of(b), a) {
            Ty::Never
        } else {
            a
        },
    }
}

/// The types of `a` that `b` does not hold.
pub open spec fn removed(a: Seq<Ty>, b: Seq<Ty>) -> Seq<Ty>
    decreases a.len(),
{
    if a.len() == 0 {
        Seq::empty()
    } else if equality::holds_ty(b, a.last()) {
        removed(a.drop_last(), b)
    } else {
        removed(a.drop_last(), b).push(a.last())
    }
}

/// Ways to combine two types.
pub enum TypeOps {
    Union,
    Intersect,
    Remove,
}

/// What a way of combining makes of two types.
pub open spec fn combined_ty(op: TypeOps, a: Ty, b: Ty) -> Ty {
    match op {
        TypeOps::Union => union_ty(a, b),
        TypeOps::Intersect => intersect_ty(a, b),
        TypeOps::Remove => remove_ty(a, b),
    }
}

/// The union of a type with `never` is the type itself.
pub proof fn union_with_never(t: Ty)
    ensures
        union_ty(t, Ty::Never) == t,
        union_ty(Ty::Never, t) == t,
{
}

impl TypeOps {
    pub fn apply(&self, a: &LuaType, b: &LuaType) -> (r: LuaType)
        ensures
            r@ == combined_ty(*self, a@, b@),
    {
        match self {
            TypeOps::Union => TypeOps::union(a, b),
            TypeOps::Intersect => TypeOps::intersect(a, b),
            TypeOps::Remove => TypeOps::remove(a, b),
        }
    }

    pub fn union(a: &LuaType, b: &LuaType) -> (r: LuaType)
        ensures
            r@ == union_ty(a@, b@),
    {
        if a.is_any() || b.is_any() {
            LuaType::Any
        } else if a.is_never() {
            b.clone()
        } else if b.is_never() {
            a.clone()
        } else {
            let mut types: Vec<LuaType> = Vec::new();
            types.push(a.clone());
            types.push(b.clone());
            assert(types::tys(types@) =~= seq![a@, b@]);
            LuaType::from_vec(types)
        }
    }

    pub fn union_all(types: &Vec<LuaType>) -> (r: LuaType)
        ensures
            r@ == union_all_ty(types::tys(types@)),
    {
        let ghost all = types::tys(types@);
        let mut result = LuaType::Never;
        let mut i: usize = 0;
        assert(all.take(0) =~= Seq::<Ty>::empty());
        while i < types.len()
            invariant
                i <= types@.len(),
                all == types::tys(types@),
                result@ == union_all_ty(all.take(i as int)),
            decreases types@.len() - i,
        {
            proof {
                assert(all.take(i + 1).drop_last() =~= all.take(i as int));
                assert(all.take(i + 1).last() == all[i as int]);
                assert(all[i as int] == types@[i as int]@);
            }
            result = TypeOps::union(&result, &types[i]);
            i += 1;
        }
        assert(all.take(i as int) =~= all);
        result
    }

    fn keeps_plain(t: &LuaType) -> (r: bool)
        ensures
            r == is_plain(t@),
    {
        matches!(
            t,
            LuaType::Nil | LuaType::Boolean | LuaType::String | LuaType::Integer | LuaType::Number
            | LuaType::Thread | LuaType::BooleanConst(_) | LuaType::StringConst(_)
            | LuaType::IntegerConst(_) | LuaType::FloatConst(_) | LuaType::DocStringConst(_)
            | LuaType::DocIntegerConst(_) | LuaType::DocBooleanConst(_)
        )
    }

    pub fn intersect(a: &LuaType, b: &LuaType) -> (r: LuaType)
        ensures
            r@ == intersect_ty(a@, b@),
    {
        if a.same(b) {
            return a.clone();
        }
        if a.is_any() || a.is_unknown() {
            return b.clone();
        }
        if b.is_any() || b.is_unknown() {
            return a.clone();
        }
        if a.is_never() || b.is_never() {
            return LuaType::Never;
        }
        if a.is_union() || b.is_union() {
            let left = list_members(a);
            let right = list_members(b);
            return common_members(&left, &right);
        }
        if TypeOps::keeps_plain(a) && TypeOps::keeps_plain(b) {
            return LuaType::Never;
        }
        let mut types: Vec<LuaType> = Vec::new();
        types.push(a.clone());
        types.push(b.clone());
        assert(types::tys(types@) =~= seq![a@, b@]);
        LuaType::Intersection(Arc::new(crate::types::LuaIntersectionType::new(types)))
    }

    pub fn remove(a: &LuaType, b: &LuaType) -> (r: LuaType)
        ensures
            r@ == remove_ty(a@, b@),
    {
        let taken = list_members(b);
        match a {
            LuaType::Union(u) => {
                let members = u.into_vec();
                let ghost all = types::tys(members@);
                let mut kept: Vec<LuaType> = Vec::new();
                let mut i: usize = 0;
                proof {
                    assert(all.take(0) =~= Seq::<Ty>::empty());
                    assert(types::tys(kept@) =~= Seq::<Ty>::empty());
                }
                while i < members.len()
                    invariant
                        i <= members@.len(),
                        all == types::tys(members@),
                        types::tys(kept@) == removed(all.take(i as int), types::tys(taken@)),
                    decreases members@.len() - i,
                {
                    proof {
                        assert(all.take(i + 1).drop_last() =~= all.take(i as int));
                        assert(all.take(i + 1).last() == all[i as int]);
                        assert(all[i as int] == members@[i as int]@);
                    }
                    if !crate::types::equality::holds_same(&taken, &members[i]) {
                        let ghost before = types::tys(kept@);
                        kept.push(members[i].clone());
                        assert(types::tys(kept@) =~= before.push(all[i as int]));
                    }
                    i += 1;
                }
                assert(all.take(i as int) =~= all);
                if kept.len() == 0 {
                    LuaType::Never
                } else {
                    LuaType::from_vec(kept)
                }
            },
            _ => if crate::types::equality::holds_same(&taken, a) {
                LuaType::Never
            } else {
                a.clone()
            },
        }
    }
}

/// The members of a union; any other type is its own single member.
pub fn list_members(t: &LuaType) -> (r: Vec<LuaType>)
    ensures
        types::tys(r@) == predicates::members_of(t@),
{
    match t {
        LuaType::Union(u) => u.into_vec(),
        _ => {
            let mut r: Vec<LuaType> = Vec::new();
            r.push(t.clone());
            assert(types::tys(r@) =~= seq![t@]);
            r
        },
    }
}

fn common_members(a: &Vec<LuaType>, b: &Vec<LuaType>) -> (r: LuaType)
    ensures
        r@ == intersect_members(types::tys(a@), types::tys(b@)),
{
    let ghost all = types::tys(a@);
    let mut result = LuaType::Never;
    let mut i: usize = 0;
    assert(all.take(0) =~= Seq::<Ty>::empty());
    while i < a.len()
        invariant
            i <= a@.len(),
            all == types::tys(a@),
            result@ == intersect_members(all.take(i as int), types::tys(b@)),
        decreases a@.len() - i,
    {
        proof {
            assert(all.take(i + 1).drop_last() =~= all.take(i as int));
            assert(all.take(i + 1).last() == all[i as int]);
            assert(all[i as int] == a@[i as int]@);
        }
        if crate::types::equality::holds_same(b, &a[i]) {
            result = TypeOps::union(&result, &a[i]);
        }
        i += 1;
    }
    assert(all.take(i as int) =~= all);
    result
}

/// The type of a member: what its declarations say together.
pub open spec fn item_type(item: ItemTy) -> Option<Ty> {
    if item.types.len() == 0 {
        None
    } else if item.types.len() == 1 {
        Some(item.types[0])
    } else {
        Some(union_all_ty(item.types))
    }
}

impl LuaMemberIndexItem {
    pub fn resolve_type(&self) -> (r: Option<LuaType>)
        ensures
            types::opt_ty(r) == item_type(self@),
    {
        if self.types.len() == 0 {
            return None;
        }
        if self.types.len() == 1 {
            assert(types::tys(self.types@)[0] == self.types@[0]@);
            return Some(self.types[0].clone());
        }
        Some(TypeOps::union_all(&self.types))
    }
}

impl LuaMemberOwner {
    pub fn same(&self, other: &LuaMemberOwner) -> (r: bool)
        ensures
            r == (self@ == other@),
    {
        match (self, other) {
            (LuaMemberOwner::Type(a), LuaMemberOwner::Type(b)) => a.same(b),
            (LuaMemberOwner::Element(a), LuaMemberOwner::Element(b)) => *a == *b,
            _ => false,
        }
    }
}

impl LuaTypeDecl {
    pub fn is_alias(&self) -> (r: bool)
        ensures
            r == (self@.kind is Alias),
    {
        matches!(self.kind, LuaDeclKind::Alias)
    }

    pub fn is_class(&self) -> (r: bool)
        ensures
            r == (self@.kind is Class),
    {
        matches!(self.kind, LuaDeclKind::Class)
    }

    pub fn is_enum(&self) -> (r: bool)
        ensures
            r == (self@.kind is Enum),
    {
        matches!(self.kind, LuaDeclKind::Enum)
    }

    pub fn get_alias_ref(&self) -> (r: Option<&LuaType>)
        ensures
            complex::opt_ref_ty(r) == self@.alias_ref,
    {
        match &self.alias_ref {
            Some(t) => Some(t),
            None => None,
        }
    }
}

impl IndexTables {
    /// Tables without entries.
    pub fn new() -> (r: Self)
        ensures
            r@.type_decls.len() == 0,
            r@.owners.len() == 0,
            r@.modules.len() == 0,
            r@.signatures.len() == 0,
            r@.table_calls.len() == 0,
            r@.metatables.len() == 0,
            r@.globals.len() == 0,
            r@.namespaces.len() == 0,
            !r@.strict_array_index,
    {
        IndexTables {
            type_decls: Vec::new(),
            owners: Vec::new(),
            modules: Vec::new(),
            signatures: Vec::new(),
            table_calls: Vec::new(),
            metatables: Vec::new(),
            globals: Vec::new(),
            namespaces: Vec::new(),
            strict_array_index: false,
        }
    }
}

impl DbIndex {
    /// An index without declarations.
    pub fn new() -> (r: Self)
        ensures
            r@.type_decls.len() == 0,
            r@.owners.len() == 0,
            r@.modules.len() == 0,
            r@.signatures.len() == 0,
            r@.table_calls.len() == 0,
            r@.metatables.len() == 0,
            r@.globals.len() == 0,
            r@.namespaces.len() == 0,
            !r@.strict_array_index,
            r@.room == OPERATOR_DEPTH,
    {
        DbIndex { tables: Arc::new(IndexTables::new()), room: OPERATOR_DEPTH }
    }

    /// An index with the given tables.
    pub fn from_tables(tables: IndexTables) -> (r: Self)
        ensures
            r@ == substitutor::index_at(tables@, OPERATOR_DEPTH as nat),
            r@.room == OPERATOR_DEPTH,
    {
        DbIndex { tables: Arc::new(tables), room: OPERATOR_DEPTH }
    }

    /// The same index for what stands inside an operator, where there is room for it.
    pub fn deeper(&self) -> (r: Option<DbIndex>)
        ensures
            match r {
                Some(inner) => self@.room > 0 && inner.tables == self.tables && inner@ == substitutor::index_at(
                    self.tables@,
                    (self@.room - 1) as nat,
                ),
                None => self@.room == 0,
            },
    {
        if self.room == 0 {
            None
        } else {
            Some(DbIndex { tables: Arc::clone(&self.tables), room: self.room - 1 })
        }
    }

    pub fn decl_count(&self) -> (r: usize)
        ensures
            r == self@.type_decls.len(),
    {
        self.tables.type_decls.len()
    }

    pub fn module_count(&self) -> (r: usize)
        ensures
            r == self@.modules.len(),
    {
        self.tables.modules.len()
    }

    pub fn is_strict_array_index(&self) -> (r: bool)
        ensures
            r == self@.strict_array_index,
    {
        self.tables.strict_array_index
    }

    pub fn get_globals(&self) -> (r: &Vec<(String, Option<LuaType>)>)
        ensures
            global_tys(r@) == self@.globals,
    {
        assert(global_tys(self.tables.globals@) =~= self@.globals);
        &self.tables.globals
    }

    pub fn get_type_decl(&self, id: &LuaTypeDeclId) -> (r: Option<&LuaTypeDecl>)
        ensures
            (match r {
                Some(decl) => Some(decl@),
                None => None,
            }) == decl_of(self@, id@),
    {
        let ghost all = self@.type_decls;
        let mut i: usize = 0;
        while i < self.tables.type_decls.len()
            invariant
                i <= self.tables.type_decls@.len(),
                all == self@.type_decls,
                forall|j: int| 0 <= j < i ==> (#[trigger] all[j]).0 != id@,
            decreases self.tables.type_decls@.len() - i,
        {
            if self.tables.type_decls[i].0.same(id) {
                proof {
                    lemma_first_value(all, id@, i as int);
                }
                return Some(&self.tables.type_decls[i].1);
            }
            i += 1;
        }
        proof {
            lemma_first_value(all, id@, i as int);
        }
        None
    }

    /// The members of an owner; none where the owner is not known.
    pub fn get_owner_members(&self, owner: &LuaMemberOwner) -> (r: Option<&LuaOwnerMembers>)
        ensures
            (match r {
                Some(members) => item_tys(members.items@),
                None => Seq::empty(),
            }) == items_of(self@, owner@),
    {
        let ghost all = self@.owners;
        let mut i: usize = 0;
        while i < self.tables.owners.len()
            invariant
                i <= self.tables.owners@.len(),
                all == self@.owners,
                forall|j: int| 0 <= j < i ==> (#[trigger] all[j]).0 != owner@,
            decreases self.tables.owners@.len() - i,
        {
            if self.tables.owners[i].owner.same(owner) {
                proof {
                    lemma_first_value(all, owner@, i as int);
                }
                return Some(&self.tables.owners[i]);
            }
            i += 1;
        }
        proof {
            lemma_first_value(all, owner@, i as int);
        }
        None
    }

    /// What indexing a table with a metatable yields.
    pub fn get_metatable(&self, range: InFiled) -> (r: Option<&Vec<(LuaType, LuaType)>>)
        ensures
            (match r {
                Some(operators) => Some(types::pair_tys(operators@)),
                None => None,
            }) == first_value(self@.metatables, range),
    {
        let ghost all = self@.metatables;
        let mut i: usize = 0;
        while i < self.tables.metatables.len()
            invariant
                i <= self.tables.metatables@.len(),
                all == self@.metatables,
                forall|j: int| 0 <= j < i ==> (#[trigger] all[j]).0 != range,
            decreases self.tables.metatables@.len() - i,
        {
            if self.tables.metatables[i].0 == range {
                proof {
                    lemma_first_value(all, range, i as int);
                }
                return Some(&self.tables.metatables[i].1);
            }
            i += 1;
        }
        proof {
            lemma_first_value(all, range, i as int);
        }
        None
    }

    /// A module: what it exports, where that is known.
    pub fn get_module(&self, file_id: FileId) -> (r: Option<&Option<LuaType>>)
        ensures
            (match r {
                Some(export) => Some(types::opt_ty(*export)),
                None => None,
            }) == first_value(self@.modules, file_id),
    {
        let ghost all = self@.modules;
        let mut i: usize = 0;
        while i < self.tables.modules.len()
            invariant
                i <= self.tables.modules@.len(),
                all == self@.modules,
                forall|j: int| 0 <= j < i ==> (#[trigger] all[j]).0 != file_id,
            decreases self.tables.modules@.len() - i,
        {
            if self.tables.modules[i].0 == file_id {
                proof {
                    lemma_first_value(all, file_id, i as int);
                }
                return Some(&self.tables.modules[i].1);
            }
            i += 1;
        }
        proof {
            lemma_first_value(all, file_id, i as int);
        }
        None
    }

    /// A global variable: its type, where that is known.
    pub fn get_global(&self, name: &String) -> (r: Option<&Option<LuaType>>)
        ensures
            (match r {
                Some(t) => Some(types::opt_ty(*t)),
                None => None,
            }) == first_value(self@.globals, name@),
    {
        let ghost all = self@.globals;
        let mut i: usize = 0;
        while i < self.tables.globals.len()
            invariant
                i <= self.tables.globals@.len(),
                all == self@.globals,
                forall|j: int| 0 <= j < i ==> (#[trigger] all[j]).0 != name@,
            decreases self.tables.globals@.len() - i,
        {
            if text_is(&self.tables.globals[i].0, name.as_str()) {
                proof {
                    lemma_first_value(all, name@, i as int);
                }
                return Some(&self.tables.globals[i].1);
            }
            i += 1;
        }
        proof {
            lemma_first_value(all, name@, i as int);
        }
        None
    }

    pub fn get_export_type(&self, file_id: FileId) -> (r: Option<&LuaType>)
        ensures
            complex::opt_ref_ty(r) == export_of(self@, file_id),
    {
        let ghost all = self@.modules;
        let mut i: usize = 0;
        while i < self.tables.modules.len()
            invariant
                i <= self.tables.modules@.len(),
                all == self@.modules,
                forall|j: int| 0 <= j < i ==> (#[trigger] all[j]).0 != file_id,
            decreases self.tables.modules@.len() - i,
        {
            if self.tables.modules[i].0 == file_id {
                proof {
                    lemma_first_value(all, file_id, i as int);
                }
                return match &self.tables.modules[i].1 {
                    Some(t) => Some(t),
                    None => None,
                };
            }
            i += 1;
        }
        proof {
            lemma_first_value(all, file_id, i as int);
        }
        None
    }

    pub fn get_signature(&self, id: LuaSignatureId) -> (r: Option<&LuaSignature>)
        ensures
            (match r {
                Some(signature) => Some(signature@),
                None => None,
            }) == signature_of(self@, id),
    {
        let ghost all = self@.signatures;
        let mut i: usize = 0;
        while i < self.tables.signatures.len()
            invariant
                i <= self.tables.signatures@.len(),
                all == self@.signatures,
                forall|j: int| 0 <= j < i ==> (#[trigger] all[j]).0 != id,
            decreases self.tables.signatures@.len() - i,
        {
            if self.tables.signatures[i].id == id {
                proof {
                    lemma_first_value(all, id, i as int);
                }
                return Some(&self.tables.signatures[i]);
            }
            i += 1;
        }
        proof {
            lemma_first_value(all, id, i as int);
        }
        None
    }

    /// The names of a namespace; none where it is not known.
    pub fn get_namespace(&self, name: &String) -> (r: Option<&Vec<(String, LuaType)>>)
        ensures
            (match r {
                Some(children) => child_tys(children@),
                None => Seq::empty(),
            }) == namespace_of(self@, name@),
    {
        let ghost all = self@.namespaces;
        let mut i: usize = 0;
        while i < self.tables.namespaces.len()
            invariant
                i <= self.tables.namespaces@.len(),
                all == self@.namespaces,
                forall|j: int| 0 <= j < i ==> (#[trigger] all[j]).0 != name@,
            decreases self.tables.namespaces@.len() - i,
        {
            if self.tables.namespaces[i].0 == *name {
                proof {
                    lemma_first_value(all, name@, i as int);
                }
                return Some(&self.tables.namespaces[i].1);
            }
            i += 1;
        }
        proof {
            lemma_first_value(all, name@, i as int);
        }
        None
    }

    /// The call operators of the metatable of a table literal.
    pub fn get_table_calls(&self, range: InFiled) -> (r: Vec<Arc<LuaFunctionType>>)
        ensures
            function_tys(r@) == table_calls_of(self@, range),
    {
        let ghost all = self@.table_calls;
        let mut i: usize = 0;
        while i < self.tables.table_calls.len()
            invariant
                i <= self.tables.table_calls@.len(),
                all == self@.table_calls,
                forall|j: int| 0 <= j < i ==> (#[trigger] all[j]).0 != range,
            decreases self.tables.table_calls@.len() - i,
        {
            if self.tables.table_calls[i].0 == range {
                proof {
                    lemma_first_value(all, range, i as int);
                }
                return clone_functions(&self.tables.table_calls[i].1);
            }
            i += 1;
        }
        proof {
            lemma_first_value(all, range, i as int);
        }
        let r: Vec<Arc<LuaFunctionType>> = Vec::new();
        assert(function_tys(r@) =~= Seq::<FunctionTy>::empty());
        r
    }
}

pub fn clone_functions(functions: &Vec<Arc<LuaFunctionType>>) -> (r: Vec<Arc<LuaFunctionType>>)
    ensures
        r@ == functions@,
{
    let mut r: Vec<Arc<LuaFunctionType>> = Vec::new();
    let mut i: usize = 0;
    while i < functions.len()
        invariant
            i <= functions@.len(),
            r@ == functions@.take(i as int),
        decreases functions@.len() - i,
    {
        r.push(functions[i].clone());
        i += 1;
    }
    assert(functions@.take(i as int) =~= functions@);
    r
}

/// The place of the first member with a key, or the number of members.
pub fn item_index(items: &Vec<LuaMemberIndexItem>, key: &LuaMemberKey) -> (r: usize)
    ensures
        r <= items@.len(),
        find_item(item_tys(items@), key@) == (if r < items@.len() {
            Some(items@[r as int]@)
        } else {
            None
        }),
{
    let ghost all = item_tys(items@);
    let mut i: usize = 0;
    assert(all.skip(0) =~= all);
    while i < items.len()
        invariant
            i <= items@.len(),
            all == item_tys(items@),
            find_item(all, key@) == find_item(all.skip(i as int), key@),
        decreases items@.len() - i,
    {
        proof {
            assert(all.skip(i as int)[0] == all[i as int]);
            assert(all.skip(i as int).skip(1) =~= all.skip(i + 1));
        }
        if items[i].key.same(key) {
            return i;
        }
        i += 1;
    }
    i
}

// ----------------------------------------------------------------------------
// Built-in types and inheritance.

/// The name of the declared type that holds what is known of a built-in type.
pub open spec fn base_type_name(t: Ty) -> Option<Seq<char>> {
    match t {
        Ty::Integer | Ty::IntegerConst(_) | Ty::DocIntegerConst(_) => Some("integer"@),
        Ty::Number | Ty::FloatConst(_) => Some("number"@),
        Ty::Boolean | Ty::BooleanConst(_) | Ty::DocBooleanConst(_) => Some("boolean"@),
        Ty::String | Ty::StringConst(_) | Ty::DocStringConst(_) => Some("string"@),
        Ty::Table => Some("table"@),
        Ty::Function => Some("function"@),
        Ty::Thread => Some("thread"@),
        Ty::Userdata => Some("userdata"@),
        Ty::Io => Some("io"@),
        Ty::Global => Some("global"@),
        Ty::Nil => Some("nil"@),
        Ty::Any => Some("any"@),
        _ => None,
    }
}

pub fn get_base_type_id(t: &LuaType) -> (r: Option<LuaTypeDeclId>)
    ensures
        (match r {
            Some(id) => Some(id@),
            None => None,
        }) == base_type_name(t@),
{
    match t {
        LuaType::Integer | LuaType::IntegerConst(_) | LuaType::DocIntegerConst(_) => Some(
            LuaTypeDeclId::global("integer"),
        ),
        LuaType::Number | LuaType::FloatConst(_) => Some(LuaTypeDeclId::global("number")),
        LuaType::Boolean | LuaType::BooleanConst(_) | LuaType::DocBooleanConst(_) => Some(
            LuaTypeDeclId::global("boolean"),
        ),
        LuaType::String | LuaType::StringConst(_) | LuaType::DocStringConst(_) => Some(
            LuaTypeDeclId::global("string"),
        ),
        LuaType::Table => Some(LuaTypeDeclId::global("table")),
        LuaType::Function => Some(LuaTypeDeclId::global("function")),
        LuaType::Thread => Some(LuaTypeDeclId::global("thread")),
        LuaType::Userdata => Some(LuaTypeDeclId::global("userdata")),
        LuaType::Io => Some(LuaTypeDeclId::global("io")),
        LuaType::Global => Some(LuaTypeDeclId::global("global")),
        LuaType::Nil => Some(LuaTypeDeclId::global("nil")),
        LuaType::Any => Some(LuaTypeDeclId::global("any")),
        _ => None,
    }
}

/// The name of the declared type whose members a value of a built-in type has.
pub open spec fn member_type_name(t: Ty) -> Option<Seq<char>> {
    match t {
        Ty::String | Ty::StringConst(_) | Ty::DocStringConst(_) | Ty::Language(_) => Some(
            "string"@,
        ),
        Ty::Io => Some("io"@),
        _ => None,
    }
}

pub fn get_buildin_type_map_type_id(t: &LuaType) -> (r: Option<LuaTypeDeclId>)
    ensures
        (match r {
            Some(id) => Some(id@),
            None => None,
        }) == member_type_name(t@),
{
    match t {
        LuaType::String
        | LuaType::StringConst(_)
        | LuaType::DocStringConst(_)
        | LuaType::Language(_) => Some(LuaTypeDeclId::global("string")),
        LuaType::Io => Some(LuaTypeDeclId::global("io")),
        _ => None,
    }
}

/// Whether a declared type is another one or inherits from it, over at most `depth` steps.
pub open spec fn inherits(db: DbTy, sub: Seq<char>, base: Seq<char>, depth: nat) -> bool
    decreases depth, 0nat,
{
    if sub == base {
        true
    } else if depth == 0 {
        false
    } else {
        match decl_of(db, sub) {
            Some(decl) => exists|i: int|
                0 <= i < decl.super_types.len() && super_inherits(
                    db,
                    #[trigger] decl.super_types[i],
                    base,
                    (depth - 1) as nat,
                ),
            None => false,
        }
    }
}

pub open spec fn super_inherits(db: DbTy, t: Ty, base: Seq<char>, depth: nat) -> bool
    decreases depth, 1nat,
{
    match t {
        Ty::Ref(id) => inherits(db, id, base, depth),
        Ty::Def(id) => inherits(db, id, base, depth),
        Ty::Generic(g) => inherits(db, g.base, base, depth),
        _ => base_type_name(t) == Some(base),
    }
}

/// Whether a declared type is another one or inherits from it.
pub fn is_sub_type_of(db: &DbIndex, sub: &LuaTypeDeclId, base: &LuaTypeDeclId) -> (r: bool)
    ensures
        r == inherits(db@, sub@, base@, db@.type_decls.len()),
{
    inherits_within(db, sub, base, db.tables.type_decls.len())
}

#[verifier::loop_isolation(false)]
fn inherits_within(db: &DbIndex, sub: &LuaTypeDeclId, base: &LuaTypeDeclId, depth: usize) -> (r:
    bool)
    ensures
        r == inherits(db@, sub@, base@, depth as nat),
    decreases depth,
{
    if sub.same(base) {
        return true;
    }
    if depth == 0 {
        return false;
    }
    match db.get_type_decl(sub) {
        Some(decl) => {
            let ghost all = types::tys(decl.super_types@);
            let mut i: usize = 0;
            while i < decl.super_types.len()
                invariant
                    i <= decl.super_types@.len(),
                    depth > 0,
                    all == types::tys(decl.super_types@),
                    forall|j: int|
                        0 <= j < i ==> !super_inherits(
                            db@,
                            #[trigger] all[j],
                            base@,
                            (depth - 1) as nat,
                        ),
                decreases decl.super_types@.len() - i,
            {
                assert(all[i as int] == decl.super_types@[i as int]@);
                let found = match &decl.super_types[i] {
                    LuaType::Ref(id) => inherits_within(db, id, base, depth - 1),
                    LuaType::Def(id) => inherits_within(db, id, base, depth - 1),
                    LuaType::Generic(g) => inherits_within(
                        db,
                        g.get_base_type_id_ref(),
                        base,
                        depth - 1,
                    ),
                    t => match get_base_type_id(t) {
                        Some(id) => id.same(base),
                        None => false,
                    },
                };
                if found {
                    assert(super_inherits(db@, all[i as int], base@, (depth - 1) as nat));
                    assert(decl@.super_types == all);
                    assert(exists|k: int|
                        0 <= k < decl@.super_types.len() && super_inherits(
                            db@,
                            #[trigger] decl@.super_types[k],
                            base@,
                            (depth - 1) as nat,
                        ));
                    assert(decl_of(db@, sub@) == Some(decl@));
                    assert(inherits(db@, sub@, base@, depth as nat));
                    return true;
                }
                i += 1;
            }
            false
        },
        None => false,
    }
}

} // verus!
