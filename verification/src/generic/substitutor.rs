//! Putting types in the place of templates.

use std::sync::Arc;
use vstd::prelude::*;

use crate::{db, types};
use crate::db::{DbIndex, DbTy, TablesTy};
use crate::generic::{conditional, instantiate, special};
use crate::generic::instantiate::instantiate_conditional_type;
use crate::generic::special::instantiate_alias_call;
use crate::types::{
    ArrayTy, CallTy, ConditionalTy, FunctionTy, GenericParam, GenericTplId, GenericTy, InstanceTy,
    KeyTy, LuaAliasCallType, LuaArrayType, LuaConditionalType, LuaFunctionType, LuaGenericType,
    LuaInstanceType, LuaIntersectionType, LuaMappedType, LuaMemberKey, LuaMultiLineUnion,
    LuaObjectType, LuaTupleType, LuaType, LuaUnionType, MappedTy, ObjectTy, TplTy, TupleTy, Ty,
    UnionTy, VariadicTy, VariadicType, complex, predicates,
};
use crate::types::complex::clone_tpls;

verus! {

/// Types to be put in the place of templates.
#[derive(Debug)]
pub struct TypeSubstitutor {
    entries: Vec<(GenericTplId, LuaType)>,
}

impl View for TypeSubstitutor {
    type V = Seq<(GenericTplId, Ty)>;

    closed spec fn view(&self) -> Seq<(GenericTplId, Ty)> {
        Seq::new(self.entries@.len(), |i: int| (self.entries@[i].0, self.entries@[i].1@))
    }
}

/// The arguments of a generic type, each for the type template of its place.
pub open spec fn args_subst(args: Seq<Ty>) -> Seq<(GenericTplId, Ty)> {
    Seq::new(args.len(), |i: int| (GenericTplId::Type(i as u32), args[i]))
}

/// The substitution with `t` in the place of `id`, whatever it held there.
pub open spec fn with_binding(
    m: Seq<(GenericTplId, Ty)>,
    id: GenericTplId,
    t: Ty,
) -> Seq<(GenericTplId, Ty)>
    decreases m.len(),
{
    if m.len() == 0 {
        seq![(id, t)]
    } else if m[0].0 == id {
        seq![(id, t)] + m.skip(1)
    } else {
        seq![m[0]] + with_binding(m.skip(1), id, t)
    }
}

proof fn lemma_with_binding(m: Seq<(GenericTplId, Ty)>, id: GenericTplId, t: Ty, i: int)
    requires
        0 <= i <= m.len(),
        forall|j: int| 0 <= j < i ==> (#[trigger] m[j]).0 != id,
        i < m.len() ==> m[i].0 == id,
    ensures
        i < m.len() ==> with_binding(m, id, t) == m.update(i, (id, t)),
        i == m.len() ==> with_binding(m, id, t) == m.push((id, t)),
    decreases m.len(),
{
    if m.len() == 0 {
        assert(with_binding(m, id, t) =~= m.push((id, t)));
    } else if m[0].0 == id {
        assert(with_binding(m, id, t) =~= m.update(0, (id, t)));
    } else {
        let rest = m.skip(1);
        assert forall|j: int| 0 <= j < i - 1 implies (#[trigger] rest[j]).0 != id by {
            assert(rest[j] == m[j + 1]);
        }
        if i < m.len() {
            assert(rest[i - 1] == m[i]);
        }
        lemma_with_binding(rest, id, t, i - 1);
        if i < m.len() {
            assert(with_binding(m, id, t) =~= m.update(i, (id, t)));
        } else {
            assert(with_binding(m, id, t) =~= m.push((id, t)));
        }
    }
}

/// The binding that was put in is the one that is found.
pub proof fn binding_is_found(m: Seq<(GenericTplId, Ty)>, id: GenericTplId, t: Ty)
    ensures
        db::first_value(with_binding(m, id, t), id) == Some(t),
    decreases m.len(),
{
    if m.len() > 0 && m[0].0 != id {
        binding_is_found(m.skip(1), id, t);
        let all = with_binding(m, id, t);
        assert(all.skip(1) =~= with_binding(m.skip(1), id, t));
        assert(all[0] == m[0]);
    }
}

/// An index with the given tables, in which operators on types may stand `room` deep in each other.
pub open spec fn index_at(x: TablesTy, room: nat) -> DbTy
    decreases room, 1nat,
{
    DbTy {
        type_decls: x.type_decls,
        owners: x.owners,
        modules: x.modules,
        signatures: x.signatures,
        table_calls: x.table_calls,
        metatables: x.metatables,
        globals: x.globals,
        namespaces: x.namespaces,
        strict_array_index: x.strict_array_index,
        room,
        eval: |t: Ty, m: Seq<(GenericTplId, Ty)>| instantiated(x, t, m, room),
    }
}

/// The type with the bound types in the place of its templates, its operators and conditions resolved.
/// Where operators stand too deep in each other, they stay.
pub open spec fn instantiated(x: TablesTy, t: Ty, m: Seq<(GenericTplId, Ty)>, room: nat) -> Ty
    decreases room, 0nat, t,
{
    match t {
        Ty::TplRef(tpl) => match db::first_value(m, tpl.tpl_id) {
            Some(bound) => bound,
            None => t,
        },
        Ty::Array(a) => Ty::Array(Box::new(ArrayTy { base: instantiated(x, a.base, m, room), len: a.len })),
        Ty::Tuple(tuple) => Ty::Tuple(
            Box::new(TupleTy { types: instantiated_all(x, tuple.types, m, room), status: tuple.status }),
        ),
        Ty::DocFunction(f) => Ty::DocFunction(
            Box::new(
                FunctionTy {
                    params: instantiated_named(x, f.params, m, room),
                    ret: instantiated(x, f.ret, m, room),
                    async_state: f.async_state,
                    is_colon_define: f.is_colon_define,
                    is_variadic: f.is_variadic,
                    generic_params: f.generic_params,
                },
            ),
        ),
        Ty::Object(o) => Ty::Object(
            Box::new(
                ObjectTy {
                    fields: instantiated_fields(x, o.fields, m, room),
                    index_access: instantiated_pairs(x, o.index_access, m, room),
                },
            ),
        ),
        Ty::Union(u) => match *u {
            UnionTy::Basic(_) => t,
            UnionTy::Nullable(base) => predicates::ty_from_list(
                seq![instantiated(x, base, m, room), Ty::Nil],
            ),
            UnionTy::Multi(types) => predicates::ty_from_list(instantiated_all(x, types, m, room)),
        },
        Ty::Intersection(types) => Ty::Intersection(instantiated_all(x, types, m, room)),
        Ty::Generic(g) => Ty::Generic(
            Box::new(GenericTy { base: g.base, params: instantiated_all(x, g.params, m, room) }),
        ),
        Ty::TableGeneric(params) => Ty::TableGeneric(instantiated_all(x, params, m, room)),
        Ty::Variadic(v) => match *v {
            VariadicTy::Multi(types) => Ty::Variadic(
                Box::new(VariadicTy::Multi(instantiated_all(x, types, m, room))),
            ),
            VariadicTy::Base(each) => match instantiated(x, each, m, room) {
                Ty::Variadic(inner) => Ty::Variadic(inner),
                base => Ty::Variadic(Box::new(VariadicTy::Base(base))),
            },
        },
        Ty::Instance(instance) => Ty::Instance(
            Box::new(InstanceTy { base: instantiated(x, instance.base, m, room), range: instance.range }),
        ),
        Ty::Call(c) => if room == 0 {
            Ty::Call(
                Box::new(
                    CallTy {
                        call_kind: c.call_kind,
                        operand: instantiated_all(x, c.operand, m, room),
                    },
                ),
            )
        } else {
            special::call_type(index_at(x, (room - 1) as nat), *c, m)
        },
        Ty::MultiLineUnion(lines) => Ty::MultiLineUnion(instantiated_lines(x, lines, m, room)),
        Ty::TypeGuard(inner) => Ty::TypeGuard(Box::new(instantiated(x, *inner, m, room))),
        Ty::Conditional(c) => if room == 0 {
            Ty::Conditional(
                Box::new(
                    ConditionalTy {
                        checked_type: instantiated(x, c.checked_type, m, room),
                        extends_type: instantiated(x, c.extends_type, m, room),
                        true_type: instantiated(x, c.true_type, m, room),
                        false_type: instantiated(x, c.false_type, m, room),
                        infer_params: c.infer_params,
                        has_new: c.has_new,
                    },
                ),
            )
        } else {
            instantiate::conditional_type(index_at(x, (room - 1) as nat), *c, m)
        },
        Ty::Mapped(mapped) => Ty::Mapped(
            Box::new(
                MappedTy {
                    tpl_id: mapped.tpl_id,
                    param: mapped.param,
                    value: instantiated(x, mapped.value, m, room),
                    is_readonly: mapped.is_readonly,
                    is_optional: mapped.is_optional,
                },
            ),
        ),
        _ => t,
    }
}

pub open spec fn instantiated_all(
    x: TablesTy,
    types: Seq<Ty>,
    m: Seq<(GenericTplId, Ty)>,
    room: nat,
) -> Seq<Ty>
    decreases room, 0nat, types,
{
    Seq::new(
        types.len(),
        |i: int|
            if 0 <= i < types.len() {
                instantiated(x, types[i], m, room)
            } else {
                Ty::Unknown
            },
    )
}

pub open spec fn instantiated_opt(
    x: TablesTy,
    t: Option<Ty>,
    m: Seq<(GenericTplId, Ty)>,
    room: nat,
) -> Option<Ty>
    decreases room, 0nat, t,
{
    match t {
        Some(t) => Some(instantiated(x, t, m, room)),
        None => None,
    }
}

pub open spec fn instantiated_named(
    x: TablesTy,
    params: Seq<(Seq<char>, Option<Ty>)>,
    m: Seq<(GenericTplId, Ty)>,
    room: nat,
) -> Seq<(Seq<char>, Option<Ty>)>
    decreases room, 0nat, params,
{
    Seq::new(
        params.len(),
        |i: int|
            if 0 <= i < params.len() {
                (params[i].0, instantiated_opt(x, params[i].1, m, room))
            } else {
                arbitrary()
            },
    )
}

pub open spec fn instantiated_fields(
    x: TablesTy,
    fields: Seq<(KeyTy, Ty)>,
    m: Seq<(GenericTplId, Ty)>,
    room: nat,
) -> Seq<(KeyTy, Ty)>
    decreases room, 0nat, fields,
{
    Seq::new(
        fields.len(),
        |i: int|
            if 0 <= i < fields.len() {
                (fields[i].0, instantiated(x, fields[i].1, m, room))
            } else {
                arbitrary()
            },
    )
}

pub open spec fn instantiated_pairs(
    x: TablesTy,
    pairs: Seq<(Ty, Ty)>,
    m: Seq<(GenericTplId, Ty)>,
    room: nat,
) -> Seq<(Ty, Ty)>
    decreases room, 0nat, pairs,
{
    Seq::new(
        pairs.len(),
        |i: int|
            if 0 <= i < pairs.len() {
                (instantiated(x, pairs[i].0, m, room), instantiated(x, pairs[i].1, m, room))
            } else {
                arbitrary()
            },
    )
}

pub open spec fn instantiated_lines(
    x: TablesTy,
    lines: Seq<(Ty, Option<Seq<char>>)>,
    m: Seq<(GenericTplId, Ty)>,
    room: nat,
) -> Seq<(Ty, Option<Seq<char>>)>
    decreases room, 0nat, lines,
{
    Seq::new(
        lines.len(),
        |i: int|
            if 0 <= i < lines.len() {
                (instantiated(x, lines[i].0, m, room), lines[i].1)
            } else {
                arbitrary()
            },
    )
}

impl TypeSubstitutor {
    pub fn new() -> (r: Self)
        ensures
            r@ == Seq::<(GenericTplId, Ty)>::empty(),
    {
        let r = TypeSubstitutor { entries: Vec::new() };
        assert(r@ =~= Seq::<(GenericTplId, Ty)>::empty());
        r
    }

    /// Each argument for the type template of its place.
    pub fn from_type_array(args: &Vec<LuaType>) -> (r: Self)
        ensures
            r@ == args_subst(types::tys(args@)),
    {
        let mut entries: Vec<(GenericTplId, LuaType)> = Vec::new();
        let mut i: usize = 0;
        while i < args.len()
            invariant
                i <= args@.len(),
                entries@.len() == i,
                forall|j: int|
                    0 <= j < i ==> #[trigger] entries@[j] == (
                        GenericTplId::Type(j as u32),
                        args@[j],
                    ),
            decreases args@.len() - i,
        {
            entries.push((GenericTplId::Type(i as u32), args[i].clone()));
            i += 1;
        }
        let r = TypeSubstitutor { entries };
        assert(r@ =~= args_subst(types::tys(args@)));
        r
    }

    /// The type bound to a template.
    pub fn resolve_type(&self, id: GenericTplId) -> (r: Option<&LuaType>)
        ensures
            complex::opt_ref_ty(r) == db::first_value(self@, id),
    {
        let ghost all = self@;
        let mut i: usize = 0;
        while i < self.entries.len()
            invariant
                i <= self.entries@.len(),
                all == self@,
                forall|j: int| 0 <= j < i ==> (#[trigger] all[j]).0 != id,
            decreases self.entries@.len() - i,
        {
            if self.entries[i].0 == id {
                proof {
                    db::lemma_first_value(all, id, i as int);
                }
                return Some(&self.entries[i].1);
            }
            i += 1;
        }
        proof {
            db::lemma_first_value(all, id, i as int);
        }
        None
    }

    /// Binds a template, whatever it was bound to.
    pub fn replace_value(&mut self, id: GenericTplId, t: LuaType)
        ensures
            final(self)@ == with_binding(old(self)@, id, t@),
    {
        let ghost all = self@;
        let ghost added = (id, t@);
        let mut i: usize = 0;
        while i < self.entries.len() && self.entries[i].0 != id
            invariant
                i <= self.entries@.len(),
                all == self@,
                forall|j: int| 0 <= j < i ==> (#[trigger] all[j]).0 != id,
            decreases self.entries@.len() - i,
        {
            i += 1;
        }
        proof {
            lemma_with_binding(all, id, t@, i as int);
        }
        if i < self.entries.len() {
            self.entries.set(i, (id, t));
            assert(self@ =~= all.update(i as int, added));
        } else {
            self.entries.push((id, t));
            assert(self@ =~= all.push(added));
        }
    }
}

impl Clone for TypeSubstitutor {
    fn clone(&self) -> (r: Self)
        ensures
            r@ == self@,
    {
        let mut entries: Vec<(GenericTplId, LuaType)> = Vec::new();
        let mut i: usize = 0;
        while i < self.entries.len()
            invariant
                i <= self.entries@.len(),
                entries@ == self.entries@.take(i as int),
            decreases self.entries@.len() - i,
        {
            entries.push((self.entries[i].0, self.entries[i].1.clone()));
            i += 1;
        }
        assert(self.entries@.take(i as int) =~= self.entries@);
        TypeSubstitutor { entries }
    }
}

/// Puts the bound types in the place of the templates of a type, and resolves the operators and
/// conditions in it.
pub fn instantiate_type_generic(db: &DbIndex, t: &LuaType, s: &TypeSubstitutor) -> (r: LuaType)
    ensures
        r@ == db::evaluated(db@, t@, s@),
        r@ == instantiated(db.tables@, t@, s@, db@.room),
    decreases db@.room, 1nat,
{
    proof {
        db::lemma_index(*db);
    }
    instantiate_inner(db, t, s)
}

pub fn instantiate_types(db: &DbIndex, types: &Vec<LuaType>, s: &TypeSubstitutor) -> (r: Vec<LuaType>)
    ensures
        types::tys(r@) == db::evaluated_all(db@, types::tys(types@), s@),
    decreases db@.room, 1nat,
{
    proof {
        db::lemma_index(*db);
    }
    let r = instantiate_inner_types(db, types, s);
    assert(types::tys(r@) =~= db::evaluated_all(db@, types::tys(types@), s@));
    r
}

pub fn instantiate_function(db: &DbIndex, f: &LuaFunctionType, s: &TypeSubstitutor) -> (r:
    LuaFunctionType)
    ensures
        r@ == db::evaluated_function(db@, f@, s@),
    decreases db@.room, 1nat,
{
    proof {
        db::lemma_index(*db);
    }
    let r = instantiate_inner_function(db, f, s);
    assert(r@.params =~= db::evaluated_function(db@, f@, s@).params);
    r
}

fn instantiate_inner(db: &DbIndex, t: &LuaType, s: &TypeSubstitutor) -> (r: LuaType)
    ensures
        r@ == instantiated(db.tables@, t@, s@, db@.room),
    decreases db@.room, 0nat, t,
{
    match t {
        LuaType::TplRef(tpl) => match s.resolve_type(tpl.get_tpl_id()) {
            Some(bound) => bound.clone(),
            None => t.clone(),
        },
        LuaType::Array(a) => instantiate_array(db, a, s),
        LuaType::Tuple(x) => instantiate_tuple(db, x, s),
        LuaType::DocFunction(f) => LuaType::DocFunction(Arc::new(instantiate_inner_function(db, f, s))),
        LuaType::Object(o) => instantiate_object(db, o, s),
        LuaType::Union(u) => instantiate_union(db, u, s),
        LuaType::Intersection(x) => instantiate_intersection(db, x, s),
        LuaType::Generic(g) => instantiate_generic(db, g, s),
        LuaType::TableGeneric(params) => LuaType::TableGeneric(
            Arc::new(instantiate_inner_types(db, params, s)),
        ),
        LuaType::Variadic(v) => instantiate_variadic(db, v, s),
        LuaType::Instance(x) => instantiate_instance(db, x, s),
        LuaType::Call(c) => instantiate_call(db, c, s),
        LuaType::MultiLineUnion(u) => instantiate_multi_line_union(db, u, s),
        LuaType::TypeGuard(x) => LuaType::TypeGuard(Arc::new(instantiate_inner(db, x, s))),
        LuaType::Conditional(c) => instantiate_conditional(db, c, s),
        LuaType::Mapped(x) => instantiate_mapped(db, x, s),
        _ => t.clone(),
    }
}

fn instantiate_array(db: &DbIndex, a: &LuaArrayType, s: &TypeSubstitutor) -> (r: LuaType)
    ensures
        r@ == instantiated(db.tables@, Ty::Array(Box::new(a@)), s@, db@.room),
    decreases db@.room, 0nat, a,
{
    let base = instantiate_inner(db, &a.base, s);
    LuaType::Array(Arc::new(LuaArrayType::new(base, a.len)))
}

fn instantiate_tuple(db: &DbIndex, x: &LuaTupleType, s: &TypeSubstitutor) -> (r: LuaType)
    ensures
        r@ == instantiated(db.tables@, Ty::Tuple(Box::new(x@)), s@, db@.room),
    decreases db@.room, 0nat, x,
{
    let types = instantiate_inner_types(db, &x.types, s);
    LuaType::Tuple(Arc::new(LuaTupleType::new(types, x.status)))
}

fn instantiate_object(db: &DbIndex, o: &LuaObjectType, s: &TypeSubstitutor) -> (r: LuaType)
    ensures
        r@ == instantiated(db.tables@, Ty::Object(Box::new(o@)), s@, db@.room),
    decreases db@.room, 0nat, o,
{
    let fields = instantiate_fields(db, &o.fields, s);
    let index_access = instantiate_pairs(db, &o.index_access, s);
    LuaType::Object(Arc::new(LuaObjectType::new_with_fields(fields, index_access)))
}

fn instantiate_union(db: &DbIndex, u: &Arc<LuaUnionType>, s: &TypeSubstitutor) -> (r: LuaType)
    ensures
        r@ == instantiated(db.tables@, Ty::Union(Box::new(u@)), s@, db@.room),
    decreases db@.room, 0nat, u,
{
    match &**u {
        LuaUnionType::Basic(_) => LuaType::Union(Arc::clone(u)),
        LuaUnionType::Nullable(x) => {
            let mut types: Vec<LuaType> = Vec::new();
            types.push(instantiate_inner(db, x, s));
            types.push(LuaType::Nil);
            assert(types::tys(types@) =~= seq![
                instantiated(db.tables@, x@, s@, db@.room),
                Ty::Nil,
            ]);
            LuaType::from_vec(types)
        },
        LuaUnionType::Multi(members) => LuaType::from_vec(
            instantiate_inner_types(db, &members.types, s),
        ),
    }
}

fn instantiate_intersection(db: &DbIndex, x: &LuaIntersectionType, s: &TypeSubstitutor) -> (r: LuaType)
    ensures
        r@ == instantiated(db.tables@, Ty::Intersection(x@), s@, db@.room),
    decreases db@.room, 0nat, x,
{
    let types = instantiate_inner_types(db, &x.types, s);
    LuaType::Intersection(Arc::new(LuaIntersectionType::new(types)))
}

fn instantiate_generic(db: &DbIndex, g: &LuaGenericType, s: &TypeSubstitutor) -> (r: LuaType)
    ensures
        r@ == instantiated(db.tables@, Ty::Generic(Box::new(g@)), s@, db@.room),
    decreases db@.room, 0nat, g,
{
    let params = instantiate_inner_types(db, &g.params, s);
    LuaType::Generic(Arc::new(LuaGenericType::new(g.base.clone(), params)))
}

fn instantiate_variadic(db: &DbIndex, v: &VariadicType, s: &TypeSubstitutor) -> (r: LuaType)
    ensures
        r@ == instantiated(db.tables@, Ty::Variadic(Box::new(v@)), s@, db@.room),
    decreases db@.room, 0nat, v,
{
    match v {
        VariadicType::Multi(types) => {
            let multi = VariadicType::Multi(instantiate_inner_types(db, types, s));
            assert(multi@ == VariadicTy::Multi(instantiated_all(db.tables@, types::tys(types@), s@, db@.room)));
            LuaType::Variadic(Arc::new(multi))
        },
        VariadicType::Base(x) => {
            let base = instantiate_inner(db, x, s);
            assert(v@ == VariadicTy::Base(x@));
            if let LuaType::Variadic(_) = &base {
                return base;
            }
            assert(!(base@ is Variadic));
            let run = VariadicType::Base(base);
            assert(run@ == VariadicTy::Base(base@));
            LuaType::Variadic(Arc::new(run))
        },
    }
}

fn instantiate_instance(db: &DbIndex, x: &LuaInstanceType, s: &TypeSubstitutor) -> (r: LuaType)
    ensures
        r@ == instantiated(db.tables@, Ty::Instance(Box::new(x@)), s@, db@.room),
    decreases db@.room, 0nat, x,
{
    let base = instantiate_inner(db, &x.base, s);
    LuaType::Instance(Arc::new(LuaInstanceType::new(base, x.range)))
}

fn instantiate_call(db: &DbIndex, c: &LuaAliasCallType, s: &TypeSubstitutor) -> (r: LuaType)
    ensures
        r@ == instantiated(db.tables@, Ty::Call(Box::new(c@)), s@, db@.room),
    decreases db@.room, 0nat, c,
{
    if let Some(inner) = db.deeper() {
        return instantiate_alias_call(&inner, c, s);
    }
    let operand = instantiate_inner_types(db, &c.operand, s);
    LuaType::Call(Arc::new(LuaAliasCallType::new(c.call_kind, operand)))
}

fn instantiate_multi_line_union(db: &DbIndex, u: &LuaMultiLineUnion, s: &TypeSubstitutor) -> (r: LuaType)
    ensures
        r@ == instantiated(db.tables@, Ty::MultiLineUnion(u@), s@, db@.room),
    decreases db@.room, 0nat, u,
{
    LuaType::MultiLineUnion(Arc::new(LuaMultiLineUnion::new(instantiate_lines(db, &u.unions, s))))
}

fn instantiate_conditional(db: &DbIndex, c: &LuaConditionalType, s: &TypeSubstitutor) -> (r: LuaType)
    ensures
        r@ == instantiated(db.tables@, Ty::Conditional(Box::new(c@)), s@, db@.room),
    decreases db@.room, 0nat, c,
{
    if let Some(inner) = db.deeper() {
        return instantiate_conditional_type(&inner, c, s);
    }
    let checked_type = instantiate_inner(db, &c.checked_type, s);
    let extends_type = instantiate_inner(db, &c.extends_type, s);
    let true_type = instantiate_inner(db, &c.true_type, s);
    let false_type = instantiate_inner(db, &c.false_type, s);
    LuaType::Conditional(
        Arc::new(
            LuaConditionalType::new(
                checked_type,
                extends_type,
                true_type,
                false_type,
                clone_params(&c.infer_params),
                c.has_new,
            ),
        ),
    )
}

fn instantiate_mapped(db: &DbIndex, x: &LuaMappedType, s: &TypeSubstitutor) -> (r: LuaType)
    ensures
        r@ == instantiated(db.tables@, Ty::Mapped(Box::new(x@)), s@, db@.room),
    decreases db@.room, 0nat, x,
{
    let value = instantiate_inner(db, &x.value, s);
    let param = x.param.1.clone();
    let mapped = LuaMappedType::new((x.param.0, param), value, x.is_readonly, x.is_optional);
    assert(mapped@.value == value@ && mapped@.param == param@);
    LuaType::Mapped(Arc::new(mapped))
}

pub fn clone_params(params: &Vec<GenericParam>) -> (r: Vec<GenericParam>)
    ensures
        types::param_tys(r@) == types::param_tys(params@),
{
    let mut r: Vec<GenericParam> = Vec::new();
    let mut i: usize = 0;
    while i < params.len()
        invariant
            i <= params@.len(),
            r@.len() == i,
            forall|j: int| 0 <= j < i ==> (#[trigger] r@[j])@ == params@[j]@,
        decreases params@.len() - i,
    {
        r.push(params[i].clone());
        i += 1;
    }
    assert(types::param_tys(r@) =~= types::param_tys(params@));
    r
}

pub open spec fn instantiated_function(
    x: TablesTy,
    f: FunctionTy,
    m: Seq<(GenericTplId, Ty)>,
    room: nat,
) -> FunctionTy {
    FunctionTy {
        params: instantiated_named(x, f.params, m, room),
        ret: instantiated(x, f.ret, m, room),
        ..f
    }
}

fn instantiate_inner_function(db: &DbIndex, f: &LuaFunctionType, s: &TypeSubstitutor) -> (r: LuaFunctionType)
    ensures
        r@ == instantiated_function(db.tables@, f@, s@, db@.room),
    decreases db@.room, 0nat, f,
{
    let params = instantiate_named(db, &f.params, s);
    let ret = instantiate_inner(db, &f.ret, s);
    LuaFunctionType::new(
        f.async_state,
        f.is_colon_define,
        f.is_variadic,
        params,
        ret,
        Some(clone_tpls(&f.generic_params)),
    )
}

fn instantiate_inner_types(db: &DbIndex, types: &Vec<LuaType>, s: &TypeSubstitutor) -> (r: Vec<LuaType>)
    ensures
        types::tys(r@) == instantiated_all(db.tables@, types::tys(types@), s@, db@.room),
    decreases db@.room, 0nat, types,
{
    let ghost all = types::tys(types@);
    let mut r: Vec<LuaType> = Vec::new();
    let mut i: usize = 0;
    while i < types.len()
        invariant
            i <= types@.len(),
            all == types::tys(types@),
            r@.len() == i,
            forall|j: int| 0 <= j < i ==> (#[trigger] r@[j])@ == instantiated(db.tables@, all[j], s@, db@.room),
        decreases types@.len() - i,
    {
        r.push(instantiate_inner(db, &types[i], s));
        i += 1;
    }
    assert(types::tys(r@) =~= instantiated_all(db.tables@, all, s@, db@.room));
    r
}

fn instantiate_opt(db: &DbIndex, t: &Option<LuaType>, s: &TypeSubstitutor) -> (r: Option<LuaType>)
    ensures
        types::opt_ty(r) == instantiated_opt(db.tables@, types::opt_ty(*t), s@, db@.room),
    decreases db@.room, 0nat, t,
{
    match t {
        Some(t) => Some(instantiate_inner(db, t, s)),
        None => None,
    }
}

fn instantiate_named(db: &DbIndex, params: &Vec<(String, Option<LuaType>)>, s: &TypeSubstitutor) -> (r: Vec<
    (String, Option<LuaType>),
>)
    ensures
        types::named_tys(r@) == instantiated_named(db.tables@, types::named_tys(params@), s@, db@.room),
    decreases db@.room, 0nat, params,
{
    let ghost all = types::named_tys(params@);
    let mut r: Vec<(String, Option<LuaType>)> = Vec::new();
    let mut i: usize = 0;
    while i < params.len()
        invariant
            i <= params@.len(),
            all == types::named_tys(params@),
            r@.len() == i,
            forall|j: int|
                0 <= j < i ==> (#[trigger] r@[j]).0@ == all[j].0 && types::opt_ty(r@[j].1)
                    == instantiated_opt(db.tables@, all[j].1, s@, db@.room),
        decreases params@.len() - i,
    {
        r.push((params[i].0.clone(), instantiate_opt(db, &params[i].1, s)));
        i += 1;
    }
    assert(types::named_tys(r@) =~= instantiated_named(db.tables@, all, s@, db@.room));
    r
}

fn instantiate_fields(db: &DbIndex, fields: &Vec<(LuaMemberKey, LuaType)>, s: &TypeSubstitutor) -> (r: Vec<
    (LuaMemberKey, LuaType),
>)
    ensures
        types::field_tys(r@) == instantiated_fields(db.tables@, types::field_tys(fields@), s@, db@.room),
    decreases db@.room, 0nat, fields,
{
    let ghost all = types::field_tys(fields@);
    let mut r: Vec<(LuaMemberKey, LuaType)> = Vec::new();
    let mut i: usize = 0;
    while i < fields.len()
        invariant
            i <= fields@.len(),
            all == types::field_tys(fields@),
            r@.len() == i,
            forall|j: int|
                0 <= j < i ==> (#[trigger] r@[j]).0@ == all[j].0 && r@[j].1@ == instantiated(
                    db.tables@,
                    all[j].1,
                    s@,
                    db@.room,
                ),
        decreases fields@.len() - i,
    {
        r.push((fields[i].0.clone(), instantiate_inner(db, &fields[i].1, s)));
        i += 1;
    }
    assert(types::field_tys(r@) =~= instantiated_fields(db.tables@, all, s@, db@.room));
    r
}

fn instantiate_pairs(db: &DbIndex, pairs: &Vec<(LuaType, LuaType)>, s: &TypeSubstitutor) -> (r: Vec<
    (LuaType, LuaType),
>)
    ensures
        types::pair_tys(r@) == instantiated_pairs(db.tables@, types::pair_tys(pairs@), s@, db@.room),
    decreases db@.room, 0nat, pairs,
{
    let ghost all = types::pair_tys(pairs@);
    let mut r: Vec<(LuaType, LuaType)> = Vec::new();
    let mut i: usize = 0;
    while i < pairs.len()
        invariant
            i <= pairs@.len(),
            all == types::pair_tys(pairs@),
            r@.len() == i,
            forall|j: int|
                0 <= j < i ==> (#[trigger] r@[j]).0@ == instantiated(db.tables@, all[j].0, s@, db@.room)
                    && r@[j].1@ == instantiated(db.tables@, all[j].1, s@, db@.room),
        decreases pairs@.len() - i,
    {
        r.push(
            (instantiate_inner(db, &pairs[i].0, s), instantiate_inner(db, &pairs[i].1, s)),
        );
        i += 1;
    }
    assert(types::pair_tys(r@) =~= instantiated_pairs(db.tables@, all, s@, db@.room));
    r
}

fn instantiate_lines(db: &DbIndex, lines: &Vec<(LuaType, Option<String>)>, s: &TypeSubstitutor) -> (r: Vec<
    (LuaType, Option<String>),
>)
    ensures
        types::line_tys(r@) == instantiated_lines(db.tables@, types::line_tys(lines@), s@, db@.room),
    decreases db@.room, 0nat, lines,
{
    let ghost all = types::line_tys(lines@);
    let mut r: Vec<(LuaType, Option<String>)> = Vec::new();
    let mut i: usize = 0;
    while i < lines.len()
        invariant
            i <= lines@.len(),
            all == types::line_tys(lines@),
            r@.len() == i,
            forall|j: int|
                0 <= j < i ==> (#[trigger] r@[j]).0@ == instantiated(db.tables@, all[j].0, s@, db@.room)
                    && types::opt_text(r@[j].1) == all[j].1,
        decreases lines@.len() - i,
    {
        let text = match &lines[i].1 {
            Some(text) => Some(text.clone()),
            None => None,
        };
        r.push((instantiate_inner(db, &lines[i].0, s), text));
        i += 1;
    }
    assert(types::line_tys(r@) =~= instantiated_lines(db.tables@, all, s@, db@.room));
    r
}

/// A bound template stands for its type, whatever the index holds.
pub proof fn bound_template_is_replaced(
    x: TablesTy,
    tpl: TplTy,
    m: Seq<(GenericTplId, Ty)>,
    room: nat,
)
    requires
        db::first_value(m, tpl.tpl_id) is Some,
    ensures
        instantiated(x, Ty::TplRef(Box::new(tpl)), m, room) == db::first_value(m, tpl.tpl_id).unwrap(),
{
}

/// A condition on a template that is bound to `never` stands for `never`.
pub proof fn condition_on_never_is_never(
    x: TablesTy,
    c: ConditionalTy,
    m: Seq<(GenericTplId, Ty)>,
    room: nat,
)
    requires
        room > 0,
        conditional::naked_template(c.checked_type) matches Some(id) && db::first_value(m, id) == Some(Ty::Never),
    ensures
        instantiated(x, Ty::Conditional(Box::new(c)), m, room) == Ty::Never,
{
    instantiate::condition_on_never(index_at(x, (room - 1) as nat), c, m);
}

} // verus!
