//! Finding the types that a pattern leaves open.

use std::sync::Arc;
use vstd::prelude::*;

use crate::{db, types};
use crate::db::{DbIndex, DbTy};
use crate::generic::conditional;
use crate::generic::conditional::{
    CandidateTy, InferAssignments, InferVariance, contains_conditional_infer,
    insert_infer_assignment, is_optional_param_type, strict_type_match,
};
use crate::member::collect;
use crate::member::collect::{collect_members, member_index};
use crate::types::{
    FunctionTy, GenericTplId, KeyTy, LuaFunctionType, LuaMemberKey, LuaTupleStatus, LuaTupleType,
    LuaType, TupleTy, Ty, complex,
};
use crate::types::complex::text_is;

verus! {

/// Whether a type matches a pattern, and what the templates of the pattern are bound to then.
pub struct MatchTy {
    pub ok: bool,
    pub m: Seq<(GenericTplId, CandidateTy)>,
}

/// The function behind a type, over at most `room` aliases.
pub open spec fn function_behind(db: DbTy, t: Ty, room: nat) -> Option<FunctionTy>
    decreases room,
{
    match t {
        Ty::DocFunction(f) => Some(*f),
        Ty::Signature(id) => match db::signature_of(db, id) {
            Some(signature) => Some(signature.function),
            None => None,
        },
        Ty::Ref(id) => match db::decl_of(db, id) {
            Some(decl) => match decl.alias_ref {
                Some(origin) => if decl.kind is Alias && room > 0 {
                    function_behind(db, origin, (room - 1) as nat)
                } else {
                    None
                },
                None => None,
            },
            None => None,
        },
        _ => None,
    }
}

/// The last parameter of a pattern takes all that is left.
pub open spec fn takes_rest(params: Seq<(Seq<char>, Option<Ty>)>) -> bool {
    params.len() > 0 && (params.last().0 == "..."@ || match params.last().1 {
        Some(t) => t is Variadic,
        None => false,
    })
}

/// The parameters of a pattern that each take one.
pub open spec fn single_params(params: Seq<(Seq<char>, Option<Ty>)>) -> nat {
    if takes_rest(params) {
        (params.len() - 1) as nat
    } else {
        params.len()
    }
}

/// The types of the parameters from place `n` on.
pub open spec fn rest_types(params: Seq<(Seq<char>, Option<Ty>)>, n: nat) -> Seq<Ty> {
    Seq::new(
        if n < params.len() {
            (params.len() - n) as nat
        } else {
            0
        },
        |i: int|
            match params[n + i].1 {
                Some(t) => t,
                None => Ty::Any,
            },
    )
}

/// What the rest of the parameters is matched as: a single one that is a run stays what it is, others
/// are a tuple.
pub open spec fn rest_type(types: Seq<Ty>, is_variadic: bool) -> Ty {
    if types.len() == 0 {
        Ty::Never
    } else if types.len() == 1 && is_variadic {
        types[0]
    } else {
        Ty::Tuple(Box::new(TupleTy { types, status: LuaTupleStatus::InferResolve }))
    }
}

/// Matches a type with a pattern.
pub open spec fn matched(
    db: DbTy,
    source: Ty,
    pattern: Ty,
    m: Seq<(GenericTplId, CandidateTy)>,
    variance: InferVariance,
) -> MatchTy
    decreases pattern, 0nat,
{
    match pattern {
        Ty::TplRef(tpl) => if tpl.tpl_id is ConditionalInfer {
            MatchTy { ok: true, m: conditional::bound(m, tpl.tpl_id, source, variance) }
        } else {
            MatchTy { ok: conditional::strictly_matches(db, source, pattern), m }
        },
        Ty::Generic(p) => match source {
            Ty::Generic(s) => if s.base == p.base && s.params.len() == p.params.len() {
                matched_all(db, s.params, p.params, 0, m, variance)
            } else {
                MatchTy { ok: false, m }
            },
            _ => MatchTy { ok: false, m },
        },
        Ty::DocFunction(p) => match function_behind(db, source, db.type_decls.len()) {
            Some(f) => matched_function(db, f, *p, m, variance),
            None => MatchTy { ok: false, m },
        },
        Ty::Array(p) => match source {
            Ty::Array(s) => matched(db, s.base, p.base, m, variance),
            _ => MatchTy { ok: false, m },
        },
        Ty::Object(p) => if source is Object || source is Ref || source is Def
            || source is TableConst {
            matched_fields(db, source, p.fields, 0, m, variance)
        } else {
            MatchTy { ok: false, m }
        },
        _ => MatchTy { ok: !conditional::has_infer(pattern) && conditional::strictly_matches(db, source, pattern), m },
    }
}

/// Matches types with patterns one by one, from place `i` on.
pub open spec fn matched_all(
    db: DbTy,
    sources: Seq<Ty>,
    patterns: Seq<Ty>,
    i: nat,
    m: Seq<(GenericTplId, CandidateTy)>,
    variance: InferVariance,
) -> MatchTy
    decreases patterns, patterns.len() - i,
{
    if i >= patterns.len() {
        MatchTy { ok: true, m }
    } else {
        let r = matched(db, sources[i as int], patterns[i as int], m, variance);
        if r.ok {
            matched_all(db, sources, patterns, i + 1, r.m, variance)
        } else {
            r
        }
    }
}

/// Parameters match the other way round, the result as it is.
pub open spec fn matched_function(
    db: DbTy,
    source: FunctionTy,
    pattern: FunctionTy,
    m: Seq<(GenericTplId, CandidateTy)>,
    variance: InferVariance,
) -> MatchTy
    decreases pattern, 1nat,
{
    let n = single_params(pattern.params);
    if !takes_rest(pattern.params) && source.params.len() > n {
        MatchTy { ok: false, m }
    } else {
        let r = matched_params(db, source.params, pattern.params, 0, n, m, conditional::flipped(variance));
        if !r.ok {
            r
        } else {
            let r2 = matched_rest(db, source, pattern.params, n, r.m, conditional::flipped(variance));
            if !r2.ok {
                r2
            } else if conditional::has_infer(pattern.ret) {
                matched(db, source.ret, pattern.ret, r2.m, variance)
            } else {
                r2
            }
        }
    }
}

/// The parameters that each take one, from place `i` on, up to place `n`.
pub open spec fn matched_params(
    db: DbTy,
    source: Seq<(Seq<char>, Option<Ty>)>,
    pattern: Seq<(Seq<char>, Option<Ty>)>,
    i: nat,
    n: nat,
    m: Seq<(GenericTplId, CandidateTy)>,
    variance: InferVariance,
) -> MatchTy
    decreases pattern, n - i,
{
    if i >= n || i >= pattern.len() {
        MatchTy { ok: true, m }
    } else {
        let r = match pattern[i as int].1 {
            Some(p) => if i < source.len() {
                match source[i as int].1 {
                    Some(s) => matched(db, s, p, m, variance),
                    None => MatchTy { ok: !conditional::has_infer(p), m },
                }
            } else {
                MatchTy { ok: !conditional::has_infer(p) && conditional::omittable_arg(db, p, db.type_decls.len()), m }
            },
            None => MatchTy { ok: true, m },
        };
        if r.ok {
            matched_params(db, source, pattern, i + 1, n, r.m, variance)
        } else {
            r
        }
    }
}

/// The parameter that takes all that is left, where it binds a template.
pub open spec fn matched_rest(
    db: DbTy,
    source: FunctionTy,
    pattern: Seq<(Seq<char>, Option<Ty>)>,
    n: nat,
    m: Seq<(GenericTplId, CandidateTy)>,
    variance: InferVariance,
) -> MatchTy
    decreases pattern, 1nat,
{
    if takes_rest(pattern) {
        match pattern[pattern.len() - 1].1 {
            Some(p) => if conditional::has_infer(p) {
                matched(
                    db,
                    rest_type(rest_types(source.params, n), source.is_variadic),
                    p,
                    m,
                    variance,
                )
            } else {
                MatchTy { ok: true, m }
            },
            None => MatchTy { ok: true, m },
        }
    } else {
        MatchTy { ok: true, m }
    }
}

/// The member of a source that a field of a pattern is matched with.
pub open spec fn matched_member(db: DbTy, source: Ty, key: KeyTy) -> Option<Ty> {
    match source {
        Ty::Object(o) => complex::first_field(o.fields, key),
        Ty::Ref(id) => collected_type(db, Ty::Ref(id), key),
        Ty::Def(id) => collected_type(db, Ty::Ref(id), key),
        _ => collected_type(db, source, key),
    }
}

pub open spec fn collected_type(db: DbTy, t: Ty, key: KeyTy) -> Option<Ty> {
    match collect::find_member(collect::members_of_type(db, t), key) {
        Some(symbol) => Some(collect::symbol_type(db, symbol)),
        None => None,
    }
}

/// The fields of a pattern, from field `i` on. A field that is missing may not bind a template.
pub open spec fn matched_fields(
    db: DbTy,
    source: Ty,
    fields: Seq<(KeyTy, Ty)>,
    i: nat,
    m: Seq<(GenericTplId, CandidateTy)>,
    variance: InferVariance,
) -> MatchTy
    decreases fields, fields.len() - i,
{
    if i >= fields.len() {
        MatchTy { ok: true, m }
    } else {
        let r = match matched_member(db, source, fields[i as int].0) {
            Some(s) => matched(db, s, fields[i as int].1, m, variance),
            None => MatchTy { ok: !conditional::has_infer(fields[i as int].1), m },
        };
        if r.ok {
            matched_fields(db, source, fields, i + 1, r.m, variance)
        } else {
            r
        }
    }
}

fn find_function_behind(db: &DbIndex, t: &LuaType, room: usize) -> (r: Option<Arc<LuaFunctionType>>)
    ensures
        (match r {
            Some(f) => Some(f@),
            None => None,
        }) == function_behind(db@, t@, room as nat),
    decreases room,
{
    match t {
        LuaType::DocFunction(f) => Some(Arc::clone(f)),
        LuaType::Signature(id) => match db.get_signature(*id) {
            Some(signature) => Some(Arc::clone(&signature.function)),
            None => None,
        },
        LuaType::Ref(id) => match db.get_type_decl(id) {
            Some(decl) => match decl.get_alias_ref() {
                Some(origin) => if decl.is_alias() && room > 0 {
                    find_function_behind(db, origin, room - 1)
                } else {
                    None
                },
                None => None,
            },
            None => None,
        },
        _ => None,
    }
}

fn has_rest_param(params: &Vec<(String, Option<LuaType>)>) -> (r: bool)
    ensures
        r == takes_rest(types::named_tys(params@)),
{
    if params.len() == 0 {
        return false;
    }
    let (name, ty) = &params[params.len() - 1];
    assert(types::named_tys(params@).last() == (name@, types::opt_ty(*ty)));
    text_is(name, "...") || match ty {
        Some(ty) => ty.is_variadic(),
        None => false,
    }
}

fn list_rest_types(params: &Vec<(String, Option<LuaType>)>, n: usize) -> (r: Vec<LuaType>)
    ensures
        types::tys(r@) == rest_types(types::named_tys(params@), n as nat),
{
    let ghost all = types::named_tys(params@);
    let mut r: Vec<LuaType> = Vec::new();
    let mut i: usize = n;
    while i < params.len()
        invariant
            n <= i,
            i <= params@.len() || i == n,
            all == types::named_tys(params@),
            r@.len() == i - n,
            forall|j: int|
                0 <= j < r@.len() ==> (#[trigger] r@[j])@ == (match all[n + j].1 {
                    Some(t) => t,
                    None => Ty::Any,
                }),
        decreases params@.len() - i,
    {
        assert(all[i as int].1 == types::opt_ty(params@[i as int].1));
        match &params[i].1 {
            Some(t) => r.push(t.clone()),
            None => r.push(LuaType::Any),
        }
        i += 1;
    }
    assert(types::tys(r@) =~= rest_types(all, n as nat));
    r
}

fn find_rest_type(types: Vec<LuaType>, is_variadic: bool) -> (r: LuaType)
    ensures
        r@ == rest_type(types::tys(types@), is_variadic),
{
    assert(types::tys(types@).len() == types@.len());
    if types.len() == 0 {
        return LuaType::Never;
    }
    if types.len() == 1 && is_variadic {
        assert(types::tys(types@)[0] == types@[0]@);
        return types[0].clone();
    }
    LuaType::Tuple(Arc::new(LuaTupleType::new(types, LuaTupleStatus::InferResolve)))
}

fn find_collected_type(db: &DbIndex, t: &LuaType, key: &LuaMemberKey) -> (r: Option<LuaType>)
    ensures
        types::opt_ty(r) == collected_type(db@, t@, key@),
    decreases db@.room, 10nat,
{
    let members = collect_members(db, t);
    let i = member_index(&members, key);
    if i < members.len() {
        Some(members[i].1.typ(db))
    } else {
        None
    }
}

fn find_matched_member(db: &DbIndex, source: &LuaType, key: &LuaMemberKey) -> (r: Option<LuaType>)
    ensures
        types::opt_ty(r) == matched_member(db@, source@, key@),
    decreases db@.room, 11nat,
{
    match source {
        LuaType::Object(o) => match o.get_field(key) {
            Some(t) => Some(t.clone()),
            None => None,
        },
        LuaType::Def(id) => {
            let t = LuaType::Ref(id.clone());
            find_collected_type(db, &t, key)
        },
        _ => find_collected_type(db, source, key),
    }
}

/// Matches a type with a pattern, and collects what the templates of the pattern are bound to.
pub fn collect_infer_assignments(
    db: &DbIndex,
    source: &LuaType,
    pattern: &LuaType,
    assignments: &mut InferAssignments,
    variance: InferVariance,
) -> (r: bool)
    ensures
        ({
            let out = matched(db@, source@, pattern@, old(assignments)@, variance);
            r == out.ok && final(assignments)@ == out.m
        }),
    decreases db@.room, 17nat, pattern, 0nat,
{
    match pattern {
        LuaType::TplRef(tpl) => {
            if tpl.get_tpl_id().is_conditional_infer() {
                insert_infer_assignment(assignments, tpl.get_tpl_id(), source, variance);
                return true;
            }
            strict_type_match(db, source, pattern)
        },
        LuaType::Generic(pattern_generic) => {
            assert(pattern_generic@.params == types::tys(pattern_generic.params@));
            if let LuaType::Generic(source_generic) = source {
                assert(source_generic@.params == types::tys(source_generic.params@));
                if !source_generic.base.same(&pattern_generic.base) || source_generic.params.len()
                    != pattern_generic.params.len() {
                    return false;
                }
                return collect_infer_from_params(
                    db,
                    &source_generic.params,
                    &pattern_generic.params,
                    assignments,
                    variance,
                );
            }
            false
        },
        LuaType::DocFunction(pattern_func) => match find_function_behind(
            db,
            source,
            db.decl_count(),
        ) {
            Some(source_func) => collect_infer_from_function(
                db,
                &source_func,
                pattern_func,
                assignments,
                variance,
            ),
            None => false,
        },
        LuaType::Array(array) => {
            assert(array@.base == array.base@);
            if let LuaType::Array(source_array) = source {
                assert(source_array@.base == source_array.base@);
                return collect_infer_assignments(
                    db,
                    &source_array.base,
                    &array.base,
                    assignments,
                    variance,
                );
            }
            false
        },
        LuaType::Object(pattern_object) => {
            assert(pattern_object@.fields == types::field_tys(pattern_object.fields@));
            if !matches!(
                source,
                LuaType::Object(_) | LuaType::Ref(_) | LuaType::Def(_) | LuaType::TableConst(_)
            ) {
                return false;
            }
            collect_infer_from_fields(db, source, &pattern_object.fields, assignments, variance)
        },
        _ => !contains_conditional_infer(pattern) && strict_type_match(db, source, pattern),
    }
}

#[verifier::loop_isolation(false)]
fn collect_infer_from_params(
    db: &DbIndex,
    sources: &Vec<LuaType>,
    patterns: &Vec<LuaType>,
    assignments: &mut InferAssignments,
    variance: InferVariance,
) -> (r: bool)
    requires
        sources@.len() == patterns@.len(),
    ensures
        ({
            let out = matched_all(
                db@,
                types::tys(sources@),
                types::tys(patterns@),
                0,
                old(assignments)@,
                variance,
            );
            r == out.ok && final(assignments)@ == out.m
        }),
    decreases db@.room, 17nat, patterns, patterns@.len(),
{
    let ghost from = types::tys(sources@);
    let ghost to = types::tys(patterns@);
    let ghost whole = matched_all(db@, from, to, 0, assignments@, variance);
    let mut i: usize = 0;
    while i < patterns.len()
        invariant
            i <= patterns@.len(),
            whole == matched_all(
                db@,
                from,
                to,
                i as nat,
                assignments@,
                variance,
            ),
        decreases patterns@.len() - i,
    {
        assert(from[i as int] == sources@[i as int]@ && to[i as int] == patterns@[i as int]@);
        if !collect_infer_assignments(db, &sources[i], &patterns[i], assignments, variance) {
            return false;
        }
        i += 1;
    }
    true
}

fn collect_infer_from_function(
    db: &DbIndex,
    source_func: &LuaFunctionType,
    pattern_func: &LuaFunctionType,
    assignments: &mut InferAssignments,
    variance: InferVariance,
) -> (r: bool)
    ensures
        ({
            let out = matched_function(
                db@,
                source_func@,
                pattern_func@,
                old(assignments)@,
                variance,
            );
            r == out.ok && final(assignments)@ == out.m
        }),
    decreases db@.room, 17nat, pattern_func, 1nat,
{
    assert(source_func@.params == types::named_tys(source_func.params@));
    assert(pattern_func@.params == types::named_tys(pattern_func.params@));
    assert(types::named_tys(pattern_func.params@).len() == pattern_func.params@.len());
    let has_variadic = has_rest_param(&pattern_func.params);
    let normal_param_len = if has_variadic {
        pattern_func.params.len() - 1
    } else {
        pattern_func.params.len()
    };
    if !has_variadic && source_func.params.len() > normal_param_len {
        return false;
    }
    let ok = collect_infer_from_named(
        db,
        &source_func.params,
        &pattern_func.params,
        normal_param_len,
        assignments,
        variance.flip(),
    );
    if !ok {
        return false;
    }
    let ok = collect_infer_from_rest(
        db,
        source_func,
        &pattern_func.params,
        normal_param_len,
        assignments,
        variance.flip(),
    );
    if !ok {
        return false;
    }
    if contains_conditional_infer(&pattern_func.ret) {
        return collect_infer_assignments(
            db,
            &source_func.ret,
            &pattern_func.ret,
            assignments,
            variance,
        );
    }
    true
}

#[verifier::loop_isolation(false)]
fn collect_infer_from_named(
    db: &DbIndex,
    sources: &Vec<(String, Option<LuaType>)>,
    patterns: &Vec<(String, Option<LuaType>)>,
    n: usize,
    assignments: &mut InferAssignments,
    variance: InferVariance,
) -> (r: bool)
    requires
        n <= patterns@.len(),
    ensures
        ({
            let out = matched_params(
                db@,
                types::named_tys(sources@),
                types::named_tys(patterns@),
                0,
                n as nat,
                old(assignments)@,
                variance,
            );
            r == out.ok && final(assignments)@ == out.m
        }),
    decreases db@.room, 17nat, patterns, patterns@.len(),
{
    let ghost from = types::named_tys(sources@);
    let ghost to = types::named_tys(patterns@);
    let ghost whole = matched_params(
        db@,
        from,
        to,
        0,
        n as nat,
        assignments@,
        variance,
    );
    let mut i: usize = 0;
    while i < n
        invariant
            i <= n,
            whole == matched_params(
                db@,
                from,
                to,
                i as nat,
                n as nat,
                assignments@,
                variance,
            ),
        decreases n - i,
    {
        assert(to[i as int].1 == types::opt_ty(patterns@[i as int].1));
        let ok = match &patterns[i].1 {
            Some(pattern_ty) => if i < sources.len() {
                assert(from[i as int].1 == types::opt_ty(sources@[i as int].1));
                match &sources[i].1 {
                    Some(source_ty) => {
                        assert(decreases_to!(patterns => patterns@[i as int].1));
                        collect_infer_assignments(db, source_ty, pattern_ty, assignments, variance)
                    },
                    None => !contains_conditional_infer(pattern_ty),
                }
            } else {
                !contains_conditional_infer(pattern_ty) && is_optional_param_type(db, pattern_ty)
            },
            None => true,
        };
        if !ok {
            return false;
        }
        i += 1;
    }
    true
}

fn collect_infer_from_rest(
    db: &DbIndex,
    source_func: &LuaFunctionType,
    patterns: &Vec<(String, Option<LuaType>)>,
    n: usize,
    assignments: &mut InferAssignments,
    variance: InferVariance,
) -> (r: bool)
    ensures
        ({
            let out = matched_rest(
                db@,
                source_func@,
                types::named_tys(patterns@),
                n as nat,
                old(assignments)@,
                variance,
            );
            r == out.ok && final(assignments)@ == out.m
        }),
    decreases db@.room, 17nat, patterns, 1nat,
{
    assert(source_func@.params == types::named_tys(source_func.params@));
    if !has_rest_param(patterns) {
        return true;
    }
    let ghost last = patterns@.len() - 1;
    assert(types::named_tys(patterns@)[last].1 == types::opt_ty(patterns@[last].1));
    match &patterns[patterns.len() - 1].1 {
        Some(pattern_ty) => {
            if !contains_conditional_infer(pattern_ty) {
                return true;
            }
            let types = list_rest_types(&source_func.params, n);
            let ty = find_rest_type(types, source_func.is_variadic);
            assert(decreases_to!(patterns => patterns@[last].1));
            collect_infer_assignments(db, &ty, pattern_ty, assignments, variance)
        },
        None => true,
    }
}

#[verifier::loop_isolation(false)]
fn collect_infer_from_fields(
    db: &DbIndex,
    source: &LuaType,
    fields: &Vec<(LuaMemberKey, LuaType)>,
    assignments: &mut InferAssignments,
    variance: InferVariance,
) -> (r: bool)
    ensures
        ({
            let out = matched_fields(
                db@,
                source@,
                types::field_tys(fields@),
                0,
                old(assignments)@,
                variance,
            );
            r == out.ok && final(assignments)@ == out.m
        }),
    decreases db@.room, 17nat, fields, fields@.len(),
{
    let ghost all = types::field_tys(fields@);
    let ghost whole = matched_fields(db@, source@, all, 0, assignments@, variance);
    let mut i: usize = 0;
    while i < fields.len()
        invariant
            i <= fields@.len(),
            whole == matched_fields(
                db@,
                source@,
                all,
                i as nat,
                assignments@,
                variance,
            ),
        decreases fields@.len() - i,
    {
        let (key, pattern_ty) = &fields[i];
        assert(all[i as int] == (key@, pattern_ty@));
        assert(decreases_to!(fields => fields@[i as int].1));
        let ok = match find_matched_member(db, source, key) {
            Some(source_ty) => collect_infer_assignments(
                db,
                &source_ty,
                pattern_ty,
                assignments,
                variance,
            ),
            None => !contains_conditional_infer(pattern_ty),
        };
        if !ok {
            return false;
        }
        i += 1;
    }
    true
}

} // verus!
