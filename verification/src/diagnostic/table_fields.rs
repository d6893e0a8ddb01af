//! Checking the fields of a written table one by one.

use std::sync::Arc;
use vstd::prelude::*;

use crate::types;
use crate::db::{DbIndex, DbTy};
use crate::diagnostic::table_target;
use crate::diagnostic::table_target::{
    expand_field_check_type, get_table_field_target, is_generic_conditional_type,
};
use crate::member::raw;
use crate::member::raw::infer_raw_member_type;
use crate::type_check::assignable;
use crate::type_check::assignable::{AssignabilityResult, check_assignable, is_assignable};
use crate::type_check::relation::RelationFailure;
use crate::types::{KeyTy, LuaMemberKey, LuaType, Ty, VariadicTy, VariadicType, complex};

verus! {

/// How many fields may still be compared.
#[derive(Debug)]
pub struct TableCheckState {
    pub remaining_fields: usize,
}

impl TableCheckState {
    pub fn new() -> (r: Self)
        ensures
            r.remaining_fields == 2048,
    {
        TableCheckState { remaining_fields: 2048 }
    }

    pub fn is_exhausted(&self) -> (r: bool)
        ensures
            r == (self.remaining_fields == 0),
    {
        self.remaining_fields == 0
    }

    /// Takes one field, where one may still be taken.
    pub fn enter_field(&mut self) -> (r: bool)
        ensures
            r == (old(self).remaining_fields > 0),
            final(self).remaining_fields == (if old(self).remaining_fields > 0 {
                old(self).remaining_fields - 1
            } else {
                0
            }),
    {
        if self.remaining_fields == 0 {
            return false;
        }
        self.remaining_fields = self.remaining_fields - 1;
        true
    }
}

/// A table as it is written.
#[derive(Debug)]
pub struct TableLiteral {
    pub is_array: bool,
    pub fields: Vec<LiteralField>,
}

/// A field as it is written: its key, the type of its value, whether it has no key in the text, and
/// the table that its value is.
#[derive(Debug)]
pub struct LiteralField {
    pub key: Option<LuaMemberKey>,
    pub value: Option<LuaType>,
    pub is_value_field: bool,
    pub child: Option<TableLiteral>,
}

pub struct LiteralTy {
    pub is_array: bool,
    pub fields: Seq<LiteralFieldTy>,
}

pub struct LiteralFieldTy {
    pub key: Option<KeyTy>,
    pub value: Option<Ty>,
    pub is_value_field: bool,
    pub child: Option<Box<LiteralTy>>,
}

pub open spec fn opt_key(key: Option<LuaMemberKey>) -> Option<KeyTy> {
    match key {
        Some(key) => Some(key@),
        None => None,
    }
}

pub open spec fn literal_ty(t: TableLiteral) -> LiteralTy
    decreases t,
{
    LiteralTy { is_array: t.is_array, fields: literal_field_tys(t.fields@) }
}

pub open spec fn literal_field_tys(s: Seq<LiteralField>) -> Seq<LiteralFieldTy>
    decreases s,
{
    Seq::new(
        s.len(),
        |i: int|
            if 0 <= i < s.len() {
                literal_field_ty(s[i])
            } else {
                arbitrary()
            },
    )
}

pub open spec fn literal_field_ty(f: LiteralField) -> LiteralFieldTy
    decreases f,
{
    LiteralFieldTy {
        key: opt_key(f.key),
        value: types::opt_ty(f.value),
        is_value_field: f.is_value_field,
        child: match f.child {
            Some(child) => Some(Box::new(literal_ty(child))),
            None => None,
        },
    }
}

/// A value that does not fit a field.
#[derive(Debug)]
pub struct FieldMismatch {
    pub actual: LuaType,
    pub expected: LuaType,
}

pub struct MismatchTy {
    pub actual: Ty,
    pub expected: Ty,
}

pub open spec fn mismatch_tys(s: Seq<FieldMismatch>) -> Seq<MismatchTy> {
    Seq::new(s.len(), |i: int| MismatchTy { actual: s[i].actual@, expected: s[i].expected@ })
}

/// What was found so far: how many fields may still be compared, and what does not fit.
pub struct FieldsTy {
    pub left: usize,
    pub found: Seq<MismatchTy>,
    pub mismatch: bool,
}

/// One type is known not to fit another, for a reason that is told.
#[verifier::opaque]
pub open spec fn rejected(db: DbTy, source: Ty, target: Ty) -> bool {
    assignable::compared(db, assignable::nothing_kept(), source, target, true).res == Err::<(), RelationFailure>(
        RelationFailure::Unrelated,
    )
}

fn is_rejected(db: &DbIndex, source: &LuaType, target: &LuaType) -> (r: bool)
    ensures
        r == rejected(db@, source@, target@),
{
    proof {
        reveal(rejected);
    }
    match check_assignable(db, source, target, None) {
        AssignabilityResult::NotAssignable(_) => true,
        _ => false,
    }
}

/// The first of sixteen values of a run that does not fit what a target has from an index on.
pub open spec fn run_mismatch(db: DbTy, target: Ty, start: i64, v: VariadicTy, k: nat) -> Option<
    MismatchTy,
>
    decreases 16 - k,
{
    if k >= 16 || start + k > i64::MAX {
        None
    } else {
        match raw::raw_type(db, target, KeyTy::Integer((start + k) as i64)) {
            Err(_) => None,
            Ok(expected) => {
                let actual = if expected is Variadic {
                    Some(Ty::Variadic(Box::new(complex::variadic_from(v, k))))
                } else {
                    complex::variadic_at(v, k)
                };
                match actual {
                    None => None,
                    Some(actual) => if rejected(db, actual, expected) {
                        Some(MismatchTy { actual, expected })
                    } else if expected is Variadic {
                        None
                    } else {
                        run_mismatch(db, target, start, v, k + 1)
                    },
                }
            },
        }
    }
}

pub open spec fn opt_mismatch(m: Option<FieldMismatch>) -> Option<MismatchTy> {
    match m {
        Some(m) => Some(MismatchTy { actual: m.actual@, expected: m.expected@ }),
        None => None,
    }
}

/// Compares a run of values with what a target has from an index on.
pub fn check_table_last_variadic_type(
    db: &DbIndex,
    expected_type: &LuaType,
    start_index: i64,
    actual_variadic: &VariadicType,
) -> (r: Option<FieldMismatch>)
    ensures
        opt_mismatch(r) == run_mismatch(
            db@,
            expected_type@,
            start_index,
            actual_variadic@,
            0,
        ),
{
    let mut k: usize = 0;
    while k < 16
        invariant
            k <= 16,
            run_mismatch(db@, expected_type@, start_index, actual_variadic@, 0) == run_mismatch(
                db@,
                expected_type@,
                start_index,
                actual_variadic@,
                k as nat,
            ),
        decreases 16 - k,
    {
        let step: i64 = k as i64;
        if start_index > i64::MAX - step {
            return None;
        }
        let key = LuaMemberKey::Integer(start_index + step);
        let expected = match infer_raw_member_type(db, expected_type, &key) {
            Ok(expected) => expected,
            Err(_) => {
                return None;
            },
        };
        let is_run = matches!(expected, LuaType::Variadic(_));
        let actual = if is_run {
            LuaType::Variadic(Arc::new(actual_variadic.get_new_variadic_from(k)))
        } else {
            match actual_variadic.get_type(k) {
                Some(t) => t.clone(),
                None => {
                    return None;
                },
            }
        };
        if is_rejected(db, &actual, &expected) {
            return Some(FieldMismatch { actual, expected });
        }
        if is_run {
            return None;
        }
        k += 1;
    }
    None
}

/// The run of values that the last field of a list is.
pub open spec fn last_run_of(fields: Seq<LiteralFieldTy>, i: nat) -> Option<(i64, VariadicTy)> {
    let f = fields[i as int];
    match (f.key, f.value) {
        (Some(KeyTy::Integer(start)), Some(Ty::Variadic(v))) => if f.is_value_field && i + 1
            == fields.len() {
            Some((start, *v))
        } else {
            None
        },
        _ => None,
    }
}

pub open spec fn with_mismatch(st: FieldsTy, m: Option<MismatchTy>) -> FieldsTy {
    match m {
        Some(m) => FieldsTy { found: st.found.push(m), mismatch: true, ..st },
        None => st,
    }
}

/// The fields of a written table compared with a target, from field `i` on. A field that is a table
/// itself is compared field by field where that shows what does not fit.
pub open spec fn fields_check(
    db: DbTy,
    target: Ty,
    fields: Seq<LiteralFieldTy>,
    i: nat,
    st: FieldsTy,
) -> FieldsTy
    decreases fields, fields.len() - i,
{
    if i >= fields.len() || st.left == 0 {
        st
    } else {
        let entered = FieldsTy { left: (st.left - 1) as usize, ..st };
        let f = fields[i as int];
        let next = match (f.value, f.key) {
            (Some(value), Some(key)) => match raw::raw_type(db, target, key) {
                Err(_) => entered,
                Ok(expected) => match last_run_of(fields, i) {
                    Some((start, v)) => with_mismatch(
                        entered,
                        run_mismatch(db, target, start, v, 0),
                    ),
                    None => if assignable::fits(db, value, expected) {
                        entered
                    } else {
                        let child = match f.child {
                            Some(child) => match table_target::expanded_target(db, expected) {
                                Some(canonical) => match table_target::field_target(
                                    db,
                                    canonical,
                                    child.is_array,
                                    table_target::target_limit(),
                                ) {
                                    Some(nested) => if entered.left > 0 {
                                        fields_check(
                                            db,
                                            nested,
                                            child.fields,
                                            0,
                                            FieldsTy { mismatch: false, ..entered },
                                        )
                                    } else {
                                        FieldsTy { mismatch: false, ..entered }
                                    },
                                    None => FieldsTy { mismatch: false, ..entered },
                                },
                                None => FieldsTy { mismatch: false, ..entered },
                            },
                            None => FieldsTy { mismatch: false, ..entered },
                        };
                        if child.mismatch {
                            child
                        } else {
                            FieldsTy {
                                left: child.left,
                                found: if rejected(db, value, expected) {
                                    child.found.push(MismatchTy { actual: value, expected })
                                } else {
                                    child.found
                                },
                                mismatch: true,
                            }
                        }
                    },
                },
            },
            _ => entered,
        };
        fields_check(db, target, fields, i + 1, next)
    }
}

fn nested_target(db: &DbIndex, child: &TableLiteral, expected: &LuaType) -> (r: Option<LuaType>)
    ensures
        types::opt_ty(r) == (match table_target::expanded_target(db@, expected@) {
            Some(canonical) => table_target::field_target(db@, canonical, child.is_array, table_target::target_limit()),
            None => None,
        }),
{
    match expand_field_check_type(db, expected) {
        Some(canonical) => get_table_field_target(db, child.is_array, &canonical),
        None => None,
    }
}

fn push_mismatch(found: &mut Vec<FieldMismatch>, m: FieldMismatch)
    ensures
        mismatch_tys(final(found)@) == mismatch_tys(old(found)@).push(
            (MismatchTy { actual: m.actual@, expected: m.expected@ }),
        ),
{
    let ghost before = mismatch_tys(found@);
    let ghost added = MismatchTy { actual: m.actual@, expected: m.expected@ };
    found.push(m);
    assert(mismatch_tys(found@) =~= before.push(added));
}

/// Compares the fields of a written table with a target, and lists what does not fit.
#[verifier::loop_isolation(false)]
pub fn check_table_fields(
    db: &DbIndex,
    target: &LuaType,
    fields: &Vec<LiteralField>,
    state: &mut TableCheckState,
    found: &mut Vec<FieldMismatch>,
) -> (r: bool)
    ensures
        ({
            let out = fields_check(
                db@,
                target@,
                literal_field_tys(fields@),
                0,
                (FieldsTy {
                    left: old(state).remaining_fields,
                    found: mismatch_tys(old(found)@),
                    mismatch: false,
                }),
            );
            &&& r == out.mismatch
            &&& final(state).remaining_fields == out.left
            &&& mismatch_tys(final(found)@) == out.found
        }),
    decreases fields, fields@.len(),
{
    let ghost all = literal_field_tys(fields@);
    let ghost whole = fields_check(
        db@,
        target@,
        all,
        0,
        FieldsTy {
            left: state.remaining_fields,
            found: mismatch_tys(found@),
            mismatch: false,
        },
    );
    let mut mismatch = false;
    let mut i: usize = 0;
    while i < fields.len()
        invariant
            i <= fields@.len(),
            whole == fields_check(
                db@,
                target@,
                all,
                i as nat,
                FieldsTy {
                    left: state.remaining_fields,
                    found: mismatch_tys(found@),
                    mismatch,
                },
            ),
        decreases fields@.len() - i,
    {
        assert(all[i as int] == literal_field_ty(fields@[i as int]));
        if !state.enter_field() {
            return mismatch;
        }
        let field = &fields[i];
        let mut expected: Option<LuaType> = None;
        if field.value.is_some() {
            if let Some(key) = &field.key {
                if let Ok(t) = infer_raw_member_type(db, target, key) {
                    expected = Some(t);
                }
            }
        }
        if let (Some(expected), Some(value)) = (expected, &field.value) {
            let mut run = None;
            if field.is_value_field && i == fields.len() - 1 {
                if let Some(LuaMemberKey::Integer(start)) = &field.key {
                    if let LuaType::Variadic(v) = value {
                        run = Some((*start, v));
                    }
                }
            }
            if let Some((start, v)) = run {
                if let Some(m) = check_table_last_variadic_type(db, target, start, v) {
                    push_mismatch(found, m);
                    mismatch = true;
                }
            } else if !is_assignable(db, value, &expected, None) {
                mismatch = true;
                let mut inner = false;
                if let Some(child) = &field.child {
                    assert(all[i as int].child == Some(Box::new(literal_ty(*child))));
                    assert(literal_ty(*child).fields == literal_field_tys(child.fields@));
                    if let Some(nested) = nested_target(db, child, &expected) {
                        if !state.is_exhausted() {
                            assert(decreases_to!(fields => fields@[i as int]));
                            inner = check_table_fields(db, &nested, &child.fields, state, found);
                        }
                    }
                }
                if !inner {
                    if is_rejected(db, value, &expected) {
                        push_mismatch(found, FieldMismatch { actual: value.clone(), expected });
                    }
                }
            }
        }
        i += 1;
    }
    mismatch
}

/// How a written table is compared with a target.
#[derive(Debug)]
pub enum TableAssignmentOutcome {
    Assignable,
    FieldMismatch(Vec<FieldMismatch>),
    Fallback,
}

pub enum OutcomeTy {
    Assignable,
    FieldMismatch(Seq<MismatchTy>),
    Fallback,
}

impl View for TableAssignmentOutcome {
    type V = OutcomeTy;

    open spec fn view(&self) -> OutcomeTy {
        match self {
            TableAssignmentOutcome::Assignable => OutcomeTy::Assignable,
            TableAssignmentOutcome::FieldMismatch(found) => OutcomeTy::FieldMismatch(
                mismatch_tys(found@),
            ),
            TableAssignmentOutcome::Fallback => OutcomeTy::Fallback,
        }
    }
}

/// The fields of a written table are compared one by one where the table as a whole does not fit and
/// the target has fields that can be told.
pub open spec fn table_outcome(db: DbTy, table: LiteralTy, source: Ty, target: Ty) -> OutcomeTy {
    let nested = match table_target::expanded_target(db, target) {
        Some(canonical) => table_target::field_target(db, canonical, table.is_array, table_target::target_limit()),
        None => None,
    };
    if assignable::fits(db, source, target) {
        OutcomeTy::Assignable
    } else if table_target::leads_to_condition(db, target, 32) || nested is None {
        OutcomeTy::Fallback
    } else {
        let out = fields_check(
            db,
            nested.unwrap(),
            table.fields,
            0,
            FieldsTy { left: 2048, found: Seq::empty(), mismatch: false },
        );
        if out.mismatch {
            OutcomeTy::FieldMismatch(out.found)
        } else {
            OutcomeTy::Fallback
        }
    }
}

/// Compares a written table with a target.
pub fn check_table_type_mismatch(
    db: &DbIndex,
    table_expr: &TableLiteral,
    source: &LuaType,
    target: &LuaType,
) -> (r: TableAssignmentOutcome)
    ensures
        r@ == table_outcome(db@, literal_ty(*table_expr), source@, target@),
{
    if is_assignable(db, source, target, None) {
        return TableAssignmentOutcome::Assignable;
    }
    if is_generic_conditional_type(db, target) {
        return TableAssignmentOutcome::Fallback;
    }
    match nested_target(db, table_expr, target) {
        None => TableAssignmentOutcome::Fallback,
        Some(nested) => {
            let mut state = TableCheckState::new();
            let mut found: Vec<FieldMismatch> = Vec::new();
            assert(mismatch_tys(found@) =~= Seq::<MismatchTy>::empty());
            if check_table_fields(db, &nested, &table_expr.fields, &mut state, &mut found) {
                return TableAssignmentOutcome::FieldMismatch(found);
            }
            TableAssignmentOutcome::Fallback
        },
    }
}

/// A table that fits is never compared field by field.
pub proof fn fitting_table_is_accepted(db: DbTy, table: LiteralTy, source: Ty, target: Ty)
    requires
        assignable::fits(db, source, target),
    ensures
        table_outcome(db, table, source, target) is Assignable,
{
}

} // verus!
