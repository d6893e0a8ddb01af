//! What is reported of calls and written tables.

use vstd::prelude::*;

use crate::db;
use crate::db::{DbTy, DeclTy};
use crate::diagnostic::{args, call_check, table_fields, table_target};
use crate::diagnostic::args::ArgumentsTy;
use crate::diagnostic::call_check::CallDiagnosticTy;
use crate::diagnostic::table_fields::{FieldsTy, LiteralFieldTy, LiteralTy, MismatchTy, OutcomeTy};
use crate::laws::{fitting, indexing};
use crate::member::raw;
use crate::member::raw::InferFailReason;
use crate::type_check::assignable;
use crate::type_check::error_chain::MessageTy;
use crate::type_check::structured::declared;
use crate::types::{FunctionTy, ObjectTy, Ty, UnionTy, predicates};

verus! {

/// The signature is called as it is written, and takes as many arguments as it has parameters.
pub open spec fn called_as_written(f: FunctionTy, call: ArgumentsTy) -> bool {
    &&& f.is_colon_define == call.colon_call
    &&& call.args.len() <= f.params.len()
    &&& call.args.len() < usize::MAX
    &&& forall|i: int| 0 <= i < f.params.len() ==> (#[trigger] f.params[i]).1 is Some
}

proof fn lemma_place(f: FunctionTy, call: ArgumentsTy, i: nat)
    requires
        called_as_written(f, call),
    ensures
        i < call.args.len() ==> args::compared_arg(call, f, i) == Some(
            (call.args[i as int], Some(i as usize)),
        ) && args::wanted_param(call, f, i) == f.params[i as int].1,
        i >= call.args.len() ==> args::compared_arg(call, f, i) is None,
{
    if i < call.args.len() {
        assert(f.params[i as int].1 is Some);
    }
}

proof fn lemma_kept(db: DbTy, call: ArgumentsTy, funcs: Seq<FunctionTy>, i: nat, f: FunctionTy)
    requires
        funcs.contains(f),
        args::compared_arg(call, f, i) is None || (args::wanted_param(call, f, i) matches Some(p) && args::may_pass(
            db,
            args::compared_arg(call, f, i).unwrap().0,
            p,
        )),
    ensures
        args::place_check(db, call, funcs, i).kept.contains(f),
    decreases funcs.len(),
{
    let front = funcs.drop_last();
    let before = args::place_check(db, call, front, i);
    let after = args::place_check(db, call, funcs, i);
    if funcs.last() == f {
        assert(after.kept[after.kept.len() - 1] == f);
    } else {
        let k = choose|k: int| 0 <= k < funcs.len() && funcs[k] == f;
        assert(front[k] == f);
        lemma_kept(db, call, front, i, f);
        let j = choose|j: int| 0 <= j < before.kept.len() && before.kept[j] == f;
        assert(after.kept[j] == f);
    }
}

/// A call that one of the signatures takes is not reported, whatever the others take.
pub proof fn call_that_fits_a_signature_is_not_reported(
    db: DbTy,
    call: ArgumentsTy,
    funcs: Seq<FunctionTy>,
    f: FunctionTy,
    literals: Seq<Option<LiteralTy>>,
)
    requires
        funcs.contains(f),
        called_as_written(f, call),
        forall|i: int|
            0 <= i < call.args.len() ==> (#[trigger] f.params[i]).1.unwrap() is Any || assignable::surely_fits(
                db,
                call.args[i],
                f.params[i].1.unwrap(),
            ),
    ensures
        call_check::call_diagnostic(db, call, funcs, literals) is Nothing,
{
    lemma_no_misfit(db, call, funcs, f, 0);
}

proof fn lemma_no_misfit(
    db: DbTy,
    call: ArgumentsTy,
    funcs: Seq<FunctionTy>,
    f: FunctionTy,
    i: nat,
)
    requires
        funcs.contains(f),
        called_as_written(f, call),
        forall|k: int|
            0 <= k < call.args.len() ==> (#[trigger] f.params[k]).1.unwrap() is Any || assignable::surely_fits(
                db,
                call.args[k],
                f.params[k].1.unwrap(),
            ),
    ensures
        args::first_misfit(db, call, funcs, i) is None,
    decreases call.args.len() + 2 - i,
{
    if i <= call.args.len() + 1 {
        lemma_place(f, call, i);
        if i < call.args.len() {
            assert(f.params[i as int].1.unwrap() is Any || assignable::surely_fits(
                db,
                call.args[i as int],
                f.params[i as int].1.unwrap(),
            ));
            assert(f.params[i as int].1 is Some);
        }
        lemma_kept(db, call, funcs, i, f);
        let kept = args::place_check(db, call, funcs, i).kept;
        lemma_no_misfit(db, call, kept, f, i + 1);
    }
}

/// Of a call with a single signature, the first argument that does not fit is reported, with the type
/// of its parameter.
pub proof fn first_misfit_is_reported(db: DbTy, call: ArgumentsTy, f: FunctionTy, k: int)
    requires
        called_as_written(f, call),
        0 <= k < call.args.len(),
        fitting::value_kind(call.args[k]) is Some,
        fitting::value_kind(f.params[k].1.unwrap()) is Some,
        !fitting::value_fits(call.args[k], f.params[k].1.unwrap()),
        forall|i: int|
            0 <= i < k ==> (#[trigger] f.params[i]).1.unwrap() is Any || assignable::surely_fits(
                db,
                call.args[i],
                f.params[i].1.unwrap(),
            ),
    ensures
        call_check::call_diagnostic(db, call, seq![f], Seq::empty()) == (CallDiagnosticTy::Argument {
            arg: (call.args[k], Some(k as usize)),
            param: f.params[k].1.unwrap(),
            chain: seq![
                MessageTy::NotAssignable {
                    source: call.args[k],
                    target: f.params[k].1.unwrap(),
                },
            ],
        }),
{
    lemma_first_misfit(db, call, f, 0, k);
    let a = call.args[k];
    let p = f.params[k].1.unwrap();
    fitting::value_fits_at_a_glance(db, assignable::nothing_kept(), a, p, true);
    assignable::refused_at_a_glance_repeats(db, assignable::nothing_kept(), a, p);
}

proof fn lemma_first_misfit(db: DbTy, call: ArgumentsTy, f: FunctionTy, i: nat, k: int)
    requires
        called_as_written(f, call),
        i <= k < call.args.len(),
        fitting::value_kind(call.args[k]) is Some,
        fitting::value_kind(f.params[k].1.unwrap()) is Some,
        !fitting::value_fits(call.args[k], f.params[k].1.unwrap()),
        forall|j: int|
            0 <= j < k ==> (#[trigger] f.params[j]).1.unwrap() is Any || assignable::surely_fits(
                db,
                call.args[j],
                f.params[j].1.unwrap(),
            ),
    ensures
        args::first_misfit(db, call, seq![f], i) == Some(
            ((call.args[k], Some(k as usize)), f.params[k].1.unwrap()),
        ),
    decreases k - i,
{
    let one = seq![f];
    lemma_place(f, call, i);
    assert(f.params[i as int].1 is Some);
    assert(one.drop_last() =~= Seq::<FunctionTy>::empty());
    reveal_with_fuel(args::place_check, 2);
    let p = f.params[i as int].1.unwrap();
    let found = args::place_check(db, call, one, i);
    if i < k {
        assert(p is Any || assignable::surely_fits(db, call.args[i as int], p));
        assert(found.kept =~= one);
        lemma_first_misfit(db, call, f, i + 1, k);
    } else {
        fitting::value_fits_at_a_glance(db, assignable::nothing_kept(), call.args[k], p, false);
        assert(!args::may_pass(db, call.args[k], p));
        assert(found.unfit =~= seq![p]);
        assert(found.kept =~= Seq::<FunctionTy>::empty());
    }
}

/// Anything may be passed where any is taken, a number without a fraction where an integer is, and
/// otherwise what is known to fit.
pub proof fn what_may_be_passed(db: DbTy, a: Ty, b: Ty, bits: u64)
    requires
        fitting::value_kind(a) is Some,
        fitting::value_kind(b) is Some,
    ensures
        args::may_pass(db, a, Ty::Any),
        args::may_pass(db, a, b) == fitting::value_fits(a, b),
        args::is_whole_bits(bits) ==> args::may_pass(db, Ty::FloatConst(bits), Ty::Integer),
{
    fitting::value_fits_at_a_glance(db, assignable::nothing_kept(), a, b, false);
}

/// A function that is called as a method gets the receiver first, and a method that is called as a
/// function takes it from the first argument.
pub proof fn receiver_is_compared_first(call: ArgumentsTy, f: FunctionTy, i: nat, t: Ty)
    requires
        call.receiver == Some(t),
        i < call.args.len() < usize::MAX,
        i < f.params.len(),
        f.params[i as int].1 is Some,
    ensures
        call.colon_call && !f.is_colon_define && call.has_colon_range ==> args::compared_arg(call, f, 0)
            == Some((t, None::<usize>)),
        call.colon_call && !f.is_colon_define ==> args::compared_arg(call, f, i + 1) == Some(
            (call.args[i as int], Some(i as usize)),
        ),
        !call.colon_call && f.is_colon_define ==> args::wanted_param(call, f, 0) == Some(t),
        !call.colon_call && f.is_colon_define ==> args::wanted_param(call, f, i + 1)
            == f.params[i as int].1,
        call.colon_call == f.is_colon_define ==> args::wanted_param(call, f, i) == f.params[i as int].1,
{
}

/// A written table is accepted where it fits; else the value of a field that does not fit is reported
/// with the type that the field has to have.
pub proof fn misfit_of_a_written_field_is_reported(
    db: DbTy,
    o: ObjectTy,
    k: int,
    value: Ty,
    source: Ty,
    is_array: bool,
)
    requires
        0 <= k < o.fields.len(),
        !(o.fields[k].0 is TypeKey),
        forall|j: int| 0 <= j < k ==> (#[trigger] o.fields[j]).0 != o.fields[k].0,
        fitting::value_kind(value) is Some,
        fitting::value_kind(o.fields[k].1) is Some,
    ensures
        ({
            let target = Ty::Object(Box::new(o));
            let field = LiteralFieldTy {
                key: Some(o.fields[k].0),
                value: Some(value),
                is_value_field: false,
                child: None,
            };
            let table = LiteralTy { is_array, fields: seq![field] };
            &&& assignable::fits(db, source, target) ==> table_fields::table_outcome(db, table, source, target) is Assignable
            &&& !assignable::fits(db, source, target) && !fitting::value_fits(value, o.fields[k].1) ==> table_fields::table_outcome(
                db,
                table,
                source,
                target,
            ) == OutcomeTy::FieldMismatch(
                seq![MismatchTy { actual: value, expected: o.fields[k].1 }],
            )
            &&& !assignable::fits(db, source, target) && fitting::value_fits(value, o.fields[k].1) ==> table_fields::table_outcome(
                db,
                table,
                source,
                target,
            ) is Fallback
        }),
{
    let target = Ty::Object(Box::new(o));
    let expected = o.fields[k].1;
    let field = LiteralFieldTy {
        key: Some(o.fields[k].0),
        value: Some(value),
        is_value_field: false,
        child: None,
    };
    let fields = seq![field];
    indexing::lemma_first_field(o.fields, o.fields[k].0, k);
    assert(raw::raw_type(db, target, o.fields[k].0) == Ok::<Ty, InferFailReason>(expected));
    fitting::value_fits_at_a_glance(db, assignable::nothing_kept(), value, expected, true);
    reveal(table_fields::rejected);
    assert(table_target::field_target(db, target, is_array, table_target::target_limit()) == Some(target));
    let start = FieldsTy { left: 2048, found: Seq::empty(), mismatch: false };
    assert(fields[0] == field);
    assert(table_fields::last_run_of(fields, 0) is None);
    let next = if fitting::value_fits(value, expected) {
        FieldsTy { left: 2047, found: Seq::empty(), mismatch: false }
    } else {
        FieldsTy {
            left: 2047,
            found: Seq::empty().push(MismatchTy { actual: value, expected }),
            mismatch: true,
        }
    };
    assert(table_fields::fields_check(db, target, fields, 1, next) == next);
    assert(table_fields::fields_check(db, target, fields, 0, start) == next);
    assert(Seq::empty().push(MismatchTy { actual: value, expected }) =~= seq![
        MismatchTy { actual: value, expected },
    ]);
}

/// The fields of a written table are compared with the type behind an alias and beside nil, where that
/// has fields.
pub proof fn fields_are_compared_with_the_type_behind(
    db: DbTy,
    id: Seq<char>,
    decl: DeclTy,
    o: ObjectTy,
    is_array: bool,
)
    requires
        db::decl_of(db, id) == Some(decl),
        decl.kind is Alias,
        decl.alias_ref == Some(Ty::Object(Box::new(o))),
    ensures
        ({
            let t = Ty::Object(Box::new(o));
            &&& table_target::unaliased(db, Ty::Ref(id)) == t
            &&& table_target::unaliased(db, t) == t
            &&& table_target::expanded_target(db, Ty::Ref(id)) == Some(t)
            &&& table_target::expanded_target(db, t) == Some(t)
            &&& table_target::field_target(db, t, is_array, table_target::target_limit()) == Some(t)
            &&& table_target::field_target(db, Ty::Ref(id), is_array, table_target::target_limit()) == Some(t)
            &&& table_target::field_target(
                db,
                Ty::Union(Box::new(UnionTy::Nullable(t))),
                is_array,
                table_target::target_limit(),
            ) == Some(t)
            &&& table_target::field_target(db, Ty::String, is_array, table_target::target_limit()) is None
        }),
{
    let t = Ty::Object(Box::new(o));
    reveal_with_fuel(table_target::real_type, 3);
    reveal_with_fuel(table_target::expanded, 3);
    reveal(declared::alias_origin);
    assert(table_target::alias_step(db, Ty::Ref(id)) == Some(Some(t)));
    assert(table_target::alias_step(db, t) is None);
    assert(table_target::has_fields(db, t, table_target::target_limit()));
    assert(table_target::field_target(db, t, is_array, table_target::target_limit()) == Some(t));
    assert(table_target::field_target(db, t, is_array, (table_target::target_limit() - 1) as nat) == Some(t));
}

/// A class has fields that can be compared and told to be missing; an enumeration and a plain value
/// have none.
pub proof fn classes_have_fields_to_compare(db: DbTy, id: Seq<char>, decl: DeclTy, room: nat)
    requires
        db::decl_of(db, id) == Some(decl),
        decl.alias_ref is None,
    ensures
        decl.kind is Class ==> table_target::has_fields(db, Ty::Ref(id), room) && table_target::tells_fields(
            db,
            Ty::Ref(id),
            room,
        ),
        decl.kind is Enum ==> !table_target::has_fields(db, Ty::Ref(id), room) && !table_target::tells_fields(
            db,
            Ty::Ref(id),
            room,
        ),
        table_target::has_fields(db, Ty::Table, room),
        !table_target::has_fields(db, Ty::String, room),
        !table_target::tells_fields(db, Ty::Table, room),
{
    reveal_with_fuel(table_target::real_type, 2);
}

/// An argument that fits neither of two signatures is reported with what either wants.
pub proof fn misfit_of_all_signatures_wants_either(
    db: DbTy,
    call: ArgumentsTy,
    f: FunctionTy,
    g: FunctionTy,
)
    requires
        called_as_written(f, call),
        called_as_written(g, call),
        call.args.len() > 0,
        fitting::value_kind(call.args[0]) is Some,
        fitting::value_kind(f.params[0].1.unwrap()) is Some,
        fitting::value_kind(g.params[0].1.unwrap()) is Some,
        !fitting::value_fits(call.args[0], f.params[0].1.unwrap()),
        !fitting::value_fits(call.args[0], g.params[0].1.unwrap()),
    ensures
        args::first_misfit(db, call, seq![f, g], 0) == Some(
            (
                (call.args[0], Some(0usize)),
                predicates::ty_from_list(seq![f.params[0].1.unwrap(), g.params[0].1.unwrap()]),
            ),
        ),
{
    let p = f.params[0].1.unwrap();
    let q = g.params[0].1.unwrap();
    let both = seq![f, g];
    lemma_place(f, call, 0);
    lemma_place(g, call, 0);
    assert(f.params[0].1 is Some && g.params[0].1 is Some);
    fitting::value_fits_at_a_glance(db, assignable::nothing_kept(), call.args[0], p, false);
    fitting::value_fits_at_a_glance(db, assignable::nothing_kept(), call.args[0], q, false);
    assert(!args::may_pass(db, call.args[0], p) && !args::may_pass(db, call.args[0], q));
    reveal_with_fuel(args::place_check, 3);
    assert(both.drop_last() =~= seq![f]);
    assert(seq![f].drop_last() =~= Seq::<FunctionTy>::empty());
    let found = args::place_check(db, call, both, 0);
    assert(found.unfit =~= seq![p, q]);
    assert(found.kept =~= Seq::<FunctionTy>::empty());
}

/// A number that is a power of two from one on is whole; one below one is not, and neither is what is
/// no number or infinite.
pub proof fn whole_numbers_have_no_fraction(bits: u64)
    ensures
        ({
            let exponent = (bits >> 52u64) & 0x7ffu64;
            let mantissa = bits & 0xf_ffff_ffff_ffffu64;
            &&& bits == 0 ==> args::is_whole_bits(bits)
            &&& mantissa == 0 && 1023 <= exponent < 2047 ==> args::is_whole_bits(bits)
            &&& 0 < exponent < 1023 ==> !args::is_whole_bits(bits)
            &&& exponent == 2047 ==> !args::is_whole_bits(bits)
            &&& 1075 <= exponent < 2047 ==> args::is_whole_bits(bits)
            &&& 1023 <= exponent < 1075 && mantissa & 1 == 1 ==> !args::is_whole_bits(bits)
        }),
{
    let exponent = (bits >> 52u64) & 0x7ffu64;
    let mantissa = bits & 0xf_ffff_ffff_ffffu64;
    assert(bits == 0 ==> (bits >> 52u64) & 0x7ffu64 == 0 && bits & 0xf_ffff_ffff_ffffu64 == 0)
        by (bit_vector);
    if 1023 <= exponent < 1075 {
        let k = (exponent - 1011) as u64;
        assert(12 <= k < 64);
        assert(forall|n: u64| 12 <= n < 64 ==> #[trigger] (0u64 << n) == 0u64) by (bit_vector);
        if mantissa == 0 {
            assert(mantissa << k == 0u64 << k);
            assert(0u64 << k == 0u64);
        }
        if mantissa & 1 == 1 {
            assert(mantissa << k != 0) by (bit_vector)
                requires
                    mantissa & 1 == 1,
                    k < 64u64,
            ;
        }
    }
}

} // verus!
