use std::sync::Arc;

use emmylua_code_analysis::db::{
    DbIndex, LuaDeclKind, LuaMemberIndexItem, LuaMemberOwner, LuaOwnerMembers, LuaTypeDecl, TypeOps,
};
use emmylua_code_analysis::diagnostic::args::{
    check_param_type_mismatch, is_whole_number, CallArguments,
};
use emmylua_code_analysis::diagnostic::call_check::{check_call_arguments, CallDiagnostic};
use emmylua_code_analysis::diagnostic::table_fields::{
    check_table_type_mismatch, LiteralField, TableAssignmentOutcome, TableLiteral,
};
use emmylua_code_analysis::generic::actualize::actualize_unresolved_templates;
use emmylua_code_analysis::generic::conditional::{
    check_conditional_extends, merge_conditional_check, ConditionalCheck, InferVariance,
};
use emmylua_code_analysis::generic::instantiate::instantiate_conditional_type;
use emmylua_code_analysis::generic::special::{
    get_keyof_members, instantiate_alias_call, instantiate_index_call, instantiate_merge_call,
    instantiate_select_call, instantiate_unpack_call,
};
use emmylua_code_analysis::generic::substitutor::{instantiate_type_generic, TypeSubstitutor};
use emmylua_code_analysis::flow::assign::is_exact_assignment_expr_type;
use emmylua_code_analysis::flow::query::VarRefId;
use emmylua_code_analysis::infer::expected::{
    infer_table_field_value_should_be, infer_table_should_be, FieldPlace, TablePlace,
};
use emmylua_code_analysis::infer::expr::{
    infer_index_expr, infer_index_result, infer_ternary_expr,
};
use emmylua_code_analysis::infer::lookup::{infer_member_by_member_key, MemberLookupQuery};
use emmylua_code_analysis::infer::operator::infer_member_by_key_type;
use emmylua_code_analysis::infer::or_rule::{
    can_empty_table_satisfy_type, infer_binary_expr_or, narrow_false_or_nil, remove_false_or_nil,
    special_or_rule, OrSide,
};
use emmylua_code_analysis::infer::range::{check_iter_var_range, BoundExpr, IndexVar};
use emmylua_code_analysis::infer::table::{infer_table_tuple_or_array, ListField};
use emmylua_code_analysis::member::raw::{infer_raw_member_type, InferFailReason};
use emmylua_code_analysis::overload::params::{
    callable_accepts_args, get_call_param_index, get_func_param_type, is_func_last_param_variadic,
};
use emmylua_code_analysis::overload::resolve::resolve_signature_by_args;
use emmylua_code_analysis::type_check::error_chain::ChainMessage;
use emmylua_code_analysis::types::{
    AsyncState, GenericTpl, GenericTplId, LuaAliasCallKind, LuaAliasCallType, LuaArrayType,
    LuaConditionalType, LuaFloat, LuaFunctionType, LuaIndexAccessKey, LuaMemberKey, LuaMultiLineUnion,
    LuaObjectType,
    LuaTupleStatus, LuaTupleType, LuaType, LuaTypeDeclId, VariadicType,
};

fn name(text: &str) -> LuaMemberKey {
    LuaMemberKey::Name(text.to_string())
}

fn text(value: &str) -> LuaType {
    LuaType::StringConst(value.to_string())
}

fn function(params: Vec<LuaType>, ret: LuaType) -> Arc<LuaFunctionType> {
    let params = params
        .into_iter()
        .enumerate()
        .map(|(i, typ)| (format!("p{i}"), Some(typ)))
        .collect();
    Arc::new(LuaFunctionType::new(AsyncState::Unspecified, false, false, params, ret, None))
}

fn object(fields: Vec<(&str, LuaType)>) -> LuaType {
    let fields = fields
        .into_iter()
        .map(|(key, typ)| (LuaIndexAccessKey::String(key.to_string()), typ))
        .collect();
    LuaType::Object(Arc::new(LuaObjectType::new(fields)))
}

fn tuple(types: Vec<LuaType>) -> LuaType {
    LuaType::Tuple(Arc::new(LuaTupleType::new(types, LuaTupleStatus::DocResolve)))
}

fn array(base: LuaType) -> LuaType {
    LuaType::Array(Arc::new(LuaArrayType::from_base_type(base)))
}

fn template(id: GenericTplId) -> LuaType {
    LuaType::TplRef(Arc::new(GenericTpl::new(id, "T".to_string(), None, None, false, None)))
}

fn class(id: &str, fields: Vec<(LuaMemberKey, LuaType)>, supers: Vec<LuaType>) -> DbIndex {
    let mut db = DbIndex::new();
    Arc::get_mut(&mut db.tables).unwrap().strict_array_index = true;
    add_class(&mut db, id, fields, supers);
    db
}

fn add_class(
    db: &mut DbIndex,
    id: &str,
    fields: Vec<(LuaMemberKey, LuaType)>,
    super_types: Vec<LuaType>,
) {
    let tables = Arc::get_mut(&mut db.tables).unwrap();
    tables.type_decls.push((
        LuaTypeDeclId::global(id),
        LuaTypeDecl {
            kind: LuaDeclKind::Class,
            generic_params: Vec::new(),
            alias_ref: None,
            super_types,
            enum_fields: None,
            call_operators: Vec::new(),
            constructor: None,
            index_operators: Vec::new(),
            is_enum_key: false,
        },
    ));
    let items = fields
        .into_iter()
        .map(|(key, typ)| LuaMemberIndexItem { key, types: vec![typ] })
        .collect();
    tables.owners.push(LuaOwnerMembers {
        owner: LuaMemberOwner::Type(LuaTypeDeclId::global(id)),
        items,
    });
}

fn class_ref(id: &str) -> LuaType {
    LuaType::Ref(LuaTypeDeclId::global(id))
}

fn resolve(
    overloads: &[Arc<LuaFunctionType>],
    args: &[LuaType],
) -> Result<LuaType, InferFailReason> {
    let declined = vec![false; args.len()];
    let count = Some(args.len());
    resolve_signature_by_args(&DbIndex::new(), overloads, args, false, count, &declined)
        .map(|function| function.get_ret().clone())
}

#[test]
fn overload_that_accepts_the_arguments_wins() {
    let overloads = [
        function(vec![LuaType::String], LuaType::String),
        function(vec![LuaType::Number], LuaType::Number),
    ];
    assert_eq!(resolve(&overloads, &[LuaType::String]), Ok(LuaType::String));
    assert_eq!(resolve(&overloads, &[LuaType::Integer]), Ok(LuaType::Number));
}

#[test]
fn narrower_overload_wins() {
    let overloads = [
        function(vec![LuaType::Number], LuaType::Number),
        function(vec![LuaType::Integer], LuaType::Integer),
    ];
    assert_eq!(resolve(&overloads, &[LuaType::Integer]), Ok(LuaType::Integer));
    assert_eq!(resolve(&overloads, &[LuaType::Number]), Ok(LuaType::Number));
}

#[test]
fn overloads_need_a_signature() {
    assert_eq!(resolve(&[], &[LuaType::String]), Err(InferFailReason::Unsupported));
    let only = [function(vec![LuaType::Number], LuaType::Boolean)];
    assert_eq!(resolve(&only, &[LuaType::String]), Ok(LuaType::Boolean));
}

#[test]
fn arguments_are_counted_against_parameters() {
    let db = DbIndex::new();
    let two = function(vec![LuaType::String, LuaType::Number], LuaType::Nil);
    assert!(callable_accepts_args(
        &db,
        &two,
        &[LuaType::String, LuaType::Integer],
        false,
        Some(2)
    ));
    assert!(!callable_accepts_args(&db, &two, &[LuaType::Number], false, Some(1)));
    assert_eq!(get_call_param_index(&two, 1, false), Some(1));
    assert_eq!(get_func_param_type(&two, 1), Some(LuaType::Number));
    assert_eq!(get_func_param_type(&two, 2), None);
    assert!(!is_func_last_param_variadic(&two));
    let rest = LuaFunctionType::new(
        AsyncState::Unspecified,
        false,
        true,
        vec![("...".to_string(), Some(LuaType::String))],
        LuaType::Nil,
        None,
    );
    assert!(is_func_last_param_variadic(&rest));
    assert_eq!(get_func_param_type(&rest, 4), Some(LuaType::String));
}

#[test]
fn templates_are_replaced_by_arguments() {
    let s = TypeSubstitutor::from_type_array(&vec![LuaType::String, LuaType::Number]);
    assert_eq!(
        instantiate_type_generic(&DbIndex::new(), &array(template(GenericTplId::Type(1))), &s),
        array(LuaType::Number)
    );
    let free = template(GenericTplId::Func(0));
    assert_eq!(instantiate_type_generic(&DbIndex::new(), &free, &s), free);
    assert_eq!(actualize_unresolved_templates(&array(free)), array(LuaType::Unknown));
}

#[test]
fn select_drops_the_values_before_an_index() {
    let run = LuaType::Variadic(Arc::new(VariadicType::Multi(vec![
        LuaType::String,
        LuaType::Number,
        LuaType::Boolean,
    ])));
    let rest = instantiate_select_call(&run, &LuaType::IntegerConst(2));
    assert_eq!(rest.get_result_slot_type(0), Some(LuaType::Number));
    assert_eq!(rest.get_result_slot_type(1), Some(LuaType::Boolean));
    let last = instantiate_select_call(&run, &LuaType::IntegerConst(-1));
    assert_eq!(last.get_result_slot_type(0), Some(LuaType::Boolean));
    assert_eq!(instantiate_select_call(&run, &text("#")), LuaType::IntegerConst(3));
}

#[test]
fn unpack_gives_the_elements_in_order() {
    let db = DbIndex::new();
    let both = tuple(vec![LuaType::String, LuaType::Number]);
    let run = instantiate_unpack_call(&db, &vec![both]);
    assert_eq!(run.get_result_slot_type(0), Some(LuaType::String));
    assert_eq!(run.get_result_slot_type(1), Some(LuaType::Number));
}

#[test]
fn index_reads_the_type_of_a_key() {
    let db = DbIndex::new();
    let typ = object(vec![("value", LuaType::String)]);
    assert_eq!(instantiate_index_call(&db, &typ, &text("value")), LuaType::String);
    let keys = get_keyof_members(&db, &typ).unwrap();
    assert_eq!(keys.len(), 1);
    assert_eq!(keys[0].0, name("value"));
}

#[test]
fn merge_keeps_the_fields_of_both() {
    let db = DbIndex::new();
    let left = object(vec![("a", LuaType::String), ("both", LuaType::String)]);
    let right = object(vec![("b", LuaType::Number), ("both", LuaType::Number)]);
    let LuaType::Object(merged) = instantiate_merge_call(&db, &vec![left, right]) else {
        panic!("two objects make an object");
    };
    assert_eq!(merged.get_member_type(&name("a")), Some(LuaType::String));
    assert_eq!(merged.get_member_type(&name("b")), Some(LuaType::Number));
    assert_eq!(merged.get_member_type(&name("both")), Some(LuaType::Number));
}

#[test]
fn operators_work_on_instantiated_operands() {
    let db = DbIndex::new();
    let s = TypeSubstitutor::from_type_array(&vec![object(vec![("value", LuaType::Number)])]);
    let call = LuaAliasCallType::new(
        LuaAliasCallKind::Index,
        vec![template(GenericTplId::Type(0)), LuaType::DocStringConst("value".to_string())],
    );
    assert_eq!(instantiate_alias_call(&db, &call, &s), LuaType::Number);
}

#[test]
fn conditions_choose_a_branch() {
    let db = DbIndex::new();
    let conditional = LuaConditionalType::new(
        template(GenericTplId::Type(0)),
        LuaType::String,
        LuaType::DocBooleanConst(true),
        LuaType::DocBooleanConst(false),
        Vec::new(),
        false,
    );
    let choose = |typ: LuaType| {
        let s = TypeSubstitutor::from_type_array(&vec![typ]);
        instantiate_conditional_type(&db, &conditional, &s)
    };
    assert_eq!(choose(text("a")), LuaType::DocBooleanConst(true));
    assert_eq!(choose(LuaType::Number), LuaType::DocBooleanConst(false));
    assert_eq!(choose(LuaType::Never), LuaType::Never);
    let both = choose(TypeOps::union(&LuaType::String, &LuaType::Number));
    assert_eq!(
        both,
        TypeOps::union(&LuaType::DocBooleanConst(true), &LuaType::DocBooleanConst(false))
    );
}

#[test]
fn condition_checks_are_merged_in_any_order() {
    for left in [ConditionalCheck::True, ConditionalCheck::False, ConditionalCheck::Both] {
        for right in [ConditionalCheck::True, ConditionalCheck::False, ConditionalCheck::Both] {
            assert_eq!(merge_conditional_check(left, right), merge_conditional_check(right, left));
        }
    }
    assert_eq!(InferVariance::Covariant.flip().flip(), InferVariance::Covariant);
    let db = DbIndex::new();
    assert_eq!(
        check_conditional_extends(&db, &LuaType::Integer, &LuaType::Number),
        ConditionalCheck::True
    );
    assert_eq!(
        check_conditional_extends(&db, &LuaType::String, &LuaType::Number),
        ConditionalCheck::False
    );
}

#[test]
fn members_are_found_by_key_in_class_and_parent() {
    let mut db = class("Base", vec![(name("inherited"), LuaType::Number)], Vec::new());
    add_class(&mut db, "Child", vec![(name("own"), LuaType::String)], vec![class_ref("Base")]);
    let child = class_ref("Child");
    assert_eq!(infer_member_by_key_type(&db, &child, &text("own")), Ok(LuaType::String));
    assert_eq!(infer_member_by_key_type(&db, &child, &text("inherited")), Ok(LuaType::Number));
    assert_eq!(
        infer_member_by_key_type(&db, &child, &text("missing")),
        Err(InferFailReason::FieldNotFound)
    );
    assert_eq!(infer_raw_member_type(&db, &child, &name("inherited")), Ok(LuaType::Number));
}

#[test]
fn elements_are_found_by_index() {
    let mut db = DbIndex::new();
    Arc::get_mut(&mut db.tables).unwrap().strict_array_index = true;
    let find = |db: &DbIndex, typ: &LuaType, index: i64| {
        let lookup = MemberLookupQuery::from_key_type(LuaType::IntegerConst(index));
        infer_member_by_member_key(db, typ, &lookup)
    };
    let both = tuple(vec![LuaType::String, LuaType::Number]);
    assert_eq!(find(&db, &both, 1), Ok(LuaType::String));
    assert_eq!(find(&db, &both, 2), Ok(LuaType::Number));
    assert_eq!(find(&db, &both, 3), Err(InferFailReason::FieldNotFound));
    let list = array(LuaType::String);
    assert_eq!(
        find(&db, &list, 1),
        Ok(TypeOps::union(&LuaType::String, &LuaType::Nil))
    );
    Arc::get_mut(&mut db.tables).unwrap().strict_array_index = false;
    assert_eq!(find(&db, &list, 1), Ok(LuaType::String));
}

#[test]
fn or_takes_the_right_side_only_where_the_left_is_falsy() {
    let optional = TypeOps::union(&LuaType::String, &LuaType::Nil);
    assert_eq!(remove_false_or_nil(&optional), LuaType::String);
    assert_eq!(infer_binary_expr_or(LuaType::String, LuaType::Number), LuaType::String);
    assert_eq!(infer_binary_expr_or(LuaType::Nil, LuaType::Number), LuaType::Number);
    assert_eq!(
        infer_binary_expr_or(optional, LuaType::Number),
        TypeOps::union(&LuaType::String, &LuaType::Number)
    );
}

#[test]
fn table_literals_are_tuples_or_arrays() {
    let db = DbIndex::new();
    let fields = vec![
        ListField { is_dots: false, typ: LuaType::IntegerConst(1) },
        ListField { is_dots: false, typ: text("a") },
    ];
    let typ = infer_table_tuple_or_array(&db, &fields);
    assert!(typ.is_tuple(), "{typ:?}");
    let dots = LuaType::Variadic(Arc::new(VariadicType::Base(LuaType::String)));
    let rest = infer_table_tuple_or_array(&db, &vec![ListField { is_dots: true, typ: dots }]);
    let LuaType::Array(rest) = rest else {
        panic!("any number of values make an array");
    };
    assert_eq!(
        TypeOps::remove(rest.get_base(), &LuaType::Nil),
        LuaType::String
    );
}

#[test]
fn first_argument_that_fits_no_candidate_is_reported() {
    let db = DbIndex::new();
    let call = |args: Vec<LuaType>| CallArguments {
        arg_types: args,
        self_type: None,
        is_colon_call: false,
        has_colon_range: false,
    };
    let candidates = || vec![function(vec![LuaType::String, LuaType::Number], LuaType::Nil)];
    let fitting = call(vec![LuaType::String, LuaType::Integer]);
    assert!(check_param_type_mismatch(&db, &fitting, candidates()).is_none());
    let misfit = call(vec![LuaType::String, LuaType::Boolean]);
    let Some((arg, param)) = check_param_type_mismatch(&db, &misfit, candidates()) else {
        panic!("a boolean is no number");
    };
    assert_eq!(arg.typ, LuaType::Boolean);
    assert_eq!(arg.expr_index, Some(1));
    assert_eq!(param, LuaType::Number);
}

#[test]
fn whole_numbers_are_told_by_their_bits() {
    for value in [0.0f64, -0.0, 1.0, 2.0, -3.0, 1e300] {
        assert!(is_whole_number(LuaFloat::from_bits(value.to_bits())), "{value}");
    }
    for value in [0.5f64, 1.25, 1e-300, f64::INFINITY, f64::NAN] {
        assert!(!is_whole_number(LuaFloat::from_bits(value.to_bits())), "{value}");
    }
}

#[test]
fn fields_of_a_table_are_reported_one_by_one() {
    let db = class("Point", vec![(name("x"), LuaType::Number)], Vec::new());
    let target = class_ref("Point");
    let literal = |value: LuaType| TableLiteral {
        is_array: false,
        fields: vec![LiteralField {
            key: Some(name("x")),
            value: Some(value),
            is_value_field: false,
            child: None,
        }],
    };
    let fitting = object(vec![("x", LuaType::IntegerConst(1))]);
    assert!(matches!(
        check_table_type_mismatch(&db, &literal(LuaType::IntegerConst(1)), &fitting, &target),
        TableAssignmentOutcome::Assignable
    ));
    let misfit = object(vec![("x", text("a"))]);
    match check_table_type_mismatch(&db, &literal(text("a")), &misfit, &target) {
        TableAssignmentOutcome::FieldMismatch(found) => {
            assert_eq!(found.len(), 1);
            assert_eq!(found[0].actual, text("a"));
            assert_eq!(found[0].expected, LuaType::Number);
        }
        other => panic!("{other:?}"),
    }
}

#[test]
fn tables_take_the_type_of_their_place() {
    let db = DbIndex::new();
    let point = object(vec![("x", LuaType::Number)]);
    let optional = TypeOps::union(&point, &LuaType::Nil);
    let callee = function(vec![LuaType::String, optional], LuaType::Nil);
    let argument = |index: usize| TablePlace::Argument {
        function: Ok(callee.clone()),
        arg_index: Some(index),
        is_colon_call: false,
    };
    assert_eq!(infer_table_should_be(&db, &argument(1)), Ok(point.clone()));
    assert_eq!(infer_table_should_be(&db, &argument(2)), Err(InferFailReason::Unsupported));
    let colon = TablePlace::Argument {
        function: Ok(callee.clone()),
        arg_index: Some(0),
        is_colon_call: true,
    };
    assert_eq!(infer_table_should_be(&db, &colon), Ok(point.clone()));
    assert_eq!(
        infer_table_should_be(&db, &TablePlace::Declared(Ok(point.clone()))),
        Ok(point.clone())
    );
    let field = FieldPlace {
        known: None,
        is_value_field: true,
        member: 5,
        lookup: MemberLookupQuery::from_key_type(text("x")),
        parent: TablePlace::Declared(Ok(point.clone())),
    };
    assert_eq!(infer_table_field_value_should_be(&db, &field), Ok(LuaType::Number));
    assert_eq!(
        infer_table_should_be(&db, &TablePlace::Field(Box::new(field))),
        Ok(LuaType::Number)
    );
    let unknown = FieldPlace {
        known: None,
        is_value_field: false,
        member: 5,
        lookup: MemberLookupQuery::from_key_type(text("x")),
        parent: TablePlace::Other,
    };
    assert_eq!(
        infer_table_should_be(&db, &TablePlace::Field(Box::new(unknown))),
        Err(InferFailReason::NeedResolve(5))
    );
    assert_eq!(
        infer_table_should_be(&db, &TablePlace::Other),
        Err(InferFailReason::Unsupported)
    );
}

#[test]
fn loop_variables_are_bound_by_a_length() {
    let items = VarRefId { id: 1, position: 0, is_index_ref: false, is_global: false };
    let others = VarRefId { id: 2, ..items };
    let up = IndexVar::Name {
        bounds: vec![BoundExpr::Other, BoundExpr::Length(Some(items))],
        step_type: None,
    };
    assert_eq!(check_iter_var_range(&up, Some(items)), Some(true));
    assert_eq!(check_iter_var_range(&up, Some(others)), Some(false));
    assert_eq!(check_iter_var_range(&up, None), None);
    let down = |step: i64| IndexVar::Name {
        bounds: vec![BoundExpr::Length(Some(items)), BoundExpr::Other, BoundExpr::Other],
        step_type: Some(LuaType::IntegerConst(step)),
    };
    assert_eq!(check_iter_var_range(&down(-1), Some(items)), Some(true));
    assert_eq!(check_iter_var_range(&down(1), Some(items)), None);
    assert_eq!(check_iter_var_range(&down(0), Some(items)), None);
    let last = IndexVar::Unary(BoundExpr::Length(Some(items)));
    assert_eq!(check_iter_var_range(&last, Some(items)), Some(true));
}

#[test]
fn tuples_and_objects_collapse_to_their_elements() {
    let both = LuaTupleType::new(
        vec![LuaType::IntegerConst(1), LuaType::String],
        LuaTupleStatus::InferResolve,
    );
    assert_eq!(
        both.collapse_to_union(),
        TypeOps::union(&LuaType::DocIntegerConst(1), &LuaType::String)
    );
    let none = LuaTupleType::new(Vec::new(), LuaTupleStatus::InferResolve);
    assert_eq!(none.collapse_to_union(), LuaType::Unknown);
    let list = LuaObjectType::new(vec![
        (LuaIndexAccessKey::Integer(1), LuaType::String),
        (LuaIndexAccessKey::Integer(2), LuaType::Number),
    ]);
    assert_eq!(
        list.cast_down_array_base(),
        Some(TypeOps::union(&LuaType::String, &LuaType::Number))
    );
    let gap = LuaObjectType::new(vec![(LuaIndexAccessKey::Integer(2), LuaType::Number)]);
    assert_eq!(gap.cast_down_array_base(), None);
    let map = LuaObjectType::new(vec![
        (LuaIndexAccessKey::Type(LuaType::Integer), LuaType::Boolean),
        (LuaIndexAccessKey::Type(LuaType::String), LuaType::Number),
    ]);
    assert_eq!(map.cast_down_array_base(), Some(LuaType::Boolean));
}

#[test]
fn defaults_written_with_or_keep_the_type_on_the_left() {
    let db = class("Options", Vec::new(), Vec::new());
    let options = class_ref("Options");
    let optional = TypeOps::union(&options, &LuaType::Nil);
    assert_eq!(
        special_or_rule(&db, &optional, &LuaType::Table, OrSide::Name, OrSide::EmptyTable),
        Some(options.clone())
    );
    assert_eq!(
        special_or_rule(&db, &optional, &LuaType::Nil, OrSide::Name, OrSide::ErrorCall),
        Some(options)
    );
    let name = TypeOps::union(&LuaType::String, &LuaType::Nil);
    assert_eq!(
        special_or_rule(&db, &name, &text("a"), OrSide::Name, OrSide::Literal),
        Some(LuaType::String)
    );
    assert_eq!(
        special_or_rule(&db, &name, &LuaType::IntegerConst(1), OrSide::Name, OrSide::Literal),
        None
    );
    assert_eq!(
        special_or_rule(&db, &name, &text("a"), OrSide::Other, OrSide::Literal),
        None
    );
}

#[test]
fn table_with_required_fields_is_not_empty() {
    let db = class("Point", vec![(name("x"), LuaType::Number)], Vec::new());
    assert!(!can_empty_table_satisfy_type(&db, &class_ref("Point")));
    let optional = TypeOps::union(&LuaType::Number, &LuaType::Nil);
    let db = class("Point", vec![(name("x"), optional)], Vec::new());
    assert!(can_empty_table_satisfy_type(&db, &class_ref("Point")));
}

#[test]
fn resolved_signature_is_one_of_those_given() {
    let overloads = [
        function(vec![LuaType::String], LuaType::String),
        function(vec![LuaType::Number, LuaType::Number], LuaType::Number),
        function(Vec::new(), LuaType::Boolean),
    ];
    for args in [
        vec![],
        vec![LuaType::Boolean],
        vec![LuaType::Number, LuaType::Number],
        vec![LuaType::Any, LuaType::Any, LuaType::Any],
    ] {
        let ret = resolve(&overloads, &args).unwrap();
        assert!(overloads.iter().any(|given| *given.get_ret() == ret));
    }
    assert_eq!(resolve(&overloads, &[]), Ok(LuaType::Boolean));
}

#[test]
fn written_tables_are_reported_by_their_fields() {
    let db = class("Point", vec![(name("x"), LuaType::Number)], Vec::new());
    let candidates = || vec![function(vec![class_ref("Point")], LuaType::Nil)];
    let literal = |value: LuaType| TableLiteral {
        is_array: false,
        fields: vec![LiteralField {
            key: Some(name("x")),
            value: Some(value),
            is_value_field: false,
            child: None,
        }],
    };
    let call = |typ: LuaType| CallArguments {
        arg_types: vec![typ],
        self_type: None,
        is_colon_call: false,
        has_colon_range: false,
    };
    let misfit = object(vec![("x", text("a"))]);
    let tables = vec![Some(literal(text("a")))];
    match check_call_arguments(&db, &call(misfit.clone()), candidates(), &tables) {
        CallDiagnostic::Fields { arg, found } => {
            assert_eq!(arg.expr_index, Some(0));
            assert_eq!(found.len(), 1);
            assert_eq!(found[0].expected, LuaType::Number);
        }
        other => panic!("{other:?}"),
    }
    match check_call_arguments(&db, &call(misfit), candidates(), &vec![None]) {
        CallDiagnostic::Argument { arg, param_type, chain } => {
            assert_eq!(arg.expr_index, Some(0));
            assert_eq!(param_type, class_ref("Point"));
            assert!(matches!(
                chain.unwrap().message(),
                ChainMessage::Field { name } if name == "x"
            ));
        }
        other => panic!("{other:?}"),
    }
    let fitting = object(vec![("x", LuaType::IntegerConst(1))]);
    assert!(matches!(
        check_call_arguments(&db, &call(fitting), candidates(), &vec![None]),
        CallDiagnostic::Nothing
    ));
}

#[test]
fn whole_numbers_stand_for_integers() {
    let db = DbIndex::new();
    let candidates = || vec![function(vec![LuaType::Integer], LuaType::Nil)];
    let call = |value: f64| CallArguments {
        arg_types: vec![LuaType::FloatConst(LuaFloat::from_bits(value.to_bits()))],
        self_type: None,
        is_colon_call: false,
        has_colon_range: false,
    };
    assert!(matches!(
        check_call_arguments(&db, &call(2.0), candidates(), &Vec::new()),
        CallDiagnostic::Nothing
    ));
    assert!(matches!(
        check_call_arguments(&db, &call(2.5), candidates(), &Vec::new()),
        CallDiagnostic::Argument { .. }
    ));
}

#[test]
fn keys_of_a_type_without_values_are_unknown() {
    let db = DbIndex::new();
    assert!(get_keyof_members(&db, &LuaType::Never).is_none());
    assert_eq!(get_keyof_members(&db, &object(Vec::new())).map(|keys| keys.len()), Some(0));
}

#[test]
fn index_expressions_take_what_the_flow_leaves() {
    let db = class("Point", vec![(name("x"), LuaType::Number)], Vec::new());
    let point = class_ref("Point");
    let optional = TypeOps::union(&point, &LuaType::Nil);
    let lookup = MemberLookupQuery::from_key_type(text("x"));
    let infer = |narrowed, is_safe| infer_index_expr(&db, &point, &lookup, narrowed, is_safe);
    assert_eq!(infer(None, false), Ok(LuaType::Number));
    assert_eq!(infer(Some(Ok(LuaType::Integer)), false), Ok(LuaType::Integer));
    assert_eq!(infer(Some(Err(InferFailReason::Unsupported)), false), Ok(LuaType::Number));
    assert_eq!(
        infer(Some(Err(InferFailReason::RecursiveInfer)), false),
        Err(InferFailReason::RecursiveInfer)
    );
    assert_eq!(infer(None, true), Ok(LuaType::Number));
    assert_eq!(
        infer_index_result(LuaType::Number, None, true, &optional),
        Ok(TypeOps::union(&LuaType::Number, &LuaType::Nil))
    );
    let missing = MemberLookupQuery::from_key_type(text("y"));
    assert_eq!(
        infer_index_expr(&db, &point, &missing, None, false),
        Err(InferFailReason::FieldNotFound)
    );
}

#[test]
fn choices_are_of_either_type() {
    assert_eq!(
        infer_ternary_expr(Some((Ok(LuaType::String), Ok(LuaType::Number)))),
        Ok(TypeOps::union(&LuaType::String, &LuaType::Number))
    );
    assert_eq!(
        infer_ternary_expr(Some((Ok(LuaType::String), Err(InferFailReason::FieldNotFound)))),
        Err(InferFailReason::FieldNotFound)
    );
    assert_eq!(infer_ternary_expr(None), Err(InferFailReason::Unsupported));
}

#[test]
fn falsy_values_are_told_apart() {
    let optional = TypeOps::union(&LuaType::String, &LuaType::Nil);
    assert_eq!(narrow_false_or_nil(&optional), LuaType::Nil);
    assert_eq!(narrow_false_or_nil(&LuaType::Boolean), LuaType::BooleanConst(false));
    assert_eq!(narrow_false_or_nil(&LuaType::String), LuaType::Never);
    let texts = TypeOps::union(&LuaType::String, &LuaType::Number);
    assert_eq!(narrow_false_or_nil(&texts), LuaType::Never);
}

#[test]
fn values_nested_deep_in_unions_are_told() {
    let mut typ = LuaType::Nil;
    for _ in 0..200 {
        typ = LuaType::MultiLineUnion(Arc::new(LuaMultiLineUnion::new(vec![(typ, None)])));
    }
    assert!(is_exact_assignment_expr_type(&typ));
}
