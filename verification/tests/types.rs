use std::mem::ManuallyDrop;
use std::sync::Arc;

use emmylua_code_analysis::db::TypeOps;
use emmylua_code_analysis::types::{
    BasicTypeKind, BasicTypeUnion, GenericTpl, GenericTplId, LuaArrayType, LuaIndexAccessKey,
    LuaMemberKey, LuaMultiLineUnion, LuaObjectType, LuaType, LuaTypeDeclId, LuaUnionMembers,
    LuaUnionType, VariadicType,
};

#[test]
fn test_object_member_lookup_includes_exact_index_access() {
    let field_key = LuaMemberKey::Name("name".to_string());
    let index_key = LuaMemberKey::TypeKey(LuaType::String);
    let object = LuaObjectType::new(vec![
        (LuaIndexAccessKey::String("name".to_string()), LuaType::String),
        (LuaIndexAccessKey::Type(LuaType::String), LuaType::Number),
    ]);

    assert_eq!(object.get_member_type(&field_key), Some(LuaType::String));
    assert_eq!(object.get_field(&index_key), None);
    assert_eq!(object.get_member_type(&index_key), Some(LuaType::Number));
}

#[test]
fn test_union_with_variadic_uses_result_slot_extraction() {
    let variadic = LuaType::Variadic(VariadicType::Multi(vec![LuaType::String]).into());
    let optional_variadic = LuaType::from_vec(vec![variadic.clone(), LuaType::Nil]);

    assert_eq!(variadic.get_result_slot_type(0), Some(LuaType::String));
    assert!(!optional_variadic.is_multi_return());
    assert!(optional_variadic.contain_multi_return());
    assert_eq!(
        optional_variadic.get_result_slot_type(0),
        Some(LuaType::from_vec(vec![LuaType::String, LuaType::Nil]))
    );
}

#[test]
fn test_deep_contain_tpl_uses_iterative_walk() {
    let mut ty = LuaType::TplRef(
        GenericTpl::new(GenericTplId::Type(0), "T".to_string(), None, None, false, None).into(),
    );

    for _ in 0..20_000 {
        ty = LuaType::Array(LuaArrayType::from_base_type(ty).into());
    }

    let ty = ManuallyDrop::new(ty);
    assert!(ty.contain_tpl());
}

#[test]
fn test_deep_visit_type_uses_iterative_walk() {
    let depth = 20_000;
    let mut ty = LuaType::String;

    for _ in 0..depth {
        ty = LuaType::Array(LuaArrayType::from_base_type(ty).into());
    }

    let ty = ManuallyDrop::new(ty);
    let mut visited = 0;
    for _ in ty.visit_type() {
        visited += 1;
    }

    assert_eq!(visited, depth + 1);
}

#[test]
fn test_union_iterator() {
    let basic = BasicTypeUnion::new().add(BasicTypeKind::Boolean).add(BasicTypeKind::String);
    let union_basic = LuaUnionType::Basic(basic);
    let members: Vec<LuaType> = union_basic.iter();
    assert_eq!(members, vec![LuaType::Boolean, LuaType::String]);
    assert_eq!(union_basic.iter().len(), 2);

    let union_nullable = LuaUnionType::Nullable(LuaType::Integer);
    let mut iter = union_nullable.iter().into_iter();
    assert_eq!(iter.next(), Some(LuaType::Integer));
    assert_eq!(iter.next(), Some(LuaType::Nil));
    assert_eq!(iter.next(), None);
    assert_eq!(union_nullable.iter().len(), 2);

    let union_multi = LuaUnionType::Multi(LuaUnionMembers::new(vec![
        LuaType::Integer,
        LuaType::String,
        LuaType::Boolean,
    ]));
    let mut iter = union_multi.iter().into_iter();
    assert_eq!(iter.next(), Some(LuaType::Integer));
    assert_eq!(iter.next(), Some(LuaType::String));
    assert_eq!(iter.next(), Some(LuaType::Boolean));
    assert_eq!(iter.next(), None);
    assert_eq!(union_multi.iter().len(), 3);

    let multi_line = LuaMultiLineUnion::new(vec![
        (LuaType::Number, Some("doc1".to_string())),
        (LuaType::String, None),
    ]);
    let types: Vec<LuaType> = multi_line.iter();
    assert_eq!(types, vec![LuaType::Number, LuaType::String]);
    assert_eq!(multi_line.iter().len(), 2);
}

#[test]
fn unions_are_flat_and_hold_no_type_twice() {
    let inner = TypeOps::union(&LuaType::String, &LuaType::Number);
    let whole = TypeOps::union(&inner, &LuaType::String);
    assert_eq!(whole, inner);
    assert_eq!(LuaType::from_vec(vec![LuaType::String]), LuaType::String);
    assert_eq!(TypeOps::union(&LuaType::Never, &LuaType::String), LuaType::String);
    let optional = TypeOps::union(&LuaType::String, &LuaType::Nil);
    assert!(optional.is_nullable());
    assert!(optional.is_optional());
    assert_eq!(TypeOps::remove(&optional, &LuaType::Nil), LuaType::String);
}

#[test]
fn truth_is_decided_by_nil_and_false() {
    assert!(LuaType::Nil.is_always_falsy());
    assert!(LuaType::BooleanConst(false).is_always_falsy());
    assert!(LuaType::IntegerConst(0).is_always_truthy());
    assert!(LuaType::StringConst(String::new()).is_always_truthy());
    assert!(!LuaType::Boolean.is_always_truthy());
    assert!(!LuaType::Boolean.is_always_falsy());
}

#[test]
fn runs_of_values_give_the_type_of_each_place() {
    let tail = LuaType::Variadic(Arc::new(VariadicType::Base(LuaType::Number)));
    let run = VariadicType::Multi(vec![LuaType::String, tail]);
    assert_eq!(run.get_type(0), Some(&LuaType::String));
    assert_eq!(run.get_type(5), Some(&LuaType::Number));
    assert_eq!(run.get_min_len(), Some(1));
    assert_eq!(run.get_max_len(), None);
    let later = run.get_new_variadic_from(1);
    assert_eq!(later.get_type(0), Some(&LuaType::Number));
    let two = VariadicType::Multi(vec![LuaType::String, LuaType::Number]);
    assert_eq!(two.get_min_len(), Some(2));
    assert_eq!(two.get_max_len(), Some(2));
    assert_eq!(two.get_type(2), None);
}

#[test]
fn types_answer_what_they_are() {
    let id = LuaTypeDeclId::global("Point");
    assert!(LuaType::Ref(id.clone()).is_ref());
    assert!(LuaType::Ref(id.clone()).is_custom_type());
    assert!(LuaType::Def(id.clone()).is_def());
    assert!(!LuaType::Def(id).is_ref());
    assert!(LuaType::Userdata.is_userdata());
    assert!(LuaType::Thread.is_thread());
    assert!(LuaType::Io.is_io());
    assert!(LuaType::Namespace("socket".to_string()).is_namespace());
    assert!(LuaType::TypeGuard(Arc::new(LuaType::String)).is_type_guard());
    assert!(LuaType::TableGeneric(Arc::new(vec![LuaType::String, LuaType::Number])).is_table());
    assert!(LuaType::IntegerConst(1).is_const());
    assert!(!LuaType::Integer.is_const());
    assert!(LuaType::Integer.is_number());
    assert!(!LuaType::Number.is_integer());
}

#[test]
fn types_inside_a_type_are_found() {
    let nested = LuaType::Array(Arc::new(LuaArrayType::from_base_type(LuaType::Array(Arc::new(
        LuaArrayType::from_base_type(LuaType::String),
    )))));
    assert!(nested.any_type(|typ| matches!(typ, LuaType::String)));
    assert!(!nested.any_type(|typ| matches!(typ, LuaType::Number)));
}

#[test]
fn later_field_of_the_same_name_counts() {
    let object = LuaObjectType::new(vec![
        (LuaIndexAccessKey::String("x".to_string()), LuaType::String),
        (LuaIndexAccessKey::String("y".to_string()), LuaType::Boolean),
        (LuaIndexAccessKey::String("x".to_string()), LuaType::Number),
    ]);
    assert_eq!(object.get_fields().len(), 2);
    let key = LuaMemberKey::Name("x".to_string());
    assert_eq!(object.get_field(&key), Some(&LuaType::Number));
}

#[test]
fn template_ids_keep_their_kind() {
    let id = GenericTplId::Func(3);
    assert_eq!(id.get_idx(), 3);
    assert_eq!(id.with_idx(5), GenericTplId::Func(5));
    assert!(id.is_func());
    assert!(!id.is_type());
    assert!(GenericTplId::ConditionalInfer(0).is_conditional_infer());
}

#[test]
fn unions_built_in_steps_are_the_same() {
    let text = LuaType::StringConst("a".to_string());
    let array = LuaType::Array(Arc::new(LuaArrayType::from_base_type(LuaType::String)));
    let types = [LuaType::Nil, LuaType::String, LuaType::Boolean, text, array];
    for a in &types {
        assert_eq!(LuaType::from_vec(vec![a.clone(), a.clone()]), *a);
        for b in &types {
            for c in &types {
                let inner = LuaType::from_vec(vec![b.clone(), c.clone()]);
                let steps = LuaType::from_vec(vec![a.clone(), inner]);
                let at_once = LuaType::from_vec(vec![a.clone(), b.clone(), c.clone()]);
                assert_eq!(steps, at_once, "{a:?}, {b:?}, {c:?}");
            }
        }
    }
    assert_eq!(LuaType::from_vec(Vec::new()), LuaType::Nil);
}

#[test]
fn unions_do_not_depend_on_order_or_number() {
    let text = LuaType::StringConst("a".to_string());
    let array = LuaType::Array(Arc::new(LuaArrayType::from_base_type(LuaType::String)));
    let optional = LuaType::from_vec(vec![array.clone(), LuaType::Nil]);
    let basic = LuaType::from_vec(vec![LuaType::String, LuaType::Boolean]);
    let lists = [
        vec![text.clone(), array.clone(), LuaType::Nil],
        vec![optional.clone(), basic.clone()],
        vec![LuaType::Number, text, basic, optional],
    ];
    for front in &lists {
        let backwards: Vec<LuaType> = front.iter().rev().cloned().collect();
        let twice: Vec<LuaType> = front.iter().chain(&backwards).cloned().collect();
        let made = LuaType::from_vec(front.clone());
        assert_eq!(LuaType::from_vec(backwards), made);
        assert_eq!(LuaType::from_vec(twice), made);
        assert_eq!(made, made.clone());
        for back in &lists {
            let mut steps = front.clone();
            steps.push(LuaType::from_vec(back.clone()));
            let at_once: Vec<LuaType> = front.iter().chain(back).cloned().collect();
            assert_eq!(LuaType::from_vec(steps), LuaType::from_vec(at_once));
        }
    }
}
