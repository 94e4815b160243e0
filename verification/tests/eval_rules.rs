use venus_compiler::analyzer::eval::{
    array_len, array_remove, assign_binop, binary_plan, bool_binary, bool_string, branch_checks_condition,
    branch_step, buffer_len, buffer_read_u8, buffer_write_u8, check_arity, check_assertion, declaration_form,
    default_value, enum_members, import_source, index_error, index_slot, int_abs, int_binary, int_negate,
    int_op_defined_exec, int_string, kind_type_name, member_plan, native_op, new_buffer, object_member_missing,
    string_binary, string_contains, string_len, string_lower, string_replace, string_upper, system_type_name,
    unary_plan, undefined_identifier, unknown_native, vec_component_exec, BinaryPlan, BranchKind, DeclForm,
    DefaultValue, IntOutcome, MemberError, MemberPlan, ModuleSource, NativeOp, StrOutcome, UnaryPlan, ValueKind,
};
use venus_compiler::lexer::token::Span;
use venus_compiler::parser::ast::{AssignOp, BinOp, Expr, Node, TypeExpr, UnOp};

fn s0() -> Span {
    Span { start: 0, end: 0, line: 0, column: 0 }
}

#[test]
fn integer_arithmetic() {
    assert_eq!(int_binary(7, 2, BinOp::Add).unwrap(), IntOutcome::Int(9));
    assert_eq!(int_binary(7, 2, BinOp::Sub).unwrap(), IntOutcome::Int(5));
    assert_eq!(int_binary(7, 2, BinOp::Mul).unwrap(), IntOutcome::Int(14));
    assert_eq!(int_binary(7, 2, BinOp::Div).unwrap(), IntOutcome::Int(3));
    assert_eq!(int_binary(7, 2, BinOp::Mod).unwrap(), IntOutcome::Int(1));
    assert_eq!(int_binary(7, 2, BinOp::Lt).unwrap(), IntOutcome::Bool(false));
    assert_eq!(int_binary(7, 7, BinOp::GtEq).unwrap(), IntOutcome::Bool(true));
    assert_eq!(int_binary(7, 2, BinOp::NotEq).unwrap(), IntOutcome::Bool(true));
}

#[test]
fn integer_division_rounds_toward_zero() {
    assert_eq!(int_binary(-7, 2, BinOp::Div).unwrap(), IntOutcome::Int(-3));
    assert_eq!(int_binary(-7, 2, BinOp::Mod).unwrap(), IntOutcome::Int(-1));
    assert_eq!(int_binary(7, -2, BinOp::Div).unwrap(), IntOutcome::Int(-3));
    assert_eq!(int_binary(7, -2, BinOp::Mod).unwrap(), IntOutcome::Int(1));
    assert_eq!(int_binary(i64::MIN, 1, BinOp::Div).unwrap(), IntOutcome::Int(i64::MIN));
    // (a / b) * b + a % b == a
    for (a, b) in [(-7i64, 2i64), (7, -2), (-9, -4), (0, 5), (i64::MIN, 3)] {
        let q = match int_binary(a, b, BinOp::Div).unwrap() { IntOutcome::Int(q) => q, _ => unreachable!() };
        let r = match int_binary(a, b, BinOp::Mod).unwrap() { IntOutcome::Int(r) => r, _ => unreachable!() };
        assert_eq!(q * b + r, a);
        assert!(r.abs() < b.abs());
    }
}

#[test]
fn integer_operations_without_a_result() {
    assert!(!int_op_defined_exec(i64::MAX, 1, BinOp::Add));
    assert!(!int_op_defined_exec(i64::MIN, 1, BinOp::Sub));
    assert!(!int_op_defined_exec(i64::MAX, 2, BinOp::Mul));
    assert!(!int_op_defined_exec(1, 0, BinOp::Div));
    assert!(!int_op_defined_exec(1, 0, BinOp::Mod));
    assert!(!int_op_defined_exec(i64::MIN, -1, BinOp::Div));
    assert!(int_op_defined_exec(i64::MAX, 0, BinOp::Add));
    assert!(int_op_defined_exec(1, 0, BinOp::Eq));
}

#[test]
fn integers_do_not_support_logic() {
    assert_eq!(int_binary(1, 2, BinOp::And).unwrap_err(), "Unsupported binary operation");
    assert_eq!(int_binary(1, 2, BinOp::In).unwrap_err(), "Unsupported binary operation");
}

#[test]
fn negation_and_abs() {
    assert_eq!(int_negate(5), -5);
    assert_eq!(int_negate(i64::MAX), -i64::MAX);
    assert_eq!(int_abs(-9), 9);
    assert_eq!(int_abs(4), 4);
}

#[test]
fn truth_values() {
    assert_eq!(bool_binary(true, false, BinOp::And).unwrap(), false);
    assert_eq!(bool_binary(true, false, BinOp::Or).unwrap(), true);
    assert_eq!(bool_binary(true, true, BinOp::Eq).unwrap(), true);
    assert_eq!(bool_binary(true, false, BinOp::NotEq).unwrap(), true);
    assert_eq!(bool_binary(true, false, BinOp::Lt).unwrap_err(), "Unsupported binary operation");
}

#[test]
fn strings() {
    match string_binary("Venus", "Script", BinOp::Add).unwrap() {
        StrOutcome::Str(s) => assert_eq!(s, "VenusScript"),
        _ => panic!(),
    }
    assert!(matches!(string_binary("a", "a", BinOp::Eq).unwrap(), StrOutcome::Bool(true)));
    assert!(matches!(string_binary("a", "b", BinOp::Eq).unwrap(), StrOutcome::Bool(false)));
    assert_eq!(string_binary("a", "b", BinOp::NotEq).unwrap_err(), "Unsupported binary operation");
}

#[test]
fn which_binary_operation_applies() {
    assert_eq!(binary_plan(ValueKind::Int, ValueKind::Int, BinOp::Add).unwrap(), BinaryPlan::Ints);
    assert_eq!(binary_plan(ValueKind::Float, ValueKind::Float, BinOp::Lt).unwrap(), BinaryPlan::Floats);
    assert_eq!(binary_plan(ValueKind::Bool, ValueKind::Bool, BinOp::Or).unwrap(), BinaryPlan::Bools);
    assert_eq!(binary_plan(ValueKind::String, ValueKind::String, BinOp::Add).unwrap(), BinaryPlan::Strings);
    assert_eq!(binary_plan(ValueKind::Vec3, ValueKind::Vec3, BinOp::Sub).unwrap(), BinaryPlan::Componentwise(3));
    assert_eq!(binary_plan(ValueKind::Vec2, ValueKind::Float, BinOp::Div).unwrap(), BinaryPlan::VectorByScalar(2));
    assert_eq!(binary_plan(ValueKind::Float, ValueKind::Vec4, BinOp::Mul).unwrap(), BinaryPlan::ScalarByVector(4));
    assert_eq!(binary_plan(ValueKind::Float, ValueKind::Vec4, BinOp::Div).unwrap_err(), "Unsupported");
    assert_eq!(binary_plan(ValueKind::Vec3, ValueKind::Vec3, BinOp::Mul).unwrap_err(), "Unsupported");
    assert_eq!(binary_plan(ValueKind::Int, ValueKind::Float, BinOp::Add).unwrap_err(), "Unsupported binary operation");
    assert_eq!(binary_plan(ValueKind::Vec2, ValueKind::Vec3, BinOp::Add).unwrap_err(), "Unsupported binary operation");
    assert_eq!(binary_plan(ValueKind::Vec2, ValueKind::Int, BinOp::Mul).unwrap_err(), "Unsupported binary operation");
    assert_eq!(binary_plan(ValueKind::Float, ValueKind::Float, BinOp::And).unwrap_err(), "Unsupported binary operation");
}

#[test]
fn which_unary_operation_applies() {
    assert_eq!(unary_plan(UnOp::Negate, ValueKind::Int).unwrap(), UnaryPlan::NegateInt);
    assert_eq!(unary_plan(UnOp::Negate, ValueKind::Float).unwrap(), UnaryPlan::NegateFloat);
    assert_eq!(unary_plan(UnOp::Not, ValueKind::Bool).unwrap(), UnaryPlan::Not);
    assert_eq!(unary_plan(UnOp::Not, ValueKind::Int).unwrap_err(), "Unsupported unary operation");
}

#[test]
fn compound_assignment_operators() {
    assert_eq!(assign_binop(AssignOp::Assign), None);
    assert_eq!(assign_binop(AssignOp::AddAssign), Some(BinOp::Add));
    assert_eq!(assign_binop(AssignOp::SubAssign), Some(BinOp::Sub));
    assert_eq!(assign_binop(AssignOp::MulAssign), Some(BinOp::Mul));
    assert_eq!(assign_binop(AssignOp::DivAssign), Some(BinOp::Div));
}

#[test]
fn vector_components() {
    assert_eq!(vec_component_exec(2, "y"), Some(1));
    assert_eq!(vec_component_exec(2, "z"), None);
    assert_eq!(vec_component_exec(3, "z"), Some(2));
    assert_eq!(vec_component_exec(3, "r"), None);
    assert_eq!(vec_component_exec(4, "r"), Some(0));
    assert_eq!(vec_component_exec(4, "a"), Some(3));
}

#[test]
fn members() {
    assert!(matches!(member_plan(ValueKind::Object, "title"), Ok(MemberPlan::Field)));
    assert!(matches!(member_plan(ValueKind::Vec4, "b"), Ok(MemberPlan::Component(2))));
    match member_plan(ValueKind::String, "replace") {
        Ok(MemberPlan::Method(m)) => {
            assert_eq!(m.name, "__native_string_replace");
            assert_eq!(m.params, vec!["from".to_string(), "to".to_string()]);
        }
        _ => panic!(),
    }
    match member_plan(ValueKind::Array, "pop") {
        Ok(MemberPlan::Method(m)) => {
            assert_eq!(m.name, "__native_array_pop");
            assert!(m.params.is_empty());
        }
        _ => panic!(),
    }
    match member_plan(ValueKind::Vec2, "to_string") {
        Ok(MemberPlan::Method(m)) => assert_eq!(m.name, "__native_vec2_to_string"),
        _ => panic!(),
    }
    match member_plan(ValueKind::Vec2, "w") {
        Err(MemberError::Missing(m)) => assert_eq!(m, "Vec2 has no member 'w'"),
        _ => panic!(),
    }
    match member_plan(ValueKind::Int, "len") {
        Err(MemberError::Missing(m)) => assert_eq!(m, "Int has no method 'len'"),
        _ => panic!(),
    }
    assert!(matches!(member_plan(ValueKind::Void, "x"), Err(MemberError::NotAccessible)));
    assert!(matches!(member_plan(ValueKind::Function, "x"), Err(MemberError::NotAccessible)));
}

#[test]
fn indexing_counts_from_both_ends() {
    assert_eq!(index_slot(3, 0), Some(0));
    assert_eq!(index_slot(3, 2), Some(2));
    assert_eq!(index_slot(3, 3), None);
    assert_eq!(index_slot(3, -1), Some(2));
    assert_eq!(index_slot(3, -3), Some(0));
    assert_eq!(index_slot(3, -4), None);
    assert_eq!(index_slot(0, 0), None);
    assert_eq!(index_slot(3, i64::MIN), None);
    assert_eq!(index_error(-4), "Index -4 out of bounds");
}

#[test]
fn numbers_and_truth_values_as_text() {
    assert_eq!(int_string(0), "0");
    assert_eq!(int_string(-42), "-42");
    assert_eq!(int_string(i64::MIN), i64::MIN.to_string());
    assert_eq!(int_string(i64::MAX), i64::MAX.to_string());
    assert_eq!(bool_string(true), "true");
    assert_eq!(bool_string(false), "false");
}

#[test]
fn messages() {
    assert_eq!(undefined_identifier("foo"), "Undefined identifier: foo");
    assert_eq!(object_member_missing("bar"), "Object has no member 'bar'");
    assert_eq!(unknown_native("zap"), "Unknown native: zap");
    assert!(check_arity(2, 2).is_ok());
    assert_eq!(check_arity(2, 3).unwrap_err(), "Expected 2 args, got 3");
}

#[test]
fn arrays() {
    let mut v = vec![10, 20, 30];
    array_remove(&mut v, 1);
    assert_eq!(v, vec![10, 30]);
    array_remove(&mut v, 5);
    assert_eq!(v, vec![10, 30]);
    array_remove(&mut v, -1);
    assert_eq!(v, vec![10, 30]);
    assert_eq!(array_len(&v), 2);
}

#[test]
fn string_methods() {
    assert_eq!(string_len("héllo"), 5);
    assert_eq!(string_len(""), 0);
    assert_eq!(string_upper("abc"), "ABC");
    assert_eq!(string_lower("ÀB"), "àb");
    assert!(string_contains("VenusScript", "usSc"));
    assert!(!string_contains("VenusScript", "xyz"));
    assert!(string_contains("abc", ""));
    assert_eq!(string_replace("a-b-c", "-", "+"), "a+b+c");
    assert_eq!(string_replace("aaa", "aa", "b"), "ba");
    assert_eq!(string_replace("ab", "", "-"), "-a-b-");
}

#[test]
fn buffers() {
    let mut b = new_buffer(4);
    assert_eq!(b, vec![0u8; 4]);
    assert_eq!(buffer_len(&b), 4);
    buffer_write_u8(&mut b, 1, 300).unwrap();
    assert_eq!(buffer_read_u8(&b, 1).unwrap(), 44);
    buffer_write_u8(&mut b, 2, -1).unwrap();
    assert_eq!(buffer_read_u8(&b, 2).unwrap(), 255);
    assert_eq!(buffer_read_u8(&b, 0).unwrap(), 0);
    assert_eq!(buffer_read_u8(&b, 4).unwrap_err(), "Buffer read error");
    assert_eq!(buffer_read_u8(&b, -1).unwrap_err(), "Buffer read error");
    assert_eq!(buffer_write_u8(&mut b, 9, 1).unwrap_err(), "Buffer write error");
    assert_eq!(b, vec![0, 44, 255, 0]);
}

#[test]
fn native_table() {
    assert_eq!(native_op("print"), NativeOp::Print);
    assert_eq!(native_op("log"), NativeOp::Print);
    assert_eq!(native_op("abs"), NativeOp::FloatAbs);
    assert_eq!(native_op("__native_int_abs"), NativeOp::IntAbs);
    assert_eq!(native_op("max"), NativeOp::MathMax);
    assert_eq!(native_op("min"), NativeOp::MathMin);
    assert_eq!(native_op("__native_math_max"), NativeOp::MathMax);
    assert_eq!(native_op("type_of"), NativeOp::TypeOf);
    assert_eq!(native_op("__native_system_type_of"), NativeOp::SystemTypeOf);
    assert_eq!(native_op("vec3"), NativeOp::Vec3New);
    assert_eq!(native_op("__native_task_resume"), NativeOp::TaskResume);
    assert_eq!(native_op("nope"), NativeOp::Unknown);
}

#[test]
fn type_names() {
    assert_eq!(kind_type_name(Some(ValueKind::Vec2)).unwrap(), "vec2");
    assert_eq!(kind_type_name(Some(ValueKind::Function)).unwrap(), "func");
    assert_eq!(kind_type_name(None).unwrap_err(), "Expected 1 argument");
    assert_eq!(system_type_name(Some(ValueKind::Vec2)).unwrap(), "vec2");
    assert_eq!(system_type_name(Some(ValueKind::Buffer)).unwrap(), "buffer");
    assert_eq!(kind_type_name(Some(ValueKind::Void)).unwrap(), "unknown");
    assert_eq!(system_type_name(Some(ValueKind::Task)).unwrap(), "unknown");
    assert_eq!(system_type_name(Some(ValueKind::Function)).unwrap(), "func");
    assert_eq!(system_type_name(None).unwrap_err(), "Err");
}

#[test]
fn assertions() {
    assert!(check_assertion(Some(true), false).is_ok());
    assert_eq!(check_assertion(Some(false), false).unwrap_err(), "Assertion failed");
    assert_eq!(check_assertion(None, false).unwrap_err(), "Expected bool");
    assert_eq!(check_assertion(Some(false), true).unwrap_err(), "Assertion failed!");
    assert_eq!(check_assertion(None, true).unwrap_err(), "Err");
}

#[test]
fn declaration_forms_and_defaults() {
    let named = |n: &str| TypeExpr::Named(n.to_string());
    assert_eq!(declaration_form(&named("func")), DeclForm::Func);
    assert_eq!(declaration_form(&named("behaviour")), DeclForm::Object);
    assert_eq!(declaration_form(&named("elif")), DeclForm::Elif);
    assert_eq!(declaration_form(&named("int")), DeclForm::Value);
    assert_eq!(declaration_form(&TypeExpr::Array(Box::new(named("if")))), DeclForm::Value);
    assert_eq!(default_value(&named("int"), false), DefaultValue::Int);
    assert_eq!(default_value(&named("vec3"), false), DefaultValue::Vector(3));
    assert_eq!(default_value(&named("Window"), true), DefaultValue::Object);
    assert_eq!(default_value(&named("Window"), false), DefaultValue::Void);
}

#[test]
fn if_elif_else_runs_one_branch() {
    // if(false) / elif(true) / else
    let (run_if, ran) = branch_step(BranchKind::If, false, false);
    assert!(!run_if);
    assert!(branch_checks_condition(BranchKind::Elif, ran));
    let (run_elif, ran) = branch_step(BranchKind::Elif, ran, true);
    assert!(run_elif);
    assert!(!branch_checks_condition(BranchKind::Else, ran));
    let (run_else, _) = branch_step(BranchKind::Else, ran, false);
    assert!(!run_else);
    // if(false) / else
    let (_, ran) = branch_step(BranchKind::If, false, false);
    assert_eq!(branch_step(BranchKind::Else, ran, false), (true, false));
    // if(true) / elif(true): the elif does not even evaluate its condition
    let (_, ran) = branch_step(BranchKind::If, false, true);
    assert!(!branch_checks_condition(BranchKind::Elif, ran));
    assert_eq!(branch_step(BranchKind::Elif, ran, true), (false, true));
}

#[test]
fn enum_member_numbers() {
    let id = |n: &str| Node::ExprStmt(Expr::Identifier(n.to_string(), s0()));
    let content = vec![id("Red"), Node::ExprStmt(Expr::IntLiteral(5, s0())), id("Green"), id("Blue")];
    assert_eq!(
        enum_members(&content),
        vec![("Red".to_string(), 0), ("Green".to_string(), 1), ("Blue".to_string(), 2)]
    );
}

#[test]
fn import_sources() {
    assert!(matches!(import_source("std").unwrap(), ModuleSource::Std));
    match import_source("geometry").unwrap() {
        ModuleSource::File(p) => assert_eq!(p, "geometry.vs"),
        _ => panic!(),
    }
    assert_eq!(import_source("").unwrap_err(), "Import requires a module name");
}
