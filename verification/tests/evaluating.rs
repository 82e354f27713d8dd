use minilang::environment::Env;
use minilang::expression::binary::BinaryOp;
use minilang::numeric::Numeric;
use minilang::parser::Parser;
use minilang::runtime::Runtime;
use minilang::runtime::error::{RuntimeError, RuntimeOperation};
use minilang::runtime::value::RuntimeValue;
use minilang::runtime::variable::RuntimeVariable;

fn session() -> (Parser, Runtime) {
    (Parser::new(), Runtime::new(Env::global()))
}

fn run(parser: &mut Parser, runtime: &mut Runtime, src: &str) -> Result<
    RuntimeVariable,
    RuntimeError,
> {
    let ast = parser.produce_ast(src, false).expect("parse should succeed");
    runtime.evaluate(ast)
}

fn eval_value(src: &str) -> RuntimeValue {
    let (mut parser, mut runtime) = session();
    run(&mut parser, &mut runtime, src).expect("evaluation should succeed").inner().duplicate()
}

fn eval_err(src: &str) -> RuntimeError {
    let (mut parser, mut runtime) = session();
    run(&mut parser, &mut runtime, src).expect_err("evaluation should fail")
}

#[test]
fn integer_arithmetic_is_exact() {
    assert_eq!(eval_value("1 + 2 * 3"), RuntimeValue::Number(Numeric::Int(7)));
    assert_eq!(eval_value("10 - 3 - 4"), RuntimeValue::Number(Numeric::Int(3)));
}

#[test]
fn integer_division_truncates_toward_zero() {
    assert_eq!(eval_value("7 / 2"), RuntimeValue::Number(Numeric::Int(3)));
    assert_eq!(eval_value("-7 / 2"), RuntimeValue::Number(Numeric::Int(-3)));
    assert_eq!(eval_value("7 / -2"), RuntimeValue::Number(Numeric::Int(-3)));
}

#[test]
fn integer_remainder_takes_dividend_sign() {
    assert_eq!(eval_value("7 % 2"), RuntimeValue::Number(Numeric::Int(1)));
    assert_eq!(eval_value("-7 % 2"), RuntimeValue::Number(Numeric::Int(-1)));
    assert_eq!(eval_value("7 % -2"), RuntimeValue::Number(Numeric::Int(1)));
}

#[test]
fn division_by_zero_is_unsupported() {
    assert!(matches!(eval_err("1 / 0"), RuntimeError::UnsupportedOperation(_)));
    assert!(matches!(eval_err("1 % 0"), RuntimeError::UnsupportedOperation(_)));
}

#[test]
fn integer_overflow_is_unsupported() {
    assert!(matches!(
        eval_err("170141183460469231731687303715884105727 + 1"),
        RuntimeError::UnsupportedOperation(_)
    ));
}

#[test]
fn mixed_arithmetic_promotes_to_float() {
    assert_eq!(
        eval_value("45.2 * (3 / 2)"),
        RuntimeValue::Number(Numeric::Float(45.2f64.to_bits()))
    );
    assert_eq!(
        eval_value("1 + 0.5"),
        RuntimeValue::Number(Numeric::Float(1.5f64.to_bits()))
    );
}

#[test]
fn float_arithmetic_matches_ieee_doubles() {
    assert_eq!(
        eval_value("1.5 + 2.25"),
        RuntimeValue::Number(Numeric::Float((1.5f64 + 2.25f64).to_bits()))
    );
    assert_eq!(
        eval_value("1.5 - 2.25"),
        RuntimeValue::Number(Numeric::Float((1.5f64 - 2.25f64).to_bits()))
    );
    assert_eq!(
        eval_value("1.0 / 4.0"),
        RuntimeValue::Number(Numeric::Float((1.0f64 / 4.0f64).to_bits()))
    );
    assert_eq!(
        eval_value("5.5 % 2.0"),
        RuntimeValue::Number(Numeric::Float((5.5f64 % 2.0f64).to_bits()))
    );
    assert_eq!(
        eval_value("0.1 + 0.2"),
        RuntimeValue::Number(Numeric::Float((0.1f64 + 0.2f64).to_bits()))
    );
    assert_eq!(
        eval_value("-2.5"),
        RuntimeValue::Number(Numeric::Float((-2.5f64).to_bits()))
    );
}

#[test]
fn unary_operators_on_numbers() {
    assert_eq!(eval_value("+5"), RuntimeValue::Number(Numeric::Int(5)));
    assert_eq!(eval_value("-5"), RuntimeValue::Number(Numeric::Int(-5)));
    assert_eq!(eval_value("- -5"), RuntimeValue::Number(Numeric::Int(5)));
}

#[test]
fn unary_operators_reject_other_values() {
    assert!(matches!(eval_err("+_"), RuntimeError::UnsupportedOperation(_)));
    assert!(matches!(eval_err("-\"a\""), RuntimeError::UnsupportedOperation(_)));
}

#[test]
fn string_concatenation() {
    assert_eq!(
        eval_value("\"foo\" + \"bar\""),
        RuntimeValue::String("foobar".to_string())
    );
}

#[test]
fn string_repetition() {
    assert_eq!(eval_value("\"ab\" * 3"), RuntimeValue::String("ababab".to_string()));
    assert_eq!(eval_value("\"ab\" * 0"), RuntimeValue::String(String::new()));
}

#[test]
fn string_repetition_by_negative_is_unsupported() {
    assert_eq!(
        eval_err("\"ab\" * -1"),
        RuntimeError::UnsupportedOperation(RuntimeOperation::Binary(
            RuntimeValue::String("ab".to_string()),
            BinaryOp::Multiply,
            RuntimeValue::Number(Numeric::Int(-1)),
        ))
    );
}

#[test]
fn unit_rejects_arithmetic() {
    assert!(matches!(eval_err("_ + 1"), RuntimeError::UnsupportedOperation(_)));
}

#[test]
fn equality_between_integers() {
    assert_eq!(eval_value("2 == 2"), RuntimeValue::Number(Numeric::Int(1)));
    assert_eq!(eval_value("2 == 3"), RuntimeValue::Number(Numeric::Int(0)));
}

#[test]
fn equality_between_mismatched_tags_is_unsupported() {
    assert!(matches!(eval_err("2 == \"2\""), RuntimeError::UnsupportedOperation(_)));
    assert!(matches!(eval_err("_ == 2"), RuntimeError::UnsupportedOperation(_)));
}

#[test]
fn equality_is_representation_sensitive_across_numbers() {
    // Both operands are numbers, so the comparison is legal, but an
    // exact integer never equals a float.
    assert_eq!(eval_value("2 == 2.0"), RuntimeValue::Number(Numeric::Int(0)));
    assert_eq!(eval_value("2.0 == 2.0"), RuntimeValue::Number(Numeric::Int(1)));
    assert_eq!(eval_value("2.0 == 3.0"), RuntimeValue::Number(Numeric::Int(0)));
}

#[test]
fn equality_between_strings_and_units() {
    assert_eq!(eval_value("\"a\" == \"a\""), RuntimeValue::Number(Numeric::Int(1)));
    assert_eq!(eval_value("\"a\" == \"b\""), RuntimeValue::Number(Numeric::Int(0)));
    assert_eq!(eval_value("_ == _"), RuntimeValue::Number(Numeric::Int(1)));
}

#[test]
fn immutable_binding_rejects_assignment() {
    let (mut parser, mut runtime) = session();
    run(&mut parser, &mut runtime, "let x = 5;").expect("declaration should succeed");
    assert_eq!(
        run(&mut parser, &mut runtime, "x = 6"),
        Err(RuntimeError::CannotMutateVariable("x".to_string()))
    );
}

#[test]
fn mutable_binding_accepts_assignment() {
    let (mut parser, mut runtime) = session();
    run(&mut parser, &mut runtime, "let mutable x = 5;").expect("declaration should succeed");
    run(&mut parser, &mut runtime, "x = 6").expect("assignment should succeed");
    let read = run(&mut parser, &mut runtime, "x").expect("read should succeed");
    assert_eq!(read.inner().duplicate(), RuntimeValue::Number(Numeric::Int(6)));
}

#[test]
fn assignment_preserves_the_value_type() {
    let (mut parser, mut runtime) = session();
    assert_eq!(
        run(&mut parser, &mut runtime, "let mutable x = 5; x = \"s\""),
        Err(RuntimeError::VariableTypeDoesntMatch("x".to_string()))
    );
}

#[test]
fn undeclared_variable_errors() {
    assert_eq!(eval_err("y"), RuntimeError::VariableNotDeclared("y".to_string()));
    assert_eq!(eval_err("y = 1"), RuntimeError::VariableNotDeclared("y".to_string()));
}

#[test]
fn redeclaration_shadows_unconditionally() {
    let (mut parser, mut runtime) = session();
    let read = run(&mut parser, &mut runtime, "let x = 5; let x = \"s\"; x")
        .expect("redeclaration should succeed");
    assert_eq!(read.inner().duplicate(), RuntimeValue::String("s".to_string()));
}

#[test]
fn assignment_is_visible_to_later_statements() {
    let (mut parser, mut runtime) = session();
    let read = run(&mut parser, &mut runtime, "let mutable x = 1; x = 2; x + x")
        .expect("program should succeed");
    assert_eq!(read.inner().duplicate(), RuntimeValue::Number(Numeric::Int(4)));
}

#[test]
fn program_yields_last_value() {
    assert_eq!(eval_value("1; 2; 3"), RuntimeValue::Number(Numeric::Int(3)));
    assert_eq!(eval_value("1;"), RuntimeValue::Unit);
}

#[test]
fn declaration_yields_the_declared_value() {
    assert_eq!(eval_value("let x = 5"), RuntimeValue::Number(Numeric::Int(5)));
}

#[test]
fn value_read_from_variable_inherits_mutability() {
    let (mut parser, mut runtime) = session();
    run(&mut parser, &mut runtime, "let mutable x = 5;").expect("declaration should succeed");
    let read = run(&mut parser, &mut runtime, "x").expect("read should succeed");
    assert!(read.mutable);
    let (mut parser2, mut runtime2) = session();
    run(&mut parser2, &mut runtime2, "let y = 5;").expect("declaration should succeed");
    let read2 = run(&mut parser2, &mut runtime2, "y").expect("read should succeed");
    assert!(!read2.mutable);
}

#[test]
fn operation_results_are_never_mutable() {
    let (mut parser, mut runtime) = session();
    run(&mut parser, &mut runtime, "let mutable x = 5;").expect("declaration should succeed");
    let sum = run(&mut parser, &mut runtime, "x + 1").expect("sum should succeed");
    assert!(!sum.mutable);
}

#[test]
fn reading_twice_yields_equal_values() {
    let (mut parser, mut runtime) = session();
    run(&mut parser, &mut runtime, "let x = 41;").expect("declaration should succeed");
    let first = run(&mut parser, &mut runtime, "x").expect("first read");
    let second = run(&mut parser, &mut runtime, "x").expect("second read");
    assert_eq!(first, second);
}

#[test]
fn identifier_free_programs_leave_the_environment_alone() {
    let (mut parser, mut runtime) = session();
    let first = run(&mut parser, &mut runtime, "1 + 2 * 3").expect("first run");
    let second = run(&mut parser, &mut runtime, "1 + 2 * 3").expect("second run");
    assert_eq!(first, second);
    assert_eq!(
        run(&mut parser, &mut runtime, "y"),
        Err(RuntimeError::VariableNotDeclared("y".to_string()))
    );
}
