use minilang::environment::Env;
use minilang::lexer::error::LexerError;
use minilang::lexer::token::Token;
use minilang::numeric::Numeric;
use minilang::parser::Parser;
use minilang::parser::error::ParserError;
use minilang::runtime::Runtime;
use minilang::runtime::error::{RuntimeError, RuntimeOperation};
use minilang::runtime::value::RuntimeValue;
use minilang::expression::unary::UnaryOp;
use rustc_apfloat::Float;
use rustc_apfloat::ieee::Double;

#[test]
fn tokens_render_as_their_source_shapes() {
    assert_eq!(Token::Let.to_display_string(), "let");
    assert_eq!(Token::Mutable.to_display_string(), "mutable");
    assert_eq!(Token::Assign.to_display_string(), "=");
    assert_eq!(Token::Equals.to_display_string(), "==");
    assert_eq!(Token::Semicolon.to_display_string(), ";");
    assert_eq!(Token::Unit.to_display_string(), "_");
    assert_eq!(
        Token::LiteralNumber("45.2".to_string(), true).to_display_string(),
        "45.2"
    );
    assert_eq!(
        Token::LiteralString("a\"b".to_string()).to_display_string(),
        "\"a\\\"b\""
    );
    assert_eq!(
        Token::Identifier("x".to_string()).to_display_string(),
        "x"
    );
}

#[test]
fn integers_render_in_decimal() {
    assert_eq!(
        RuntimeValue::Number(Numeric::Int(0)).to_display_string(),
        "0"
    );
    assert_eq!(
        RuntimeValue::Number(Numeric::Int(1234567890)).to_display_string(),
        "1234567890"
    );
    assert_eq!(
        RuntimeValue::Number(Numeric::Int(-42)).to_display_string(),
        "-42"
    );
    assert_eq!(
        RuntimeValue::Number(Numeric::Int(i128::MAX)).to_display_string(),
        i128::MAX.to_string()
    );
    assert_eq!(
        RuntimeValue::Number(Numeric::Int(i128::MIN)).to_display_string(),
        i128::MIN.to_string()
    );
}

#[test]
fn floats_render_as_the_softfloat_decimal() {
    let bits = 45.2f64.to_bits();
    assert_eq!(
        RuntimeValue::Number(Numeric::Float(bits)).to_display_string(),
        format!("{}", Double::from_bits(bits as u128))
    );
}

#[test]
fn strings_render_debug_quoted() {
    assert_eq!(
        RuntimeValue::String("a\"b\\c\nd\te\rf".to_string()).to_display_string(),
        "\"a\\\"b\\\\c\\nd\\te\\rf\""
    );
    assert_eq!(RuntimeValue::Unit.to_display_string(), "_");
}

#[test]
fn lexical_errors_render_their_diagnostics() {
    assert_eq!(
        LexerError::UnexpectedChar('@').to_display_string(),
        "Unexpected character: '@'"
    );
    assert_eq!(
        LexerError::UnclosedString("abc".to_string()).to_display_string(),
        "Unclosed string literal: abc"
    );
}

#[test]
fn parse_errors_render_their_diagnostics() {
    assert_eq!(
        ParserError::UnexpectedEOF.to_display_string(),
        "Unexpected end of input"
    );
    assert_eq!(
        ParserError::UnexpectedToken(Token::Semicolon).to_display_string(),
        "Unexpected token: ;"
    );
    assert_eq!(
        ParserError::ExpectedCloseParen.to_display_string(),
        "Expected a closing parenthesis"
    );
    assert_eq!(
        ParserError::Lexer(LexerError::UnexpectedChar('@')).to_display_string(),
        "Unexpected character: '@'"
    );
    assert_eq!(
        ParserError::ParseInt("999999999999999999999999999999999999999".to_string())
            .to_display_string(),
        "Cannot parse integer literal: 999999999999999999999999999999999999999"
    );
}

#[test]
fn runtime_errors_render_their_diagnostics() {
    assert_eq!(
        RuntimeError::VariableNotDeclared("x".to_string()).to_display_string(),
        "Variable 'x' is not declared"
    );
    assert_eq!(
        RuntimeError::VariableTypeDoesntMatch("x".to_string()).to_display_string(),
        "Variable 'x' is of a different type"
    );
    assert_eq!(
        RuntimeError::CannotMutateVariable("x".to_string()).to_display_string(),
        "Cannot mutate immutable variable 'x'"
    );
    assert_eq!(
        RuntimeError::UnsupportedOperation(RuntimeOperation::Binary(
            RuntimeValue::String("ab".to_string()),
            minilang::expression::binary::BinaryOp::Multiply,
            RuntimeValue::Number(Numeric::Int(-1)),
        ))
        .to_display_string(),
        "Unsupported operation: \"ab\" * -1"
    );
    assert_eq!(
        RuntimeError::UnsupportedOperation(RuntimeOperation::Unary(
            UnaryOp::Plus,
            RuntimeValue::Unit,
        ))
        .to_display_string(),
        "Unsupported operation: +_"
    );
}

#[test]
fn expressions_render_readably() {
    let ast = Parser::new()
        .produce_ast("let mutable x = 1 + 2", false)
        .expect("parse should succeed");
    assert_eq!(ast.to_display_string(), "let~ x = 1 + 2\n");
    let ast2 = Parser::new()
        .produce_ast("-\"a\"; _", false)
        .expect("parse should succeed");
    assert_eq!(ast2.to_display_string(), "-\"a\"\n_\n");
}

#[test]
fn variables_render_with_their_mutability() {
    let mut parser = Parser::new();
    let mut runtime = Runtime::new(Env::global());
    let ast = parser
        .produce_ast("let mutable x = 6", false)
        .expect("parse should succeed");
    let var = runtime.evaluate(ast).expect("evaluation should succeed");
    assert_eq!(var.to_display_string(), "~6");
}

#[test]
fn parser_state_renders_kept_tokens() {
    let mut parser = Parser::new();
    parser.produce_ast("1 +", true).expect_err("incomplete input should fail");
    assert_eq!(
        parser.to_display_string(),
        "Parser {\nidx: 2,\ntokens: [\n1,\n+\n]\n}"
    );
}

#[test]
fn runtime_state_renders_bindings() {
    let mut parser = Parser::new();
    let mut runtime = Runtime::new(Env::global());
    let ast = parser.produce_ast("let x = 5", false).expect("parse should succeed");
    runtime.evaluate(ast).expect("evaluation should succeed");
    let shown = runtime.to_display_string();
    assert!(shown.contains("x: 5"));
}
