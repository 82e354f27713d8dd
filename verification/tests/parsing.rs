use minilang::expression::Expression;
use minilang::expression::binary::BinaryOp;
use minilang::expression::unary::UnaryOp;
use minilang::lexer::error::LexerError;
use minilang::lexer::token::Token;
use minilang::numeric::Numeric;
use minilang::parser::Parser;
use minilang::parser::error::ParserError;

fn parse(src: &str) -> Expression {
    Parser::new().produce_ast(src, false).expect("parse should succeed")
}

fn parse_err(src: &str) -> ParserError {
    Parser::new().produce_ast(src, false).expect_err("parse should fail")
}

fn single(e: Expression) -> Expression {
    match e {
        Expression::Program(mut es) => {
            assert_eq!(es.len(), 1);
            es.remove(0)
        }
        _ => panic!("not a program"),
    }
}

#[test]
fn multiplicative_binds_tighter_than_additive() {
    match single(parse("1 + 2 * 3")) {
        Expression::Binary(b) => {
            assert!(matches!(b.operator, BinaryOp::Add));
            assert!(matches!(*b.left, Expression::LiteralNumber(Numeric::Int(1))));
            match *b.right {
                Expression::Binary(b2) => {
                    assert!(matches!(b2.operator, BinaryOp::Multiply));
                    assert!(matches!(*b2.left, Expression::LiteralNumber(Numeric::Int(2))));
                    assert!(matches!(*b2.right, Expression::LiteralNumber(Numeric::Int(3))));
                }
                other => panic!("expected a product, got {other:?}"),
            }
        }
        other => panic!("expected a sum, got {other:?}"),
    }
}

#[test]
fn additive_is_left_associative() {
    match single(parse("1 - 2 - 3")) {
        Expression::Binary(b) => {
            assert!(matches!(b.operator, BinaryOp::Subtract));
            assert!(matches!(*b.left, Expression::Binary(_)));
            assert!(matches!(*b.right, Expression::LiteralNumber(Numeric::Int(3))));
        }
        other => panic!("expected a difference, got {other:?}"),
    }
}

#[test]
fn equality_has_lowest_precedence() {
    match single(parse("1 + 2 == 3")) {
        Expression::Binary(b) => {
            assert!(matches!(b.operator, BinaryOp::Equals));
            assert!(matches!(*b.left, Expression::Binary(_)));
        }
        other => panic!("expected an equality, got {other:?}"),
    }
}

#[test]
fn parens_group_the_inner_expression() {
    match single(parse("(1 + 2) * 3")) {
        Expression::Binary(b) => {
            assert!(matches!(b.operator, BinaryOp::Multiply));
            assert!(matches!(*b.left, Expression::Binary(_)));
        }
        other => panic!("expected a product, got {other:?}"),
    }
}

#[test]
fn float_literal_parses_to_float() {
    match single(parse("45.2")) {
        Expression::LiteralNumber(Numeric::Float(bits)) => {
            assert_eq!(bits, 45.2f64.to_bits());
        }
        other => panic!("expected a float literal, got {other:?}"),
    }
}

#[test]
fn prefix_minus_nests_right_associatively() {
    match single(parse("- -5")) {
        Expression::Unary(u) => {
            assert!(matches!(u.operator, UnaryOp::Minus));
            assert!(matches!(*u.right, Expression::Unary(_)));
        }
        other => panic!("expected a negation, got {other:?}"),
    }
}

#[test]
fn declaration_shapes() {
    match single(parse("let x = 5")) {
        Expression::Declaration(d) => {
            assert_eq!(d.ident, "x");
            assert!(!d.mutable);
        }
        other => panic!("expected a declaration, got {other:?}"),
    }
    match single(parse("let mutable x = 5")) {
        Expression::Declaration(d) => {
            assert_eq!(d.ident, "x");
            assert!(d.mutable);
        }
        other => panic!("expected a declaration, got {other:?}"),
    }
}

#[test]
fn assignment_shape() {
    match single(parse("x = 5")) {
        Expression::Assignment(a) => {
            assert_eq!(a.ident, "x");
            assert!(matches!(*a.value, Expression::LiteralNumber(Numeric::Int(5))));
        }
        other => panic!("expected an assignment, got {other:?}"),
    }
}

#[test]
fn trailing_semicolon_appends_unit() {
    match parse("1;") {
        Expression::Program(es) => {
            assert_eq!(es.len(), 2);
            assert!(matches!(es[0], Expression::LiteralNumber(Numeric::Int(1))));
            assert!(matches!(es[1], Expression::Unit));
        }
        other => panic!("expected a program, got {other:?}"),
    }
}

#[test]
fn semicolons_separate_statements() {
    match parse("1; 2; 3") {
        Expression::Program(es) => {
            assert_eq!(es.len(), 3);
        }
        other => panic!("expected a program, got {other:?}"),
    }
}

#[test]
fn empty_input_is_unexpected_eof() {
    assert_eq!(parse_err(""), ParserError::UnexpectedEOF);
}

#[test]
fn missing_close_paren() {
    assert_eq!(parse_err("(1 + 2"), ParserError::ExpectedCloseParen);
}

#[test]
fn stray_token_after_expression() {
    assert_eq!(
        parse_err("1 2"),
        ParserError::UnexpectedToken(Token::LiteralNumber("2".to_string(), false))
    );
}

#[test]
fn let_without_identifier() {
    assert_eq!(
        parse_err("let 5"),
        ParserError::UnexpectedToken(Token::LiteralNumber("5".to_string(), false))
    );
}

#[test]
fn let_without_assignment() {
    assert_eq!(parse_err("let x"), ParserError::UnexpectedEOF);
}

#[test]
fn integer_literal_overflow() {
    assert_eq!(
        parse_err("170141183460469231731687303715884105728"),
        ParserError::ParseInt("170141183460469231731687303715884105728".to_string())
    );
}

#[test]
fn largest_integer_literal_parses() {
    match single(parse("170141183460469231731687303715884105727")) {
        Expression::LiteralNumber(Numeric::Int(i)) => assert_eq!(i, i128::MAX),
        other => panic!("expected an integer literal, got {other:?}"),
    }
}

#[test]
fn lone_point_is_a_float_parse_error() {
    assert_eq!(parse_err("."), ParserError::ParseFloat(".".to_string()));
}

#[test]
fn lexical_error_is_wrapped() {
    assert_eq!(
        parse_err("1 ? 2"),
        ParserError::Lexer(LexerError::UnexpectedChar('?'))
    );
}

#[test]
fn kept_tokens_are_not_reparsed() {
    let mut parser = Parser::new();
    parser.produce_ast("1", true).expect("first parse");
    match parser.produce_ast("2", false).expect("second parse") {
        Expression::Program(es) => {
            assert_eq!(es.len(), 1);
            assert!(matches!(es[0], Expression::LiteralNumber(Numeric::Int(2))));
        }
        other => panic!("expected a program, got {other:?}"),
    }
}
