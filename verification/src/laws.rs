//! Session-level properties of the language, stated and proved over the
//! models of the tokenizer, the grammar and the evaluator.

use vstd::prelude::*;

use crate::environment::EnvV;
use crate::expression::ExprV;
use crate::lexer::spec_tokenize;
use crate::lexer::token::TokenV;
use crate::parser::grammar::{
    spec_parse_assignment, spec_parse_declaration, spec_parse_equality, spec_parse_equality_rest,
    spec_parse_expression, spec_parse_multiplicative, spec_parse_multiplicative_rest,
    spec_parse_primary, spec_parse_program, spec_parse_unary, spec_parse_additive,
    spec_parse_additive_rest, step_pos,
};
use crate::runtime::{spec_eval, spec_eval_program};

verus! {

/// No token of the sequence is an identifier.
pub open spec fn no_identifiers(toks: Seq<TokenV>) -> bool {
    forall|i: int| 0 <= i < toks.len() ==> !((#[trigger] toks[i]) is Identifier)
}

/// An expression that touches no binding: no identifier, no assignment,
/// no declaration anywhere in the tree.
pub open spec fn expr_pure(e: ExprV) -> bool
    decreases e,
{
    match e {
        ExprV::Program(es) => exprs_pure(es),
        ExprV::LiteralNumber(_) => true,
        ExprV::LiteralString(_) => true,
        ExprV::Identifier(_) => false,
        ExprV::Unary(_, operand) => expr_pure(*operand),
        ExprV::Binary(l, _, r) => expr_pure(*l) && expr_pure(*r),
        ExprV::Unit => true,
        ExprV::Assignment(_, _) => false,
        ExprV::Declaration(_, _, _) => false,
    }
}

pub open spec fn exprs_pure(es: Seq<ExprV>) -> bool
    decreases es,
{
    if es.len() == 0 {
        true
    } else {
        expr_pure(es.first()) && exprs_pure(es.drop_first())
    }
}

proof fn lemma_parse_expression_pure(toks: Seq<TokenV>, i: int)
    requires
        no_identifiers(toks),
        0 <= i <= toks.len(),
    ensures
        spec_parse_expression(toks, i) matches Ok(p) ==> expr_pure(p.0),
    decreases toks.len() - i, 12int,
{
    lemma_parse_equality_pure(toks, i);
}

proof fn lemma_parse_equality_pure(toks: Seq<TokenV>, i: int)
    requires
        no_identifiers(toks),
        0 <= i <= toks.len(),
    ensures
        spec_parse_equality(toks, i) matches Ok(p) ==> expr_pure(p.0),
    decreases toks.len() - i, 11int,
{
    lemma_parse_additive_pure(toks, i);
    match spec_parse_additive(toks, i) {
        Ok(p) => {
            lemma_parse_equality_rest_pure(toks, step_pos(i, p.1, toks.len() as int), p.0);
        },
        Err(_) => {},
    }
}

proof fn lemma_parse_equality_rest_pure(toks: Seq<TokenV>, i: int, left: ExprV)
    requires
        no_identifiers(toks),
        0 <= i <= toks.len(),
        expr_pure(left),
    ensures
        spec_parse_equality_rest(toks, i, left) matches Ok(p) ==> expr_pure(p.0),
    decreases toks.len() - i, 10int,
{
    if i < toks.len() && toks[i] is Equals {
        lemma_parse_additive_pure(toks, i + 1);
        match spec_parse_additive(toks, i + 1) {
            Ok(p) => {
                lemma_parse_equality_rest_pure(
                    toks,
                    step_pos(i + 1, p.1, toks.len() as int),
                    ExprV::Binary(
                        Box::new(left),
                        crate::expression::binary::BinaryOp::Equals,
                        Box::new(p.0),
                    ),
                );
            },
            Err(_) => {},
        }
    }
}

proof fn lemma_parse_additive_pure(toks: Seq<TokenV>, i: int)
    requires
        no_identifiers(toks),
        0 <= i <= toks.len(),
    ensures
        spec_parse_additive(toks, i) matches Ok(p) ==> expr_pure(p.0),
    decreases toks.len() - i, 9int,
{
    lemma_parse_multiplicative_pure(toks, i);
    match spec_parse_multiplicative(toks, i) {
        Ok(p) => {
            lemma_parse_additive_rest_pure(toks, step_pos(i, p.1, toks.len() as int), p.0);
        },
        Err(_) => {},
    }
}

proof fn lemma_parse_additive_rest_pure(toks: Seq<TokenV>, i: int, left: ExprV)
    requires
        no_identifiers(toks),
        0 <= i <= toks.len(),
        expr_pure(left),
    ensures
        spec_parse_additive_rest(toks, i, left) matches Ok(p) ==> expr_pure(p.0),
    decreases toks.len() - i, 8int,
{
    if i < toks.len() && (toks[i] is Plus || toks[i] is Minus) {
        let op = if toks[i] is Plus {
            crate::expression::binary::BinaryOp::Add
        } else {
            crate::expression::binary::BinaryOp::Subtract
        };
        lemma_parse_multiplicative_pure(toks, i + 1);
        match spec_parse_multiplicative(toks, i + 1) {
            Ok(p) => {
                lemma_parse_additive_rest_pure(
                    toks,
                    step_pos(i + 1, p.1, toks.len() as int),
                    ExprV::Binary(Box::new(left), op, Box::new(p.0)),
                );
            },
            Err(_) => {},
        }
    }
}

proof fn lemma_parse_multiplicative_pure(toks: Seq<TokenV>, i: int)
    requires
        no_identifiers(toks),
        0 <= i <= toks.len(),
    ensures
        spec_parse_multiplicative(toks, i) matches Ok(p) ==> expr_pure(p.0),
    decreases toks.len() - i, 7int,
{
    lemma_parse_unary_pure(toks, i);
    match spec_parse_unary(toks, i) {
        Ok(p) => {
            lemma_parse_multiplicative_rest_pure(toks, step_pos(i, p.1, toks.len() as int), p.0);
        },
        Err(_) => {},
    }
}

proof fn lemma_parse_multiplicative_rest_pure(toks: Seq<TokenV>, i: int, left: ExprV)
    requires
        no_identifiers(toks),
        0 <= i <= toks.len(),
        expr_pure(left),
    ensures
        spec_parse_multiplicative_rest(toks, i, left) matches Ok(p) ==> expr_pure(p.0),
    decreases toks.len() - i, 6int,
{
    if i < toks.len() && (toks[i] is Star || toks[i] is Slash || toks[i] is Percent) {
        let op = if toks[i] is Star {
            crate::expression::binary::BinaryOp::Multiply
        } else if toks[i] is Slash {
            crate::expression::binary::BinaryOp::Divide
        } else {
            crate::expression::binary::BinaryOp::Modulo
        };
        lemma_parse_unary_pure(toks, i + 1);
        match spec_parse_unary(toks, i + 1) {
            Ok(p) => {
                lemma_parse_multiplicative_rest_pure(
                    toks,
                    step_pos(i + 1, p.1, toks.len() as int),
                    ExprV::Binary(Box::new(left), op, Box::new(p.0)),
                );
            },
            Err(_) => {},
        }
    }
}

proof fn lemma_parse_unary_pure(toks: Seq<TokenV>, i: int)
    requires
        no_identifiers(toks),
        0 <= i <= toks.len(),
    ensures
        spec_parse_unary(toks, i) matches Ok(p) ==> expr_pure(p.0),
    decreases toks.len() - i, 5int,
{
    if i < toks.len() && (toks[i] is Plus || toks[i] is Minus) {
        lemma_parse_unary_pure(toks, i + 1);
    } else {
        lemma_parse_assignment_pure(toks, i);
    }
}

proof fn lemma_parse_assignment_pure(toks: Seq<TokenV>, i: int)
    requires
        no_identifiers(toks),
        0 <= i <= toks.len(),
    ensures
        spec_parse_assignment(toks, i) matches Ok(p) ==> expr_pure(p.0),
    decreases toks.len() - i, 4int,
{
    if i + 1 < toks.len() && toks[i] is Identifier && toks[i + 1] is Assign {
    } else {
        lemma_parse_declaration_pure(toks, i);
    }
}

proof fn lemma_parse_declaration_pure(toks: Seq<TokenV>, i: int)
    requires
        no_identifiers(toks),
        0 <= i <= toks.len(),
    ensures
        spec_parse_declaration(toks, i) matches Ok(p) ==> expr_pure(p.0),
    decreases toks.len() - i, 3int,
{
    if i < toks.len() && toks[i] is Let {
    } else {
        lemma_parse_primary_pure(toks, i);
    }
}

proof fn lemma_parse_primary_pure(toks: Seq<TokenV>, i: int)
    requires
        no_identifiers(toks),
        0 <= i <= toks.len(),
    ensures
        spec_parse_primary(toks, i) matches Ok(p) ==> expr_pure(p.0),
    decreases toks.len() - i, 2int,
{
    if i < toks.len() {
        match toks[i] {
            TokenV::OpenParen => {
                lemma_parse_expression_pure(toks, i + 1);
            },
            _ => {},
        }
    }
}

proof fn lemma_parse_program_pure(toks: Seq<TokenV>, i: int)
    requires
        no_identifiers(toks),
        0 <= i <= toks.len(),
    ensures
        spec_parse_program(toks, i) matches Ok(es) ==> exprs_pure(es),
    decreases toks.len() - i, 13int,
{
    lemma_parse_expression_pure(toks, i);
    match spec_parse_expression(toks, i) {
        Err(_) => {},
        Ok(p) => {
            let e = p.0;
            let n = p.1;
            if !(0 <= n < toks.len()) {
                assert(seq![e].len() == 1);
                assert(seq![e].first() == e);
                assert(seq![e].drop_first() =~= Seq::<ExprV>::empty());
                assert(exprs_pure(Seq::<ExprV>::empty()));
                assert(exprs_pure(seq![e]));
            } else if toks[n] is Semicolon {
                if n + 1 >= toks.len() {
                    assert(seq![e, ExprV::Unit].len() == 2);
                    assert(seq![ExprV::Unit].len() == 1);
                    assert(seq![e, ExprV::Unit].first() == e);
                    assert(seq![e, ExprV::Unit].drop_first() =~= seq![ExprV::Unit]);
                    assert(seq![ExprV::Unit].first() == ExprV::Unit);
                    assert(seq![ExprV::Unit].drop_first() =~= Seq::<ExprV>::empty());
                    assert(exprs_pure(Seq::<ExprV>::empty()));
                    assert(expr_pure(ExprV::Unit));
                    assert(exprs_pure(seq![ExprV::Unit]));
                    assert(exprs_pure(seq![e, ExprV::Unit]));
                } else if n + 1 > i {
                    lemma_parse_program_pure(toks, n + 1);
                    match spec_parse_program(toks, n + 1) {
                        Ok(rest) => {
                            assert((seq![e] + rest).first() == e);
                            assert((seq![e] + rest).drop_first() =~= rest);
                            assert(exprs_pure(seq![e] + rest));
                        },
                        Err(_) => {},
                    }
                }
            }
        },
    }
}

/// Evaluation of an expression that touches no binding neither reads
/// nor changes the environment: against any two environments it yields
/// the same result and hands each environment back unchanged.
pub proof fn lemma_eval_pure(e: ExprV, env1: EnvV, env2: EnvV)
    requires
        expr_pure(e),
    ensures
        spec_eval(e, env1).1 == env1,
        spec_eval(e, env2).1 == env2,
        spec_eval(e, env1).0 == spec_eval(e, env2).0,
    decreases e,
{
    match e {
        ExprV::Program(es) => {
            lemma_eval_program_pure(es, env1, env2);
        },
        ExprV::Unary(_, operand) => {
            lemma_eval_pure(*operand, env1, env2);
        },
        ExprV::Binary(l, _, r) => {
            lemma_eval_pure(*l, env1, env2);
            lemma_eval_pure(*r, env1, env2);
        },
        _ => {},
    }
}

pub proof fn lemma_eval_program_pure(es: Seq<ExprV>, env1: EnvV, env2: EnvV)
    requires
        exprs_pure(es),
    ensures
        spec_eval_program(es, env1).1 == env1,
        spec_eval_program(es, env2).1 == env2,
        spec_eval_program(es, env1).0 == spec_eval_program(es, env2).0,
    decreases es,
{
    if es.len() > 0 {
        assert(es.first() == es[0]);
        lemma_eval_pure(es[0], env1, env2);
        if es.len() > 1 {
            lemma_eval_program_pure(es.drop_first(), env1, env2);
        }
    }
}

/// Round trip: a syntactically valid program without identifier tokens
/// runs deterministically and without side effects.  Tokenizing and
/// parsing are functions of the source text alone, and evaluating the
/// parsed program yields the same result against any environment and
/// leaves the environment as it was: no binding is declared, assigned
/// or read.
pub proof fn lemma_round_trip_pure(src: Seq<char>, env1: EnvV, env2: EnvV)
    ensures
        match spec_tokenize(src) {
            Ok(toks) => no_identifiers(toks) ==> match spec_parse_program(toks, 0) {
                Ok(es) => {
                    let p = ExprV::Program(es);
                    spec_eval(p, env1).1 == env1 && spec_eval(p, env2).1 == env2 && spec_eval(
                        p,
                        env1,
                    ).0 == spec_eval(p, env2).0
                },
                Err(_) => true,
            },
            Err(_) => true,
        },
{
    match spec_tokenize(src) {
        Ok(toks) => {
            if no_identifiers(toks) {
                lemma_parse_program_pure(toks, 0);
                match spec_parse_program(toks, 0) {
                    Ok(es) => {
                        lemma_eval_pure(ExprV::Program(es), env1, env2);
                    },
                    Err(_) => {},
                }
            }
        },
        Err(_) => {},
    }
}

/// Idempotence of reading a variable: evaluating an identifier leaves
/// the environment unchanged, so evaluating the same identifier twice
/// in a row yields equal results both times.
pub proof fn lemma_identifier_idempotent(name: Seq<char>, env: EnvV)
    ensures
        ({
            let (r1, env1) = spec_eval(ExprV::Identifier(name), env);
            let (r2, env2) = spec_eval(ExprV::Identifier(name), env1);
            env1 == env && env2 == env && r2 == r1
        }),
{
}

} // verus!
