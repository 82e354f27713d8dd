//! Human-readable rendering of tokens, expressions, values and errors,
//! used by a read-eval-print loop to echo results and diagnostics.
//!
//! The rendering is not round-trippable into the grammar in general:
//! strings render quoted, with the common escapes written back out.
//! Every method is proved to produce exactly the text its spec function
//! describes.

use vstd::prelude::*;

use crate::expression::assignment::AssignmentExpression;
use crate::expression::binary::{BinaryExpression, BinaryOp};
use crate::expression::declaration::DeclarationExpression;
use crate::expression::unary::{UnaryExpression, UnaryOp};
use crate::expression::{Expression, ExprV, lemma_view_exprs_index, lemma_view_exprs_len,
    view_expr, view_exprs};
use crate::float::{bits_to_text, float_text};
use crate::lexer::error::{LexerError, LexerErrorV};
use crate::lexer::token::{Token, TokenV};
use crate::numeric::{Numeric, NumericV, int_text, push_int_text};
use crate::parser::error::{ParserError, ParserErrorV};
use crate::runtime::error::{
    RuntimeError, RuntimeErrorV, RuntimeOperation, RuntimeOperationV,
};
use crate::runtime::value::{RuntimeValue, ValueV};
use crate::runtime::variable::{RuntimeVariable, VarV};
use crate::text::{chars_of, push_char};
use vstd::string::StringExecFns;

verus! {

/// The rendering of one character inside a quoted string: the common
/// escapes written back out, anything else verbatim.
pub open spec fn escape_char(c: char) -> Seq<char> {
    if c == '"' {
        seq!['\\', '"']
    } else if c == '\\' {
        seq!['\\', '\\']
    } else if c == '\n' {
        seq!['\\', 'n']
    } else if c == '\r' {
        seq!['\\', 'r']
    } else if c == '\t' {
        seq!['\\', 't']
    } else {
        seq![c]
    }
}

pub open spec fn escape_text(s: Seq<char>) -> Seq<char>
    decreases s.len(),
{
    if s.len() == 0 {
        Seq::empty()
    } else {
        escape_text(s.drop_last()) + escape_char(s.last())
    }
}

/// A string as a diagnostic shows it: quoted, with escapes.
pub open spec fn quote_text(s: Seq<char>) -> Seq<char> {
    seq!['"'] + escape_text(s) + seq!['"']
}

/// Append the text of a string with the common escapes written out.
#[verifier::loop_isolation(false)]
pub(crate) fn push_escaped(s: &str, out: &mut String)
    ensures
        final(out)@ == old(out)@ + escape_text(s@),
{
    let cs = chars_of(s);
    let mut i: usize = 0;
    proof {
        assert(out@ =~= old(out)@ + escape_text(cs@.subrange(0, 0)));
    }
    while i < cs.len()
        invariant
            i <= cs@.len(),
            out@ == old(out)@ + escape_text(cs@.subrange(0, i as int)),
        decreases cs@.len() - i,
    {
        let c = cs[i];
        if c == '"' {
            push_char(out, '\\');
            push_char(out, '"');
        } else if c == '\\' {
            push_char(out, '\\');
            push_char(out, '\\');
        } else if c == '\n' {
            push_char(out, '\\');
            push_char(out, 'n');
        } else if c == '\r' {
            push_char(out, '\\');
            push_char(out, 'r');
        } else if c == '\t' {
            push_char(out, '\\');
            push_char(out, 't');
        } else {
            push_char(out, c);
        }
        i += 1;
        proof {
            assert(cs@.subrange(0, i as int).drop_last() =~= cs@.subrange(0, i - 1));
            assert(cs@.subrange(0, i as int).last() == cs@[i - 1]);
            assert(out@ =~= old(out)@ + escape_text(cs@.subrange(0, i as int)));
        }
    }
    proof {
        assert(cs@.subrange(0, cs@.len() as int) =~= cs@);
    }
}

/// The string quoted and escaped, as a diagnostic rendering shows it.
pub(crate) fn quote_string(s: &str) -> (r: String)
    ensures
        r@ == quote_text(s@),
{
    let mut out = String::new();
    push_char(&mut out, '"');
    push_escaped(s, &mut out);
    push_char(&mut out, '"');
    proof {
        assert(out@ =~= quote_text(s@));
    }
    out
}

/// The text a token renders as.
pub open spec fn token_text(t: TokenV) -> Seq<char> {
    match t {
        TokenV::LiteralNumber(text, _) => text,
        TokenV::LiteralString(text) => quote_text(text),
        TokenV::Identifier(text) => text,
        TokenV::Let => "let"@,
        TokenV::Mutable => "mutable"@,
        TokenV::Assign => "="@,
        TokenV::OpenParen => "("@,
        TokenV::CloseParen => ")"@,
        TokenV::Plus => "+"@,
        TokenV::Minus => "-"@,
        TokenV::Star => "*"@,
        TokenV::Slash => "/"@,
        TokenV::Percent => "%"@,
        TokenV::Equals => "=="@,
        TokenV::Unit => "_"@,
        TokenV::Semicolon => ";"@,
    }
}

impl Token {
    /// The token as it renders in diagnostics.
    pub fn to_display_string(&self) -> (r: String)
        ensures
            r@ == token_text(self@),
    {
        match self {
            Token::LiteralNumber(text, _) => text.clone(),
            Token::LiteralString(text) => quote_string(text.as_str()),
            Token::Identifier(text) => text.clone(),
            Token::Let => String::from_str("let"),
            Token::Mutable => String::from_str("mutable"),
            Token::Assign => String::from_str("="),
            Token::OpenParen => String::from_str("("),
            Token::CloseParen => String::from_str(")"),
            Token::Plus => String::from_str("+"),
            Token::Minus => String::from_str("-"),
            Token::Star => String::from_str("*"),
            Token::Slash => String::from_str("/"),
            Token::Percent => String::from_str("%"),
            Token::Equals => String::from_str("=="),
            Token::Unit => String::from_str("_"),
            Token::Semicolon => String::from_str(";"),
        }
    }
}

/// The text a lexical error renders as.
pub open spec fn lexer_error_text(e: LexerErrorV) -> Seq<char> {
    match e {
        LexerErrorV::UnexpectedChar(c) => "Unexpected character: '"@ + seq![c] + "'"@,
        LexerErrorV::UnclosedString(t) => "Unclosed string literal: "@ + t,
    }
}

impl LexerError {
    /// The error as it renders in diagnostics.
    pub fn to_display_string(&self) -> (r: String)
        ensures
            r@ == lexer_error_text(self@),
    {
        let mut out = String::new();
        match self {
            LexerError::UnexpectedChar(c) => {
                out.append("Unexpected character: '");
                push_char(&mut out, *c);
                out.append("'");
                proof {
                    assert(out@ =~= lexer_error_text(self@));
                }
            },
            LexerError::UnclosedString(t) => {
                out.append("Unclosed string literal: ");
                out.append(t.as_str());
                proof {
                    assert(out@ =~= lexer_error_text(self@));
                }
            },
        }
        out
    }
}

/// The text a parse error renders as.
pub open spec fn parser_error_text(e: ParserErrorV) -> Seq<char> {
    match e {
        ParserErrorV::UnexpectedEOF => "Unexpected end of input"@,
        ParserErrorV::UnexpectedToken(t) => "Unexpected token: "@ + token_text(t),
        ParserErrorV::Lexer(le) => lexer_error_text(le),
        ParserErrorV::ParseInt(t) => "Cannot parse integer literal: "@ + t,
        ParserErrorV::ParseFloat(t) => "Cannot parse float literal: "@ + t,
        ParserErrorV::ExpectedCloseParen => "Expected a closing parenthesis"@,
    }
}

impl ParserError {
    /// The error as it renders in diagnostics.
    pub fn to_display_string(&self) -> (r: String)
        ensures
            r@ == parser_error_text(self@),
    {
        let mut out = String::new();
        match self {
            ParserError::UnexpectedEOF => {
                out.append("Unexpected end of input");
            },
            ParserError::UnexpectedToken(t) => {
                out.append("Unexpected token: ");
                let tt = t.to_display_string();
                out.append(tt.as_str());
            },
            ParserError::Lexer(le) => {
                let lt = le.to_display_string();
                out.append(lt.as_str());
            },
            ParserError::ParseInt(t) => {
                out.append("Cannot parse integer literal: ");
                out.append(t.as_str());
            },
            ParserError::ParseFloat(t) => {
                out.append("Cannot parse float literal: ");
                out.append(t.as_str());
            },
            ParserError::ExpectedCloseParen => {
                out.append("Expected a closing parenthesis");
            },
        }
        proof {
            assert(out@ =~= parser_error_text(self@));
        }
        out
    }
}

/// The text a number renders as: the decimal integer, or the decimal
/// rendering of the double.
pub open spec fn numeric_text(n: NumericV) -> Seq<char> {
    match n {
        NumericV::Int(i) => int_text(i),
        NumericV::Float(b) => float_text(b),
    }
}

impl Numeric {
    /// The number as it renders in diagnostics.
    pub fn to_display_string(&self) -> (r: String)
        ensures
            r@ == numeric_text(self@),
    {
        match self {
            Numeric::Int(i) => {
                let mut out = String::new();
                push_int_text(*i, &mut out);
                proof {
                    assert(out@ =~= int_text(*i as int));
                }
                out
            },
            Numeric::Float(b) => bits_to_text(*b),
        }
    }
}

/// The text a runtime value renders as.
pub open spec fn value_text(v: ValueV) -> Seq<char> {
    match v {
        ValueV::Unit => "_"@,
        ValueV::Number(n) => numeric_text(n),
        ValueV::String(s) => quote_text(s),
    }
}

impl RuntimeValue {
    /// The value as it renders when echoed.
    pub fn to_display_string(&self) -> (r: String)
        ensures
            r@ == value_text(self@),
    {
        match self {
            RuntimeValue::Unit => String::from_str("_"),
            RuntimeValue::Number(n) => n.to_display_string(),
            RuntimeValue::String(s) => quote_string(s.as_str()),
        }
    }
}

pub open spec fn unary_op_text(op: UnaryOp) -> Seq<char> {
    match op {
        UnaryOp::Plus => "+"@,
        UnaryOp::Minus => "-"@,
    }
}

impl UnaryOp {
    pub fn to_display_string(&self) -> (r: String)
        ensures
            r@ == unary_op_text(*self),
    {
        match self {
            UnaryOp::Plus => String::from_str("+"),
            UnaryOp::Minus => String::from_str("-"),
        }
    }
}

pub open spec fn binary_op_text(op: BinaryOp) -> Seq<char> {
    match op {
        BinaryOp::Add => "+"@,
        BinaryOp::Subtract => "-"@,
        BinaryOp::Multiply => "*"@,
        BinaryOp::Divide => "/"@,
        BinaryOp::Modulo => "%"@,
        BinaryOp::Equals => "=="@,
    }
}

impl BinaryOp {
    pub fn to_display_string(&self) -> (r: String)
        ensures
            r@ == binary_op_text(*self),
    {
        match self {
            BinaryOp::Add => String::from_str("+"),
            BinaryOp::Subtract => String::from_str("-"),
            BinaryOp::Multiply => String::from_str("*"),
            BinaryOp::Divide => String::from_str("/"),
            BinaryOp::Modulo => String::from_str("%"),
            BinaryOp::Equals => String::from_str("=="),
        }
    }
}

/// The text a failed operation renders as, operands included.
pub open spec fn operation_text(o: RuntimeOperationV) -> Seq<char> {
    match o {
        RuntimeOperationV::Unary(op, v) => unary_op_text(op) + value_text(v),
        RuntimeOperationV::Binary(l, op, r) => value_text(l) + " "@ + binary_op_text(op) + " "@
            + value_text(r),
    }
}

impl RuntimeOperation {
    pub fn to_display_string(&self) -> (r: String)
        ensures
            r@ == operation_text(self@),
    {
        let mut out = String::new();
        match self {
            RuntimeOperation::Unary(op, v) => {
                let ot = op.to_display_string();
                out.append(ot.as_str());
                let vt = v.to_display_string();
                out.append(vt.as_str());
            },
            RuntimeOperation::Binary(l, op, r) => {
                let lt = l.to_display_string();
                out.append(lt.as_str());
                out.append(" ");
                let ot = op.to_display_string();
                out.append(ot.as_str());
                out.append(" ");
                let rt = r.to_display_string();
                out.append(rt.as_str());
            },
        }
        proof {
            assert(out@ =~= operation_text(self@));
        }
        out
    }
}

/// The text a runtime error renders as.
pub open spec fn runtime_error_text(e: RuntimeErrorV) -> Seq<char> {
    match e {
        RuntimeErrorV::UnsupportedOperation(o) => "Unsupported operation: "@ + operation_text(o),
        RuntimeErrorV::VariableNotDeclared(n) => "Variable '"@ + n + "' is not declared"@,
        RuntimeErrorV::VariableTypeDoesntMatch(n) => "Variable '"@ + n
            + "' is of a different type"@,
        RuntimeErrorV::CannotMutateVariable(n) => "Cannot mutate immutable variable '"@ + n + "'"@,
    }
}

impl RuntimeError {
    /// The error as it renders in diagnostics.
    pub fn to_display_string(&self) -> (r: String)
        ensures
            r@ == runtime_error_text(self@),
    {
        let mut out = String::new();
        match self {
            RuntimeError::UnsupportedOperation(o) => {
                out.append("Unsupported operation: ");
                let ot = o.to_display_string();
                out.append(ot.as_str());
            },
            RuntimeError::VariableNotDeclared(n) => {
                out.append("Variable '");
                out.append(n.as_str());
                out.append("' is not declared");
            },
            RuntimeError::VariableTypeDoesntMatch(n) => {
                out.append("Variable '");
                out.append(n.as_str());
                out.append("' is of a different type");
            },
            RuntimeError::CannotMutateVariable(n) => {
                out.append("Cannot mutate immutable variable '");
                out.append(n.as_str());
                out.append("'");
            },
        }
        proof {
            assert(out@ =~= runtime_error_text(self@));
        }
        out
    }
}

/// The text a variable renders as: a `~` marks a mutable binding.
pub open spec fn variable_text(v: VarV) -> Seq<char> {
    (if v.mutable {
        "~"@
    } else {
        Seq::<char>::empty()
    }) + value_text(v.value)
}

impl RuntimeVariable {
    /// The variable as it renders when echoed.
    pub fn to_display_string(&self) -> (r: String)
        ensures
            r@ == variable_text(self@),
    {
        let mut out = String::new();
        if self.is_mutable() {
            out.append("~");
        }
        let vt = self.inner().to_display_string();
        out.append(vt.as_str());
        proof {
            assert(out@ =~= variable_text(self@));
        }
        out
    }
}

/// The text an expression tree renders as.
pub open spec fn expr_text(e: ExprV) -> Seq<char>
    decreases e,
{
    match e {
        ExprV::Program(es) => program_text(es),
        ExprV::LiteralNumber(n) => numeric_text(n),
        ExprV::LiteralString(s) => quote_text(s),
        ExprV::Identifier(s) => s,
        ExprV::Unary(op, operand) => unary_op_text(op) + expr_text(*operand),
        ExprV::Binary(l, op, r) => expr_text(*l) + " "@ + binary_op_text(op) + " "@ + expr_text(
            *r,
        ),
        ExprV::Unit => "_"@,
        ExprV::Assignment(n, v) => n + " = "@ + expr_text(*v),
        ExprV::Declaration(n, v, m) => "let"@ + (if m {
            "~"@
        } else {
            Seq::<char>::empty()
        }) + " "@ + n + " = "@ + expr_text(*v),
    }
}

/// A program renders as its expressions in order, one line each.
pub open spec fn program_text(es: Seq<ExprV>) -> Seq<char>
    decreases es,
{
    if es.len() == 0 {
        Seq::empty()
    } else {
        program_text(es.drop_last()) + expr_text(es.last()) + "\n"@
    }
}

fn push_expr_text(e: &Expression, out: &mut String)
    ensures
        final(out)@ == old(out)@ + expr_text(view_expr(*e)),
    decreases e,
{
    match e {
        Expression::Program(es) => {
            push_program_text(es, out);
        },
        Expression::LiteralNumber(n) => {
            let t = n.to_display_string();
            out.append(t.as_str());
        },
        Expression::LiteralString(s) => {
            let t = quote_string(s.as_str());
            out.append(t.as_str());
        },
        Expression::Identifier(s) => {
            out.append(s.as_str());
        },
        Expression::Unary(u) => {
            let t = u.operator.to_display_string();
            out.append(t.as_str());
            push_expr_text(&u.right, out);
        },
        Expression::Binary(b) => {
            push_expr_text(&b.left, out);
            out.append(" ");
            let t = b.operator.to_display_string();
            out.append(t.as_str());
            out.append(" ");
            push_expr_text(&b.right, out);
        },
        Expression::Unit => {
            out.append("_");
        },
        Expression::Assignment(a) => {
            out.append(a.ident.as_str());
            out.append(" = ");
            push_expr_text(&a.value, out);
        },
        Expression::Declaration(d) => {
            out.append("let");
            if d.mutable {
                out.append("~");
            }
            out.append(" ");
            out.append(d.ident.as_str());
            out.append(" = ");
            push_expr_text(&d.value, out);
        },
    }
}

#[verifier::loop_isolation(false)]
fn push_program_text(es: &Vec<Expression>, out: &mut String)
    ensures
        final(out)@ == old(out)@ + program_text(view_exprs(es@)),
    decreases es@,
{
    let ghost views = view_exprs(es@);
    proof {
        lemma_view_exprs_len(es@);
        assert(views.subrange(0, 0) =~= Seq::<ExprV>::empty());
    }
    let mut i: usize = 0;
    while i < es.len()
        invariant
            i <= es@.len(),
            out@ == old(out)@ + program_text(views.subrange(0, i as int)),
        decreases es@.len() - i,
    {
        proof {
            lemma_view_exprs_index(es@, i as int);
        }
        push_expr_text(&es[i], out);
        out.append("\n");
        i += 1;
        proof {
            assert(views.subrange(0, i as int).drop_last() =~= views.subrange(0, i - 1));
            assert(views.subrange(0, i as int).last() == views[i - 1]);
            assert(out@ =~= old(out)@ + program_text(views.subrange(0, i as int)));
        }
    }
    proof {
        assert(views.subrange(0, views.len() as int) =~= views);
    }
}

/// The buffered tokens, one per line, comma-separated.
pub open spec fn tokens_list_text(ts: Seq<TokenV>) -> Seq<char>
    decreases ts.len(),
{
    if ts.len() == 0 {
        Seq::empty()
    } else if ts.len() == 1 {
        token_text(ts[0])
    } else {
        tokens_list_text(ts.drop_last()) + ",\n"@ + token_text(ts.last())
    }
}

/// The text the parser's session state renders as.
pub open spec fn parser_text(p: crate::parser::ParserV) -> Seq<char> {
    "Parser {\nidx: "@ + int_text(p.idx) + ",\ntokens: [\n"@ + tokens_list_text(p.tokens)
        + "\n]\n}"@
}

impl Expression {
    /// The expression as it renders in diagnostics.
    pub fn to_display_string(&self) -> (r: String)
        ensures
            r@ == expr_text(self@),
    {
        let mut out = String::new();
        push_expr_text(self, &mut out);
        proof {
            assert(out@ =~= expr_text(view_expr(*self)));
        }
        out
    }
}

impl UnaryExpression {
    pub fn to_display_string(&self) -> (r: String)
        ensures
            r@ == unary_op_text(self.operator) + expr_text(view_expr(*self.right)),
    {
        let mut out = String::new();
        let t = self.operator.to_display_string();
        out.append(t.as_str());
        push_expr_text(&self.right, &mut out);
        proof {
            assert(out@ =~= unary_op_text(self.operator) + expr_text(view_expr(*self.right)));
        }
        out
    }
}

impl BinaryExpression {
    pub fn to_display_string(&self) -> (r: String)
        ensures
            r@ == expr_text(view_expr(*self.left)) + " "@ + binary_op_text(self.operator) + " "@
                + expr_text(view_expr(*self.right)),
    {
        let mut out = String::new();
        push_expr_text(&self.left, &mut out);
        out.append(" ");
        let t = self.operator.to_display_string();
        out.append(t.as_str());
        out.append(" ");
        push_expr_text(&self.right, &mut out);
        proof {
            assert(out@ =~= expr_text(view_expr(*self.left)) + " "@ + binary_op_text(
                self.operator,
            ) + " "@ + expr_text(view_expr(*self.right)));
        }
        out
    }
}

impl AssignmentExpression {
    pub fn to_display_string(&self) -> (r: String)
        ensures
            r@ == self.ident@ + " = "@ + expr_text(view_expr(*self.value)),
    {
        let mut out = String::new();
        out.append(self.ident.as_str());
        out.append(" = ");
        push_expr_text(&self.value, &mut out);
        proof {
            assert(out@ =~= self.ident@ + " = "@ + expr_text(view_expr(*self.value)));
        }
        out
    }
}

impl DeclarationExpression {
    pub fn to_display_string(&self) -> (r: String)
        ensures
            r@ == "let"@ + (if self.mutable {
                "~"@
            } else {
                Seq::<char>::empty()
            }) + " "@ + self.ident@ + " = "@ + expr_text(view_expr(*self.value)),
    {
        let mut out = String::new();
        out.append("let");
        if self.mutable {
            out.append("~");
        }
        out.append(" ");
        out.append(self.ident.as_str());
        out.append(" = ");
        push_expr_text(&self.value, &mut out);
        proof {
            assert(out@ =~= "let"@ + (if self.mutable {
                "~"@
            } else {
                Seq::<char>::empty()
            }) + " "@ + self.ident@ + " = "@ + expr_text(view_expr(*self.value)));
        }
        out
    }
}

} // verus!
