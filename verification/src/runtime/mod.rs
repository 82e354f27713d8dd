//! The tree-walking evaluator.
//!
//! `spec_eval` is the reference semantics of the language: a recursive
//! interpreter over the models of the expression tree and of the scope
//! chain, threading the environment through every step and stopping at
//! the first error.  `Runtime::evaluate` is proved to produce exactly
//! its result and its final environment.

pub mod error;
pub mod value;
pub mod variable;

use vstd::prelude::*;

use crate::environment::{Env, EnvV, env_assign, env_declare, env_lookup};
use crate::expression::binary::BinaryOp;
use crate::expression::unary::UnaryOp;
use crate::expression::{Expression, ExprV, lemma_view_exprs_index, lemma_view_exprs_len,
    view_expr, view_exprs};
use crate::runtime::error::{RuntimeError, RuntimeErrorV};
use crate::runtime::value::{
    ValueV, spec_add, spec_div, spec_equals, spec_mul, spec_neg, spec_pos, spec_rem, spec_sub,
};
use crate::runtime::variable::{RuntimeVariable, VarV, lift_value_result, var_result_view};

verus! {

/// The value a binary operator computes from two operand values.
pub open spec fn spec_binop(op: BinaryOp, a: ValueV, b: ValueV) -> Result<ValueV, RuntimeErrorV> {
    match op {
        BinaryOp::Add => spec_add(a, b),
        BinaryOp::Subtract => spec_sub(a, b),
        BinaryOp::Multiply => spec_mul(a, b),
        BinaryOp::Divide => spec_div(a, b),
        BinaryOp::Modulo => spec_rem(a, b),
        BinaryOp::Equals => spec_equals(a, b),
    }
}

/// The value a unary operator computes from its operand value.
pub open spec fn spec_unop(op: UnaryOp, v: ValueV) -> Result<ValueV, RuntimeErrorV> {
    match op {
        UnaryOp::Plus => spec_pos(v),
        UnaryOp::Minus => spec_neg(v),
    }
}

/// The reference semantics: evaluate one expression against an
/// environment, yielding the result (or first error) and the
/// environment after evaluation.
pub open spec fn spec_eval(e: ExprV, env: EnvV) -> (Result<VarV, RuntimeErrorV>, EnvV)
    decreases e,
{
    match e {
        ExprV::Program(es) => spec_eval_program(es, env),
        ExprV::LiteralNumber(n) => (
            Ok(VarV { value: ValueV::Number(n), mutable: false }),
            env,
        ),
        ExprV::LiteralString(s) => (Ok(VarV { value: ValueV::String(s), mutable: false }), env),
        ExprV::Identifier(name) => (env_lookup(env, name), env),
        ExprV::Unary(op, operand) => {
            let (r, env1) = spec_eval(*operand, env);
            match r {
                Ok(v) => (lift_value_result(spec_unop(op, v.value)), env1),
                Err(e2) => (Err(e2), env1),
            }
        },
        ExprV::Binary(l, op, r) => {
            let (lr, env1) = spec_eval(*l, env);
            match lr {
                Err(e2) => (Err(e2), env1),
                Ok(lv) => {
                    let (rr, env2) = spec_eval(*r, env1);
                    match rr {
                        Err(e2) => (Err(e2), env2),
                        Ok(rv) => (lift_value_result(spec_binop(op, lv.value, rv.value)), env2),
                    }
                },
            }
        },
        ExprV::Unit => (Ok(VarV { value: ValueV::Unit, mutable: false }), env),
        ExprV::Assignment(name, value) => {
            let (vr, env1) = spec_eval(*value, env);
            match vr {
                Err(e2) => (Err(e2), env1),
                Ok(v) => match env_assign(env1, name, v.value) {
                    Ok(p) => (Ok(p.1), p.0),
                    Err(e2) => (Err(e2), env1),
                },
            }
        },
        ExprV::Declaration(name, value, mutable) => {
            let (vr, env1) = spec_eval(*value, env);
            match vr {
                Err(e2) => (Err(e2), env1),
                Ok(v) => {
                    let sv = VarV { value: v.value, mutable };
                    (Ok(sv), env_declare(env1, name, sv))
                },
            }
        },
    }
}

/// A program evaluates its children in order; the result is the last
/// child's value, or the unit value for an empty program.
pub open spec fn spec_eval_program(es: Seq<ExprV>, env: EnvV) -> (Result<VarV, RuntimeErrorV>, EnvV)
    decreases es,
{
    if es.len() == 0 {
        (Ok(VarV { value: ValueV::Unit, mutable: false }), env)
    } else {
        let (r, env1) = spec_eval(es[0], env);
        match r {
            Err(e) => (Err(e), env1),
            Ok(v) => if es.len() == 1 {
                (Ok(v), env1)
            } else {
                spec_eval_program(es.drop_first(), env1)
            },
        }
    }
}

/// The runtime: an evaluator bound to one global environment for the
/// whole session.
#[derive(Debug)]
pub struct Runtime {
    global_env: Env,
}

impl View for Runtime {
    type V = EnvV;

    closed spec fn view(&self) -> EnvV {
        self.global_env@
    }
}

impl Runtime {
    pub closed spec fn wf(&self) -> bool {
        self.global_env.wf()
    }

    pub fn new(global_env: Env) -> (r: Self)
        requires
            global_env.wf(),
        ensures
            r.wf(),
            r@ == global_env@,
    {
        Runtime { global_env }
    }

    /// A diagnostic dump of the runtime: its global environment.  The
    /// text is for human eyes only and is not specified further.
    pub fn to_display_string(&self) -> String {
        let mut out = String::new();
        out.append("Runtime {\nglobal_env: ");
        let et = self.global_env.to_display_string();
        out.append(et.as_str());
        out.append("\n}");
        out
    }

    /// Evaluate one expression tree against the bound environment:
    /// exactly `spec_eval`, result and final environment alike.
    pub fn evaluate(&mut self, expr: Expression) -> (r: Result<RuntimeVariable, RuntimeError>)
        requires
            old(self).wf(),
        ensures
            final(self).wf(),
            ({
                let (res, env2) = spec_eval(expr@, old(self)@);
                final(self)@ == env2 && var_result_view(r) == res
            }),
    {
        self.eval_expr(&expr)
    }

    fn eval_expr(&mut self, expr: &Expression) -> (r: Result<RuntimeVariable, RuntimeError>)
        requires
            old(self).wf(),
        ensures
            final(self).wf(),
            ({
                let (res, env2) = spec_eval(view_expr(*expr), old(self)@);
                final(self)@ == env2 && var_result_view(r) == res
            }),
        decreases expr,
    {
        match expr {
            Expression::Program(program) => self.eval_program(program),
            Expression::LiteralNumber(n) => Ok(RuntimeVariable::number(*n)),
            Expression::LiteralString(s) => Ok(RuntimeVariable::string(s.clone())),
            Expression::Identifier(ident) => self.global_env.evaluate(ident.as_str()),
            Expression::Unary(u) => {
                let right = match self.eval_expr(&u.right) {
                    Ok(v) => v,
                    Err(e) => {
                        return Err(e);
                    },
                };
                match u.operator {
                    UnaryOp::Plus => right.pos(),
                    UnaryOp::Minus => right.neg(),
                }
            },
            Expression::Binary(b) => {
                let left = match self.eval_expr(&b.left) {
                    Ok(v) => v,
                    Err(e) => {
                        return Err(e);
                    },
                };
                let right = match self.eval_expr(&b.right) {
                    Ok(v) => v,
                    Err(e) => {
                        return Err(e);
                    },
                };
                match b.operator {
                    BinaryOp::Add => left.add(&right),
                    BinaryOp::Subtract => left.sub(&right),
                    BinaryOp::Multiply => left.mul(&right),
                    BinaryOp::Divide => left.div(&right),
                    BinaryOp::Modulo => left.rem(&right),
                    BinaryOp::Equals => left.equals_variable(&right),
                }
            },
            Expression::Unit => Ok(RuntimeVariable::unit()),
            Expression::Assignment(a) => {
                let value = match self.eval_expr(&a.value) {
                    Ok(v) => v,
                    Err(e) => {
                        return Err(e);
                    },
                };
                self.global_env.assign(a.ident.as_str(), value)
            },
            Expression::Declaration(d) => {
                let value = match self.eval_expr(&d.value) {
                    Ok(v) => v,
                    Err(e) => {
                        return Err(e);
                    },
                };
                let value = value.with_mutable(d.mutable);
                Ok(self.global_env.declare(d.ident.as_str(), value))
            },
        }
    }

    #[verifier::loop_isolation(false)]
    fn eval_program(&mut self, program: &Vec<Expression>) -> (r: Result<
        RuntimeVariable,
        RuntimeError,
    >)
        requires
            old(self).wf(),
        ensures
            final(self).wf(),
            ({
                let (res, env2) = spec_eval_program(view_exprs(program@), old(self)@);
                final(self)@ == env2 && var_result_view(r) == res
            }),
        decreases program@,
    {
        let ghost views = view_exprs(program@);
        let ghost env0 = self@;
        proof {
            lemma_view_exprs_len(program@);
        }
        let len = program.len();
        if len == 0 {
            return Ok(RuntimeVariable::unit());
        }
        let mut i: usize = 0;
        proof {
            assert(views.skip(0) =~= views);
        }
        while i < len - 1
            invariant
                0 <= i < len,
                spec_eval_program(views, env0) == spec_eval_program(
                    views.skip(i as int),
                    self@,
                ),
                self.wf(),
            decreases len - i,
        {
            proof {
                lemma_view_exprs_index(program@, i as int);
            }
            match self.eval_expr(&program[i]) {
                Ok(_) => {},
                Err(e) => {
                    proof {
                        assert(views.skip(i as int)[0] == views[i as int]);
                    }
                    return Err(e);
                },
            }
            i += 1;
            proof {
                assert(views.skip(i - 1).drop_first() =~= views.skip(i as int));
            }
        }
        proof {
            lemma_view_exprs_index(program@, i as int);
            assert(views.skip(i as int)[0] == views[i as int]);
            assert(views.skip(i as int).len() == 1);
        }
        self.eval_expr(&program[len - 1])
    }
}

} // verus!
