//! Tree-walking evaluation: executes statements in order, evaluates
//! expressions recursively, and reports runtime errors as values.
//!
//! Numbers are IEEE 754 doubles carried as bit patterns. Negation and the
//! comparisons are computed here (see [`crate::numbers`]); the results of
//! `+`, `-`, `*` and `/` are supplied by the embedder in a table, in
//! evaluation order. When the evaluator reaches an arithmetic operation
//! whose result is not yet in the table, it stops and reports the operation
//! it needs; the embedder computes it on doubles, appends it to the table,
//! and runs the program again. Given the table, the whole run is a pure
//! function of the statements, the source and the starting state.
//!
//! A `print` statement appends the evaluated value to the output sequence;
//! rendering values as text is the embedder's concern.
use vstd::prelude::*;

use crate::ast::Expr;
use crate::ast::ExprModel;
use crate::ast::Stmt;
use crate::ast::StmtModel;
use crate::ast::is_binary_op;
use crate::ast::wf_expr;
use crate::ast::wf_stmt;
use crate::environment::Environment;
use crate::environment::undefined_variable_error;
use crate::error::ErrorModel;
use crate::error::ErrorType;
use crate::error::LoxError;
use crate::numbers::negate_bits;
use crate::numbers::negated_bits;
use crate::numbers::num_eq;
use crate::numbers::num_le;
use crate::numbers::num_lt;
use crate::numbers::eq_bits;
use crate::numbers::le_bits;
use crate::numbers::lt_bits;
use crate::tokens::Object;
use crate::tokens::Span;
use crate::tokens::Token;
use crate::tokens::TokenType;
use crate::tokens::Value;

verus! {

/// The four arithmetic operations on doubles that the embedder computes.
#[derive(Copy, Clone, Debug, PartialEq, Eq, Structural)]
pub enum NumOp {
    Add,
    Sub,
    Mul,
    Div,
}

/// An arithmetic result the evaluator needs: the operation and the bit
/// patterns of its two operands.
#[derive(Copy, Clone, Debug, PartialEq, Eq, Structural)]
pub struct NumQuery {
    pub op: NumOp,
    pub lhs: u64,
    pub rhs: u64,
}

/// Why evaluation stopped before producing a value.
pub enum Interrupt {
    /// A runtime error; execution of the statement sequence stops here.
    Fault(LoxError),
    /// An arithmetic result is missing from the supplied table. The embedder
    /// computes the operation on doubles, appends the result to the table,
    /// and runs again.
    Pending(NumQuery),
}

/// How a whole run ended.
pub enum Outcome {
    /// Every statement executed.
    Completed,
    /// The first runtime error.
    Failed(LoxError),
    /// An arithmetic result is missing from the supplied table.
    Pending(NumQuery),
}

/// The models of a statement vector, in order.
pub open spec fn stmt_models(statements: Seq<Stmt>) -> Seq<StmtModel> {
    statements.map_values(|s: Stmt| s@)
}

/// The state a run carries: the variable bindings, the values printed so
/// far, and how many supplied arithmetic results have been consumed.
pub struct InterpState {
    pub env: Map<Seq<u8>, Value>,
    pub output: Seq<Value>,
    pub used: nat,
}

/// The outcome of evaluating one expression.
pub enum EvalOut {
    Val { v: Value, used: nat },
    Fault { e: ErrorModel },
    Pending { q: NumQuery },
}

/// The outcome of executing one statement.
pub enum StmtOut {
    Done { st: InterpState },
    Fault { e: ErrorModel },
    Pending { q: NumQuery },
}

/// The outcome of running a statement sequence: the final state, and how it
/// ended. On a fault or a missing result, `st` is the state before the
/// statement that stopped, with its prints kept.
pub enum RunOut {
    Done { st: InterpState },
    Fault { e: ErrorModel, st: InterpState },
    Pending { q: NumQuery, st: InterpState },
}

/// An arithmetic operand is not a number; `+ - * /` and the comparisons are
/// defined on numbers alone, checked left then right.
pub open spec fn left_operand_error(span: Span) -> ErrorModel {
    ErrorModel { span, message: "Left operand is not a number"@, error_type: ErrorType::RuntimeError }
}

pub open spec fn right_operand_error(span: Span) -> ErrorModel {
    ErrorModel {
        span,
        message: "Right operand is not a number"@,
        error_type: ErrorType::RuntimeError,
    }
}

/// Negation is defined on numbers and booleans alone; there is no
/// truthiness coercion.
pub open spec fn negate_error(span: Span) -> ErrorModel {
    ErrorModel {
        span,
        message: "Cannot negate non-numeric or non-boolean value"@,
        error_type: ErrorType::RuntimeError,
    }
}

/// A `var` statement needs an initializer to execute.
pub open spec fn uninitialized_error(span: Span) -> ErrorModel {
    ErrorModel {
        span,
        message: "Cannot use uninitialized value"@,
        error_type: ErrorType::RuntimeError,
    }
}

/// An arithmetic operation: the next supplied result if one is left in the
/// table, else the query that names the missing result.
pub open spec fn arith_spec(op: NumOp, lhs: u64, rhs: u64, nums: Seq<u64>, used: nat) -> EvalOut {
    if used < nums.len() {
        EvalOut::Val { v: Value::Num(nums[used as int]), used: used + 1 }
    } else {
        EvalOut::Pending { q: NumQuery { op, lhs, rhs } }
    }
}

/// A unary operator: `-` and `!` share one dispatch; a number's sign bit is
/// flipped, a boolean is inverted, anything else is a runtime error.
pub open spec fn eval_unary_spec(operator: Token, v: Value, used: nat) -> EvalOut {
    match v {
        Value::Num(b) => EvalOut::Val { v: Value::Num(negated_bits(b)), used },
        Value::Bool(x) => EvalOut::Val { v: Value::Bool(!x), used },
        _ => EvalOut::Fault { e: negate_error(operator.span) },
    }
}

/// A binary operator on two evaluated operands. Both must be numbers,
/// checked left then right; the comparisons yield booleans by the IEEE 754
/// order, and the arithmetic operations consume one supplied result.
pub open spec fn eval_binary_spec(
    operator: Token,
    lv: Value,
    rv: Value,
    nums: Seq<u64>,
    used: nat,
) -> EvalOut
    recommends
        is_binary_op(operator.token_type),
{
    match lv {
        Value::Num(a) => match rv {
            Value::Num(b) => match operator.token_type {
                TokenType::Plus => arith_spec(NumOp::Add, a, b, nums, used),
                TokenType::Minus => arith_spec(NumOp::Sub, a, b, nums, used),
                TokenType::Star => arith_spec(NumOp::Mul, a, b, nums, used),
                TokenType::Slash => arith_spec(NumOp::Div, a, b, nums, used),
                TokenType::Greater => EvalOut::Val { v: Value::Bool(num_lt(b, a)), used },
                TokenType::GreaterEqual => EvalOut::Val { v: Value::Bool(num_le(b, a)), used },
                TokenType::Less => EvalOut::Val { v: Value::Bool(num_lt(a, b)), used },
                TokenType::LessEqual => EvalOut::Val { v: Value::Bool(num_le(a, b)), used },
                TokenType::EqualEqual => EvalOut::Val { v: Value::Bool(num_eq(a, b)), used },
                TokenType::BangEqual => EvalOut::Val { v: Value::Bool(!num_eq(a, b)), used },
                _ => arbitrary(),
            },
            _ => EvalOut::Fault { e: right_operand_error(operator.span) },
        },
        _ => EvalOut::Fault { e: left_operand_error(operator.span) },
    }
}

/// Recursive expression evaluation: a literal yields its stored value, a
/// grouping is transparent, a variable reads the environment, operands are
/// evaluated eagerly left to right.
pub open spec fn eval_expr_spec(
    e: ExprModel,
    src: Seq<u8>,
    env: Map<Seq<u8>, Value>,
    nums: Seq<u64>,
    used: nat,
) -> EvalOut
    decreases e,
{
    match e {
        ExprModel::Literal { value, .. } => EvalOut::Val { v: value, used },
        ExprModel::Grouping { expression } => eval_expr_spec(*expression, src, env, nums, used),
        ExprModel::Variable { name } => {
            if env.contains_key(name.span.text(src)) {
                EvalOut::Val { v: env[name.span.text(src)], used }
            } else {
                EvalOut::Fault { e: undefined_variable_error(name.span) }
            }
        },
        ExprModel::Unary { operator, right } => match eval_expr_spec(
            *right,
            src,
            env,
            nums,
            used,
        ) {
            EvalOut::Val { v, used } => eval_unary_spec(operator, v, used),
            other => other,
        },
        ExprModel::Binary { left, operator, right } => match eval_expr_spec(
            *left,
            src,
            env,
            nums,
            used,
        ) {
            EvalOut::Val { v: lv, used: u1 } => match eval_expr_spec(*right, src, env, nums, u1) {
                EvalOut::Val { v: rv, used: u2 } => eval_binary_spec(operator, lv, rv, nums, u2),
                other => other,
            },
            other => other,
        },
    }
}

/// One statement: evaluate and discard, evaluate and print, or evaluate and
/// bind. A `var` statement without an initializer is a runtime error.
pub open spec fn exec_stmt_spec(
    s: StmtModel,
    src: Seq<u8>,
    st: InterpState,
    nums: Seq<u64>,
) -> StmtOut {
    match s {
        StmtModel::Expression { expression } => match eval_expr_spec(
            expression,
            src,
            st.env,
            nums,
            st.used,
        ) {
            EvalOut::Val { v, used } => StmtOut::Done {
                st: InterpState { env: st.env, output: st.output, used },
            },
            EvalOut::Fault { e } => StmtOut::Fault { e },
            EvalOut::Pending { q } => StmtOut::Pending { q },
        },
        StmtModel::Print { expression } => match eval_expr_spec(
            expression,
            src,
            st.env,
            nums,
            st.used,
        ) {
            EvalOut::Val { v, used } => StmtOut::Done {
                st: InterpState { env: st.env, output: st.output.push(v), used },
            },
            EvalOut::Fault { e } => StmtOut::Fault { e },
            EvalOut::Pending { q } => StmtOut::Pending { q },
        },
        StmtModel::Var { name, initializer } => match initializer {
            None => StmtOut::Fault { e: uninitialized_error(name.span) },
            Some(init) => match eval_expr_spec(init, src, st.env, nums, st.used) {
                EvalOut::Val { v, used } => StmtOut::Done {
                    st: InterpState {
                        env: st.env.insert(name.span.text(src), v),
                        output: st.output,
                        used,
                    },
                },
                EvalOut::Fault { e } => StmtOut::Fault { e },
                EvalOut::Pending { q } => StmtOut::Pending { q },
            },
        },
    }
}

/// Runs the statements from index `i` on, in order, stopping at the first
/// statement that faults or needs a missing arithmetic result.
pub open spec fn interpret_spec(
    stmts: Seq<StmtModel>,
    src: Seq<u8>,
    st: InterpState,
    nums: Seq<u64>,
    i: nat,
) -> RunOut
    decreases stmts.len() - i,
{
    if i >= stmts.len() {
        RunOut::Done { st }
    } else {
        match exec_stmt_spec(stmts[i as int], src, st, nums) {
            StmtOut::Done { st: st2 } => interpret_spec(stmts, src, st2, nums, i + 1),
            StmtOut::Fault { e } => RunOut::Fault { e, st },
            StmtOut::Pending { q } => RunOut::Pending { q, st },
        }
    }
}

/// The tree-walking evaluator: the variable environment, the values printed
/// so far, and the supplied arithmetic results with a cursor into them.
pub struct Interpreter<'a> {
    environment: Environment<'a>,
    source: &'a Vec<u8>,
    output: Vec<Object>,
    num_results: Vec<u64>,
    used: usize,
}

impl<'a> Interpreter<'a> {
    /// The environment reads names out of this interpreter's source.
    pub closed spec fn wf(self) -> bool {
        self.environment.src() == self.source@ && self.used <= self.num_results@.len()
    }

    /// The source buffer variable names are read from.
    pub closed spec fn src(self) -> Seq<u8> {
        self.source@
    }

    /// The supplied arithmetic results.
    pub closed spec fn nums(self) -> Seq<u64> {
        self.num_results@
    }

    /// The current run state.
    pub closed spec fn state(self) -> InterpState {
        InterpState {
            env: self.environment.view_map(),
            output: self.output@.map_values(|o: Object| o@),
            used: self.used as nat,
        }
    }

    /// A fresh interpreter over the source, with the arithmetic results
    /// supplied so far.
    pub fn new(source: &'a Vec<u8>, num_results: Vec<u64>) -> (it: Interpreter<'a>)
        ensures
            it.wf(),
            it.src() == source@,
            it.nums() == num_results@,
            it.state() == (InterpState {
                env: Map::<Seq<u8>, Value>::empty(),
                output: Seq::<Value>::empty(),
                used: 0nat,
            }),
    {
        let it = Interpreter {
            environment: Environment::new(source),
            source,
            output: Vec::new(),
            num_results,
            used: 0,
        };
        proof {
            assert(it.output@.map_values(|o: Object| o@) =~= Seq::<Value>::empty());
        }
        it
    }

    /// The values printed so far, oldest first.
    pub fn output(&self) -> (r: &Vec<Object>)
        ensures
            r@.map_values(|o: Object| o@) == self.state().output,
    {
        &self.output
    }

    /// An arithmetic operation: hands out the next supplied result, or stops
    /// with the query naming the missing one.
    fn arith(&mut self, op: NumOp, lhs: u64, rhs: u64) -> (r: Result<Object, Interrupt>)
        requires
            old(self).wf(),
        ensures
            final(self).wf(),
            final(self).src() == old(self).src(),
            final(self).nums() == old(self).nums(),
            final(self).state().env == old(self).state().env,
            final(self).state().output == old(self).state().output,
            match arith_spec(op, lhs, rhs, old(self).nums(), old(self).state().used) {
                EvalOut::Val { v, used } => r matches Ok(o) && (r matches Ok(o) ==> o@ == v)
                    && final(self).state().used == used,
                EvalOut::Pending { q } => r matches Err(s) && (r matches Err(s) ==> s matches
                    Interrupt::Pending(p) && p == q),
                EvalOut::Fault { .. } => false,
            },
    {
        if self.used < self.num_results.len() {
            let v = self.num_results[self.used];
            self.used = self.used + 1;
            Ok(Object::Num(v))
        } else {
            Err(Interrupt::Pending(NumQuery { op, lhs, rhs }))
        }
    }

    /// Evaluates one expression. On success the environment and the output
    /// are untouched and the result is exactly what [`eval_expr_spec`]
    /// gives; a fault or a missing arithmetic result is reported as an
    /// interrupt.
    pub fn evaluate(&mut self, expr: &Expr) -> (r: Result<Object, Interrupt>)
        requires
            old(self).wf(),
            wf_expr(expr@, old(self).src().len()),
        ensures
            final(self).wf(),
            final(self).src() == old(self).src(),
            final(self).nums() == old(self).nums(),
            final(self).state().env == old(self).state().env,
            final(self).state().output == old(self).state().output,
            match eval_expr_spec(
                expr@,
                old(self).src(),
                old(self).state().env,
                old(self).nums(),
                old(self).state().used,
            ) {
                EvalOut::Val { v, used } => r matches Ok(o) && (r matches Ok(o) ==> o@ == v)
                    && final(self).state().used == used,
                EvalOut::Fault { e } => r matches Err(s) && (r matches Err(s) ==> s matches
                    Interrupt::Fault(err) && err@ == e),
                EvalOut::Pending { q } => r matches Err(s) && (r matches Err(s) ==> s matches
                    Interrupt::Pending(p) && p == q),
            },
        decreases expr,
    {
        match expr {
            Expr::Literal(l) => Ok(l.value.clone()),
            Expr::Grouping(g) => self.evaluate(&g.expression),
            Expr::Variable(v) => match self.environment.get(v.name) {
                Ok(value) => Ok(value),
                Err(e) => Err(Interrupt::Fault(e)),
            },
            Expr::Unary(u) => {
                let right = self.evaluate(&u.right)?;
                match right {
                    Object::Num(n) => Ok(Object::Num(negate_bits(n))),
                    Object::Bool(x) => Ok(Object::Bool(!x)),
                    // No truthiness or falsiness.
                    _ => Err(
                        Interrupt::Fault(
                            LoxError::error(
                                u.operator.span,
                                "Cannot negate non-numeric or non-boolean value",
                                ErrorType::RuntimeError,
                            ),
                        ),
                    ),
                }
            },
            Expr::Binary(b) => {
                let left = self.evaluate(&b.left)?;
                let right = self.evaluate(&b.right)?;
                let lv = match left {
                    Object::Num(n) => n,
                    _ => {
                        return Err(
                            Interrupt::Fault(
                                LoxError::error(
                                    b.operator.span,
                                    "Left operand is not a number",
                                    ErrorType::RuntimeError,
                                ),
                            ),
                        );
                    },
                };
                let rv = match right {
                    Object::Num(n) => n,
                    _ => {
                        return Err(
                            Interrupt::Fault(
                                LoxError::error(
                                    b.operator.span,
                                    "Right operand is not a number",
                                    ErrorType::RuntimeError,
                                ),
                            ),
                        );
                    },
                };
                match b.operator.token_type {
                    TokenType::Plus => self.arith(NumOp::Add, lv, rv),
                    TokenType::Minus => self.arith(NumOp::Sub, lv, rv),
                    TokenType::Star => self.arith(NumOp::Mul, lv, rv),
                    TokenType::Slash => self.arith(NumOp::Div, lv, rv),
                    TokenType::Greater => Ok(Object::Bool(lt_bits(rv, lv))),
                    TokenType::GreaterEqual => Ok(Object::Bool(le_bits(rv, lv))),
                    TokenType::Less => Ok(Object::Bool(lt_bits(lv, rv))),
                    TokenType::LessEqual => Ok(Object::Bool(le_bits(lv, rv))),
                    TokenType::EqualEqual => Ok(Object::Bool(eq_bits(lv, rv))),
                    TokenType::BangEqual => Ok(Object::Bool(!eq_bits(lv, rv))),
                    _ => vstd::pervasive::unreached(),
                }
            },
        }
    }

    /// Executes one statement; statements return nothing.
    pub fn execute(&mut self, stmt: &Stmt) -> (r: Result<(), Interrupt>)
        requires
            old(self).wf(),
            wf_stmt(stmt@, old(self).src().len()),
        ensures
            final(self).wf(),
            final(self).src() == old(self).src(),
            final(self).nums() == old(self).nums(),
            match exec_stmt_spec(stmt@, old(self).src(), old(self).state(), old(self).nums()) {
                StmtOut::Done { st } => r matches Ok(u) && final(self).state() == st,
                StmtOut::Fault { e } => r matches Err(s) && (r matches Err(s) ==> s matches
                    Interrupt::Fault(err) && err@ == e) && final(self).state().env == old(self).state().env && final(self).state().output == old(self).state().output,
                StmtOut::Pending { q } => r matches Err(s) && (r matches Err(s) ==> s matches
                    Interrupt::Pending(p) && p == q) && final(self).state().env == old(self).state().env && final(self).state().output == old(self).state().output,
            },
    {
        match stmt {
            Stmt::Expression(s) => {
                self.evaluate(&s.expression)?;
                Ok(())
            },
            Stmt::Print(s) => {
                let value = self.evaluate(&s.expression)?;
                let ghost pre_output = self.output@;
                self.output.push(value);
                proof {
                    assert(self.output@.map_values(|o: Object| o@) =~= pre_output.map_values(
                        |o: Object| o@,
                    ).push(self.output@.last()@));
                }
                Ok(())
            },
            Stmt::Var(s) => {
                match &s.initializer {
                    Some(init) => {
                        let value = self.evaluate(init)?;
                        let name = s.name.as_string(self.source);
                        self.environment.define(name, Some(value));
                        Ok(())
                    },
                    None => {
                        Err(
                            Interrupt::Fault(
                                LoxError::error(
                                    s.name.span,
                                    "Cannot use uninitialized value",
                                    ErrorType::RuntimeError,
                                ),
                            ),
                        )
                    },
                }
            },
        }
    }

    /// Executes the statements in order, stopping at the first statement
    /// that fails or needs a missing arithmetic result; errors are returned
    /// as values, and the output printed before the stop is kept.
    pub fn interpret(&mut self, statements: &Vec<Stmt>) -> (r: Outcome)
        requires
            old(self).wf(),
            forall|i: int|
                0 <= i < statements@.len() ==> wf_stmt(
                    (#[trigger] statements@[i])@,
                    old(self).src().len(),
                ),
        ensures
            final(self).wf(),
            final(self).src() == old(self).src(),
            final(self).nums() == old(self).nums(),
            match interpret_spec(
                stmt_models(statements@),
                old(self).src(),
                old(self).state(),
                old(self).nums(),
                0,
            ) {
                RunOut::Done { st } => (r is Completed) && final(self).state() == st,
                RunOut::Fault { e, st } => r matches Outcome::Failed(err) && (r matches
                    Outcome::Failed(err) ==> err@ == e) && final(self).state().env == st.env
                    && final(self).state().output == st.output,
                RunOut::Pending { q, st } => r matches Outcome::Pending(p) && (r matches
                    Outcome::Pending(p) ==> p == q) && final(self).state().env == st.env
                    && final(self).state().output == st.output,
            },
    {
        let ghost models = stmt_models(statements@);
        let ghost whole = interpret_spec(
            models,
            old(self).src(),
            old(self).state(),
            old(self).nums(),
            0,
        );
        let mut i: usize = 0;
        while i < statements.len()
            invariant
                self.wf(),
                self.src() == old(self).src(),
                self.nums() == old(self).nums(),
                i <= statements@.len(),
                models == stmt_models(statements@),
                whole == interpret_spec(
                    models,
                    old(self).src(),
                    old(self).state(),
                    old(self).nums(),
                    0,
                ),
                forall|k: int|
                    0 <= k < statements@.len() ==> wf_stmt(
                        (#[trigger] statements@[k])@,
                        self.src().len(),
                    ),
                whole == interpret_spec(models, self.src(), self.state(), self.nums(), i as nat),
            decreases statements@.len() - i,
        {
            let ghost pre = self.state();
            match self.execute(&statements[i]) {
                Ok(_) => {},
                Err(Interrupt::Fault(e)) => {
                    proof {
                        assert(whole == (RunOut::Fault { e: e@, st: pre }));
                    }
                    return Outcome::Failed(e);
                },
                Err(Interrupt::Pending(q)) => {
                    proof {
                        assert(whole == (RunOut::Pending { q, st: pre }));
                    }
                    return Outcome::Pending(q);
                },
            }
            i = i + 1;
        }
        proof {
            assert(whole == (RunOut::Done { st: self.state() }));
        }
        Outcome::Completed
    }
}

} // verus!
