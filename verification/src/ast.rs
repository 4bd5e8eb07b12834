//! The abstract syntax tree: expression and statement variants produced by
//! the parser and consumed by the evaluator. Each node exclusively owns its
//! children; the tree is acyclic and immutable once built.
use vstd::prelude::*;

use crate::tokens::Object;
use crate::tokens::Span;
use crate::tokens::Token;
use crate::tokens::TokenType;
use crate::tokens::Value;

verus! {

/// An expression node.
#[derive(Debug)]
pub enum Expr {
    Binary(BinaryExpr),
    Grouping(GroupingExpr),
    Literal(LiteralExpr),
    Unary(UnaryExpr),
    Variable(VariableExpr),
}

/// The two directions of additive arithmetic.
#[derive(Copy, Clone, Debug, PartialEq, Eq, Structural)]
pub enum BinaryOperation {
    Addition,
    Subtraction,
}

/// A binary operator application; the operator token records which one and
/// where it stands.
#[derive(Debug)]
pub struct BinaryExpr {
    pub left: Box<Expr>,
    pub operator: Token,
    pub right: Box<Expr>,
}

/// A parenthesized expression.
#[derive(Debug)]
pub struct GroupingExpr {
    pub expression: Box<Expr>,
}

/// A literal value together with the span it was read from.
#[derive(Debug)]
pub struct LiteralExpr {
    pub value: Object,
    pub span: Span,
}

/// A unary operator application.
#[derive(Debug)]
pub struct UnaryExpr {
    pub operator: Token,
    pub right: Box<Expr>,
}

/// A read of a variable; the token's span names the variable.
#[derive(Debug)]
pub struct VariableExpr {
    pub name: Token,
}

/// The mathematical model of an expression tree.
pub enum ExprModel {
    Binary { left: Box<ExprModel>, operator: Token, right: Box<ExprModel> },
    Grouping { expression: Box<ExprModel> },
    Literal { value: Value, span: Span },
    Unary { operator: Token, right: Box<ExprModel> },
    Variable { name: Token },
}

/// The model of an expression node.
pub open spec fn view_expr(e: Expr) -> ExprModel
    decreases e,
{
    match e {
        Expr::Binary(b) => ExprModel::Binary {
            left: Box::new(view_expr(*b.left)),
            operator: b.operator,
            right: Box::new(view_expr(*b.right)),
        },
        Expr::Grouping(g) => ExprModel::Grouping { expression: Box::new(view_expr(*g.expression)) },
        Expr::Literal(l) => ExprModel::Literal { value: l.value@, span: l.span },
        Expr::Unary(u) => ExprModel::Unary {
            operator: u.operator,
            right: Box::new(view_expr(*u.right)),
        },
        Expr::Variable(v) => ExprModel::Variable { name: v.name },
    }
}

impl View for Expr {
    type V = ExprModel;

    open spec fn view(&self) -> ExprModel {
        view_expr(*self)
    }
}

/// A statement node. A program is an ordered sequence of statements.
#[derive(Debug)]
pub enum Stmt {
    /// Evaluate and discard.
    Expression(ExpressionStmt),
    /// Evaluate and print.
    Print(PrintStmt),
    /// Declare a binding.
    Var(VarStmt),
}

#[derive(Debug)]
pub struct ExpressionStmt {
    pub expression: Expr,
}

#[derive(Debug)]
pub struct PrintStmt {
    pub expression: Expr,
}

/// A variable declaration; the name token's span names the variable, and the
/// initializer is required at run time.
#[derive(Debug)]
pub struct VarStmt {
    pub name: Token,
    pub initializer: Option<Expr>,
}

/// The mathematical model of a statement.
pub enum StmtModel {
    Expression { expression: ExprModel },
    Print { expression: ExprModel },
    Var { name: Token, initializer: Option<ExprModel> },
}

/// The model of a statement node.
pub open spec fn view_stmt(s: Stmt) -> StmtModel {
    match s {
        Stmt::Expression(e) => StmtModel::Expression { expression: e.expression@ },
        Stmt::Print(p) => StmtModel::Print { expression: p.expression@ },
        Stmt::Var(v) => StmtModel::Var {
            name: v.name,
            initializer: match v.initializer {
                Some(e) => Some(e@),
                None => None,
            },
        },
    }
}

impl View for Stmt {
    type V = StmtModel;

    open spec fn view(&self) -> StmtModel {
        view_stmt(*self)
    }
}

/// The binary operator categories the evaluator accepts.
pub open spec fn is_arithmetic_op(t: TokenType) -> bool {
    t == TokenType::Plus || t == TokenType::Minus || t == TokenType::Star || t == TokenType::Slash
}

/// The relational and equality operators; all of them compare numbers.
pub open spec fn is_comparison_op(t: TokenType) -> bool {
    t == TokenType::Greater || t == TokenType::GreaterEqual || t == TokenType::Less || t
        == TokenType::LessEqual || t == TokenType::EqualEqual || t == TokenType::BangEqual
}

/// The operator tokens a binary node may carry.
pub open spec fn is_binary_op(t: TokenType) -> bool {
    is_arithmetic_op(t) || is_comparison_op(t)
}

/// The operator tokens a unary node may carry.
pub open spec fn is_unary_op(t: TokenType) -> bool {
    t == TokenType::Bang || t == TokenType::Minus
}

/// A well-formed expression over a source of `n` bytes: it carries only
/// operator tokens the evaluator understands, and every token span it holds
/// lies within the source. The parser only builds well-formed trees.
pub open spec fn wf_expr(e: ExprModel, n: nat) -> bool
    decreases e,
{
    match e {
        ExprModel::Binary { left, operator, right } => is_binary_op(operator.token_type)
            && operator.span.wf(n) && wf_expr(*left, n) && wf_expr(*right, n),
        ExprModel::Grouping { expression } => wf_expr(*expression, n),
        ExprModel::Literal { span, .. } => span.wf(n),
        ExprModel::Unary { operator, right } => is_unary_op(operator.token_type)
            && operator.span.wf(n) && wf_expr(*right, n),
        ExprModel::Variable { name } => name.span.wf(n),
    }
}

/// A well-formed statement holds only well-formed expressions, and its name
/// token, if any, lies within the source.
pub open spec fn wf_stmt(s: StmtModel, n: nat) -> bool {
    match s {
        StmtModel::Expression { expression } => wf_expr(expression, n),
        StmtModel::Print { expression } => wf_expr(expression, n),
        StmtModel::Var { name, initializer } => name.span.wf(n) && match initializer {
            Some(e) => wf_expr(e, n),
            None => true,
        },
    }
}

/// Tests an operator category at run time.
fn is_binary_op_check(t: TokenType) -> (r: bool)
    ensures
        r == is_binary_op(t),
{
    match t {
        TokenType::Plus => true,
        TokenType::Minus => true,
        TokenType::Star => true,
        TokenType::Slash => true,
        TokenType::Greater => true,
        TokenType::GreaterEqual => true,
        TokenType::Less => true,
        TokenType::LessEqual => true,
        TokenType::EqualEqual => true,
        TokenType::BangEqual => true,
        _ => false,
    }
}

/// Tests an expression's well-formedness at run time, for callers outside
/// the verified world: the parser's trees always pass.
pub fn expr_wf_check(e: &Expr, n: usize) -> (r: bool)
    ensures
        r == wf_expr(e@, n as nat),
    decreases e,
{
    match e {
        Expr::Binary(b) => is_binary_op_check(b.operator.token_type) && b.operator.span.start
            <= b.operator.span.end && b.operator.span.end <= n && expr_wf_check(&b.left, n)
            && expr_wf_check(&b.right, n),
        Expr::Grouping(g) => expr_wf_check(&g.expression, n),
        Expr::Literal(l) => l.span.start <= l.span.end && l.span.end <= n,
        Expr::Unary(u) => (u.operator.token_type == TokenType::Bang || u.operator.token_type
            == TokenType::Minus) && u.operator.span.start <= u.operator.span.end
            && u.operator.span.end <= n && expr_wf_check(&u.right, n),
        Expr::Variable(v) => v.name.span.start <= v.name.span.end && v.name.span.end <= n,
    }
}

/// Tests a statement's well-formedness at run time.
pub fn stmt_wf_check(s: &Stmt, n: usize) -> (r: bool)
    ensures
        r == wf_stmt(s@, n as nat),
{
    match s {
        Stmt::Expression(e) => expr_wf_check(&e.expression, n),
        Stmt::Print(p) => expr_wf_check(&p.expression, n),
        Stmt::Var(v) => v.name.span.start <= v.name.span.end && v.name.span.end <= n && match &v
            .initializer {
            Some(init) => expr_wf_check(init, n),
            None => true,
        },
    }
}

/// Tests every statement of a program, for callers outside the verified
/// world; what the parser returns always passes.
pub fn program_wf_check(statements: &Vec<Stmt>, n: usize) -> (r: bool)
    ensures
        r == (forall|i: int|
            0 <= i < statements@.len() ==> wf_stmt((#[trigger] statements@[i])@, n as nat)),
{
    let mut i: usize = 0;
    while i < statements.len()
        invariant
            i <= statements@.len(),
            forall|j: int| 0 <= j < i ==> wf_stmt((#[trigger] statements@[j])@, n as nat),
        decreases statements@.len() - i,
    {
        if !stmt_wf_check(&statements[i], n) {
            return false;
        }
        i = i + 1;
    }
    true
}

} // verus!
