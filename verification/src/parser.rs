//! Recursive-descent parsing: turns the token sequence into a sequence of
//! statement trees by precedence climbing.
//!
//! The grammar, highest precedence binding deepest:
//! ```text
//! program    := statement* EOF
//! statement  := "print" expression ";"
//!             | "var" IDENTIFIER ( "=" expression )? ";"
//!             | expression ";"
//! expression := equality
//! equality   := comparison ( ( "!=" | "==" ) comparison )*
//! comparison := term ( ( ">" | ">=" | "<" | "<=" ) term )*
//! term       := factor ( ( "-" | "+" ) factor )*
//! factor     := unary ( ( "/" | "*" ) unary )*
//! unary      := ( "!" | "-" ) unary | primary
//! primary    := NUMBER | STRING | IDENTIFIER | "true" | "false" | "nil"
//!             | "(" expression ")"
//! ```
//! Every binary level is left-associative. Literal text is recovered by
//! slicing the source with the token's span; the numeric value of each
//! number literal is supplied by the caller in a table with one entry per
//! `Number` token, in token order, since turning decimal text into a
//! double-precision value is the embedder's floating-point work.
//!
//! A syntax error aborts the parse and carries the offending token's span; a
//! synchronization routine is available for callers that want to skip to the
//! next statement boundary and resume.
use vstd::prelude::*;

use crate::ast::Expr;
use crate::ast::ExprModel;
use crate::ast::BinaryExpr;
use crate::ast::ExpressionStmt;
use crate::ast::GroupingExpr;
use crate::ast::LiteralExpr;
use crate::ast::PrintStmt;
use crate::ast::Stmt;
use crate::ast::StmtModel;
use crate::ast::UnaryExpr;
use crate::ast::VarStmt;
use crate::ast::VariableExpr;
use crate::ast::wf_expr;
use crate::ast::wf_stmt;
use crate::error::ErrorModel;
use crate::error::ErrorType;
use crate::error::LoxError;
use crate::tokens::KeywordType;
use crate::tokens::Object;
use crate::tokens::Span;
use crate::tokens::Token;
use crate::tokens::TokenType;
use crate::tokens::Value;
use crate::tokens::copy_range;

verus! {

/// Every token span lies within the source, and a string literal token is at
/// least two bytes long (its quotes), so its contents can be sliced out.
pub open spec fn tokens_wf(src: Seq<u8>, toks: Seq<Token>) -> bool {
    forall|i: int|
        0 <= i < toks.len() ==> (#[trigger] toks[i]).span.wf(src.len()) && (toks[i].token_type
            == TokenType::StringLiteral ==> toks[i].span.start + 2 <= toks[i].span.end)
}

/// How many `Number` tokens stand before position `i`: the index into the
/// number-value table of the `Number` token at position `i`.
pub open spec fn count_numbers(toks: Seq<Token>, i: int) -> int
    decreases i,
{
    if i <= 0 {
        0
    } else {
        count_numbers(toks, i - 1) + if 0 < i <= toks.len() && toks[i - 1].token_type
            == TokenType::Number {
            1int
        } else {
            0int
        }
    }
}

pub proof fn lemma_count_numbers_bounds(toks: Seq<Token>, i: int)
    ensures
        0 <= count_numbers(toks, i) <= if i >= 0 {
            i
        } else {
            0
        },
    decreases i,
{
    if i > 0 {
        lemma_count_numbers_bounds(toks, i - 1);
    }
}

pub proof fn lemma_count_numbers_monotonic(toks: Seq<Token>, i: int, j: int)
    requires
        i <= j,
    ensures
        count_numbers(toks, i) <= count_numbers(toks, j),
    decreases j - i,
{
    if i < j {
        lemma_count_numbers_monotonic(toks, i, j - 1);
    }
}

/// The inputs a parse works over: the source bytes, the token sequence, and
/// the table of number-literal values, one per `Number` token, in order.
pub struct ParseInput {
    pub src: Seq<u8>,
    pub toks: Seq<Token>,
    pub nums: Seq<u64>,
}

impl ParseInput {
    /// The token sequence fits the source and the number table covers every
    /// `Number` token.
    pub open spec fn wf(self) -> bool {
        tokens_wf(self.src, self.toks) && count_numbers(self.toks, self.toks.len() as int)
            <= self.nums.len()
    }
}

/// The outcome of one parsing level: a value and the position after it, or
/// the first syntax error.
pub enum ParseOut<T> {
    Done { value: T, next: nat },
    Fail { error: ErrorModel },
}

/// The span reported for a fault at position `pos`: the token standing
/// there, or the last token when the input ended too early.
pub open spec fn err_span_at(toks: Seq<Token>, pos: nat) -> Span {
    if pos < toks.len() {
        toks[pos as int].span
    } else if toks.len() > 0 {
        toks[toks.len() - 1].span
    } else {
        Span { start: 0, end: 0 }
    }
}

/// The span reported when an expected token is missing at position `pos`:
/// the token just consumed.
pub open spec fn err_span_after(toks: Seq<Token>, pos: nat) -> Span {
    if 1 <= pos <= toks.len() {
        toks[pos as int - 1].span
    } else {
        err_span_at(toks, pos)
    }
}

/// No expression starts at `pos`.
pub open spec fn expected_expression_error(toks: Seq<Token>, pos: nat) -> ErrorModel {
    ErrorModel {
        span: err_span_at(toks, pos),
        message: "Expected expression"@,
        error_type: ErrorType::ParseError,
    }
}

/// A required token is missing at `pos`.
pub open spec fn missing_token_error(toks: Seq<Token>, pos: nat, message: Seq<char>) -> ErrorModel {
    ErrorModel {
        span: err_span_after(toks, pos),
        message,
        error_type: ErrorType::ParseError,
    }
}

/// `primary`: a literal, a variable read, or a parenthesized expression.
pub open spec fn parse_primary_spec(inp: ParseInput, pos: nat) -> ParseOut<ExprModel>
    decreases inp.toks.len() - pos, 0nat,
{
    if pos >= inp.toks.len() {
        ParseOut::Fail { error: expected_expression_error(inp.toks, pos) }
    } else {
        let tok = inp.toks[pos as int];
        match tok.token_type {
            TokenType::Keyword(KeywordType::False) => ParseOut::Done {
                value: ExprModel::Literal { value: Value::Bool(false), span: tok.span },
                next: pos + 1,
            },
            TokenType::Keyword(KeywordType::True) => ParseOut::Done {
                value: ExprModel::Literal { value: Value::Bool(true), span: tok.span },
                next: pos + 1,
            },
            TokenType::Keyword(KeywordType::Nil) => ParseOut::Done {
                value: ExprModel::Literal { value: Value::Nil, span: tok.span },
                next: pos + 1,
            },
            TokenType::StringLiteral => ParseOut::Done {
                // The span includes the quotes; the value does not.
                value: ExprModel::Literal {
                    value: Value::Str(
                        inp.src.subrange(tok.span.start as int + 1, tok.span.end as int - 1),
                    ),
                    span: tok.span,
                },
                next: pos + 1,
            },
            TokenType::Number => ParseOut::Done {
                value: ExprModel::Literal {
                    value: Value::Num(inp.nums[count_numbers(inp.toks, pos as int)]),
                    span: tok.span,
                },
                next: pos + 1,
            },
            TokenType::Identifier => ParseOut::Done {
                value: ExprModel::Variable { name: tok },
                next: pos + 1,
            },
            TokenType::LeftParen => match parse_expression_spec(inp, pos + 1) {
                ParseOut::Fail { error } => ParseOut::Fail { error },
                ParseOut::Done { value, next } => {
                    if next < inp.toks.len() && inp.toks[next as int].token_type
                        == TokenType::RightParen {
                        ParseOut::Done {
                            value: ExprModel::Grouping { expression: Box::new(value) },
                            next: next + 1,
                        }
                    } else {
                        ParseOut::Fail {
                            error: missing_token_error(
                                inp.toks,
                                next,
                                "Expect ')' after expression"@,
                            ),
                        }
                    }
                },
            },
            _ => ParseOut::Fail { error: expected_expression_error(inp.toks, pos) },
        }
    }
}

/// `unary`: a chain of `!`/`-` prefixes ending in a primary.
pub open spec fn parse_unary_spec(inp: ParseInput, pos: nat) -> ParseOut<ExprModel>
    decreases inp.toks.len() - pos, 1nat,
{
    if pos < inp.toks.len() && (inp.toks[pos as int].token_type == TokenType::Bang
        || inp.toks[pos as int].token_type == TokenType::Minus) {
        let op = inp.toks[pos as int];
        match parse_unary_spec(inp, pos + 1) {
            ParseOut::Fail { error } => ParseOut::Fail { error },
            ParseOut::Done { value, next } => ParseOut::Done {
                value: ExprModel::Unary { operator: op, right: Box::new(value) },
                next,
            },
        }
    } else {
        parse_primary_spec(inp, pos)
    }
}

/// Whether the token at `pos` is one of the operators of a binary level.
pub open spec fn level_op(inp: ParseInput, pos: nat, ops: Seq<TokenType>) -> bool {
    pos < inp.toks.len() && ops.contains(inp.toks[pos as int].token_type)
}

/// The operator sets of the four binary precedence levels.
pub open spec fn factor_ops() -> Seq<TokenType> {
    seq![TokenType::Slash, TokenType::Star]
}

pub open spec fn term_ops() -> Seq<TokenType> {
    seq![TokenType::Plus, TokenType::Minus]
}

pub open spec fn comparison_ops() -> Seq<TokenType> {
    seq![
        TokenType::Greater,
        TokenType::GreaterEqual,
        TokenType::Less,
        TokenType::LessEqual,
    ]
}

pub open spec fn equality_ops() -> Seq<TokenType> {
    seq![TokenType::BangEqual, TokenType::EqualEqual]
}

/// Folds further `/`/`*` operands onto `left`, left-associatively.
pub open spec fn parse_factor_rest_spec(inp: ParseInput, left: ExprModel, pos: nat) -> ParseOut<
    ExprModel,
>
    decreases inp.toks.len() - pos, 3nat,
{
    if level_op(inp, pos, factor_ops()) {
        let op = inp.toks[pos as int];
        match parse_unary_spec(inp, pos + 1) {
            ParseOut::Fail { error } => ParseOut::Fail { error },
            ParseOut::Done { value, next } => {
                let combined = ExprModel::Binary {
                    left: Box::new(left),
                    operator: op,
                    right: Box::new(value),
                };
                if pos < next <= inp.toks.len() {
                    parse_factor_rest_spec(inp, combined, next)
                } else {
                    ParseOut::Done { value: combined, next }
                }
            },
        }
    } else {
        ParseOut::Done { value: left, next: pos }
    }
}

/// `factor`: unary operands folded under `/` and `*`.
pub open spec fn parse_factor_spec(inp: ParseInput, pos: nat) -> ParseOut<ExprModel>
    decreases inp.toks.len() - pos, 4nat,
{
    match parse_unary_spec(inp, pos) {
        ParseOut::Fail { error } => ParseOut::Fail { error },
        ParseOut::Done { value, next } => {
            if pos < next <= inp.toks.len() {
                parse_factor_rest_spec(inp, value, next)
            } else {
                ParseOut::Done { value, next }
            }
        },
    }
}

/// Folds further `+`/`-` operands onto `left`, left-associatively.
pub open spec fn parse_term_rest_spec(inp: ParseInput, left: ExprModel, pos: nat) -> ParseOut<
    ExprModel,
>
    decreases inp.toks.len() - pos, 5nat,
{
    if level_op(inp, pos, term_ops()) {
        let op = inp.toks[pos as int];
        match parse_factor_spec(inp, pos + 1) {
            ParseOut::Fail { error } => ParseOut::Fail { error },
            ParseOut::Done { value, next } => {
                let combined = ExprModel::Binary {
                    left: Box::new(left),
                    operator: op,
                    right: Box::new(value),
                };
                if pos < next <= inp.toks.len() {
                    parse_term_rest_spec(inp, combined, next)
                } else {
                    ParseOut::Done { value: combined, next }
                }
            },
        }
    } else {
        ParseOut::Done { value: left, next: pos }
    }
}

/// `term`: factors folded under `+` and `-`.
pub open spec fn parse_term_spec(inp: ParseInput, pos: nat) -> ParseOut<ExprModel>
    decreases inp.toks.len() - pos, 6nat,
{
    match parse_factor_spec(inp, pos) {
        ParseOut::Fail { error } => ParseOut::Fail { error },
        ParseOut::Done { value, next } => {
            if pos < next <= inp.toks.len() {
                parse_term_rest_spec(inp, value, next)
            } else {
                ParseOut::Done { value, next }
            }
        },
    }
}

/// Folds further relational operands onto `left`, left-associatively.
pub open spec fn parse_comparison_rest_spec(inp: ParseInput, left: ExprModel, pos: nat) -> ParseOut<
    ExprModel,
>
    decreases inp.toks.len() - pos, 7nat,
{
    if level_op(inp, pos, comparison_ops()) {
        let op = inp.toks[pos as int];
        match parse_term_spec(inp, pos + 1) {
            ParseOut::Fail { error } => ParseOut::Fail { error },
            ParseOut::Done { value, next } => {
                let combined = ExprModel::Binary {
                    left: Box::new(left),
                    operator: op,
                    right: Box::new(value),
                };
                if pos < next <= inp.toks.len() {
                    parse_comparison_rest_spec(inp, combined, next)
                } else {
                    ParseOut::Done { value: combined, next }
                }
            },
        }
    } else {
        ParseOut::Done { value: left, next: pos }
    }
}

/// `comparison`: terms folded under `>`, `>=`, `<` and `<=`.
pub open spec fn parse_comparison_spec(inp: ParseInput, pos: nat) -> ParseOut<ExprModel>
    decreases inp.toks.len() - pos, 8nat,
{
    match parse_term_spec(inp, pos) {
        ParseOut::Fail { error } => ParseOut::Fail { error },
        ParseOut::Done { value, next } => {
            if pos < next <= inp.toks.len() {
                parse_comparison_rest_spec(inp, value, next)
            } else {
                ParseOut::Done { value, next }
            }
        },
    }
}

/// Folds further equality operands onto `left`, left-associatively.
pub open spec fn parse_equality_rest_spec(inp: ParseInput, left: ExprModel, pos: nat) -> ParseOut<
    ExprModel,
>
    decreases inp.toks.len() - pos, 9nat,
{
    if level_op(inp, pos, equality_ops()) {
        let op = inp.toks[pos as int];
        match parse_comparison_spec(inp, pos + 1) {
            ParseOut::Fail { error } => ParseOut::Fail { error },
            ParseOut::Done { value, next } => {
                let combined = ExprModel::Binary {
                    left: Box::new(left),
                    operator: op,
                    right: Box::new(value),
                };
                if pos < next <= inp.toks.len() {
                    parse_equality_rest_spec(inp, combined, next)
                } else {
                    ParseOut::Done { value: combined, next }
                }
            },
        }
    } else {
        ParseOut::Done { value: left, next: pos }
    }
}

/// `equality`: comparisons folded under `!=` and `==`.
pub open spec fn parse_equality_spec(inp: ParseInput, pos: nat) -> ParseOut<ExprModel>
    decreases inp.toks.len() - pos, 10nat,
{
    match parse_comparison_spec(inp, pos) {
        ParseOut::Fail { error } => ParseOut::Fail { error },
        ParseOut::Done { value, next } => {
            if pos < next <= inp.toks.len() {
                parse_equality_rest_spec(inp, value, next)
            } else {
                ParseOut::Done { value, next }
            }
        },
    }
}

/// `expression`: the lowest-precedence level.
pub open spec fn parse_expression_spec(inp: ParseInput, pos: nat) -> ParseOut<ExprModel>
    decreases inp.toks.len() - pos, 11nat,
{
    parse_equality_spec(inp, pos)
}

/// Expects a `;` at `next` and wraps the parsed expression into the given
/// statement on success.
pub open spec fn expect_semicolon(
    inp: ParseInput,
    stmt: StmtModel,
    next: nat,
    message: Seq<char>,
) -> ParseOut<StmtModel> {
    if next < inp.toks.len() && inp.toks[next as int].token_type == TokenType::Semicolon {
        ParseOut::Done { value: stmt, next: next + 1 }
    } else {
        ParseOut::Fail { error: missing_token_error(inp.toks, next, message) }
    }
}

/// `statement`: a `print` statement, a `var` declaration, or an expression
/// statement.
pub open spec fn parse_statement_spec(inp: ParseInput, pos: nat) -> ParseOut<StmtModel>
    decreases inp.toks.len() - pos, 12nat,
{
    if pos < inp.toks.len() && inp.toks[pos as int].token_type == TokenType::Keyword(
        KeywordType::Print,
    ) {
        match parse_expression_spec(inp, pos + 1) {
            ParseOut::Fail { error } => ParseOut::Fail { error },
            ParseOut::Done { value, next } => expect_semicolon(
                inp,
                StmtModel::Print { expression: value },
                next,
                "Expect ';' after value."@,
            ),
        }
    } else if pos < inp.toks.len() && inp.toks[pos as int].token_type == TokenType::Keyword(
        KeywordType::Var,
    ) {
        if pos + 1 < inp.toks.len() && inp.toks[pos as int + 1].token_type
            == TokenType::Identifier {
            let name = inp.toks[pos as int + 1];
            if pos + 2 < inp.toks.len() && inp.toks[pos as int + 2].token_type
                == TokenType::Equal {
                match parse_expression_spec(inp, pos + 3) {
                    ParseOut::Fail { error } => ParseOut::Fail { error },
                    ParseOut::Done { value, next } => expect_semicolon(
                        inp,
                        StmtModel::Var { name, initializer: Some(value) },
                        next,
                        "Expect ';' after variable declaration."@,
                    ),
                }
            } else {
                expect_semicolon(
                    inp,
                    StmtModel::Var { name, initializer: None },
                    pos + 2,
                    "Expect ';' after variable declaration."@,
                )
            }
        } else {
            ParseOut::Fail {
                error: missing_token_error(inp.toks, pos + 1, "Expect variable name."@),
            }
        }
    } else {
        match parse_expression_spec(inp, pos) {
            ParseOut::Fail { error } => ParseOut::Fail { error },
            ParseOut::Done { value, next } => expect_semicolon(
                inp,
                StmtModel::Expression { expression: value },
                next,
                "Expect ';' after expression"@,
            ),
        }
    }
}

/// `program`: statements until the end of the token sequence, stopping at
/// the first syntax error.
pub open spec fn parse_program_spec(inp: ParseInput, pos: nat) -> ParseOut<Seq<StmtModel>>
    decreases inp.toks.len() - pos, 13nat,
{
    if pos >= inp.toks.len() {
        ParseOut::Done { value: Seq::empty(), next: pos }
    } else {
        match parse_statement_spec(inp, pos) {
            ParseOut::Fail { error } => ParseOut::Fail { error },
            ParseOut::Done { value, next } => {
                if pos < next <= inp.toks.len() {
                    match parse_program_spec(inp, next) {
                        ParseOut::Fail { error } => ParseOut::Fail { error },
                        ParseOut::Done { value: rest, next: end } => ParseOut::Done {
                            value: seq![value] + rest,
                            next: end,
                        },
                    }
                } else {
                    ParseOut::Done { value: seq![value], next }
                }
            },
        }
    }
}

/// Where `synchronize` stops, scanning forward from `pos`: at the next `;`
/// or `return` keyword, or at the end of the tokens.
pub open spec fn synchronize_target(toks: Seq<Token>, pos: nat) -> nat
    decreases toks.len() - pos,
{
    if pos >= toks.len() {
        toks.len()
    } else if toks[pos as int].token_type == TokenType::Semicolon || toks[pos as int].token_type
        == TokenType::Keyword(KeywordType::Return) {
        pos
    } else {
        synchronize_target(toks, pos + 1)
    }
}

/// The recursive-descent parser: the tokens, the source they came from, the
/// number-value table, and the current position.
pub struct Parser<'a> {
    source: &'a Vec<u8>,
    tokens: Vec<Token>,
    current: usize,
    num_values: Vec<u64>,
    nums_used: usize,
}

impl<'a> Parser<'a> {
    /// The inputs this parser walks.
    pub closed spec fn inp(self) -> ParseInput {
        ParseInput { src: self.source@, toks: self.tokens@, nums: self.num_values@ }
    }

    /// The current token position.
    pub closed spec fn pos(self) -> nat {
        self.current as nat
    }

    /// The position stays within the tokens, the count of consumed `Number`
    /// tokens is tracked exactly, and the inputs fit together.
    pub closed spec fn wf(self) -> bool {
        self.current <= self.tokens@.len() && self.nums_used as int == count_numbers(
            self.tokens@,
            self.current as int,
        ) && self.inp().wf()
    }

    /// A fresh parser over the given inputs. `num_values` holds the value of
    /// each `Number` token, in token order; the scanner's tokens always
    /// satisfy `tokens_wf`.
    pub fn new(source: &'a Vec<u8>, tokens: Vec<Token>, num_values: Vec<u64>) -> (p: Parser<'a>)
        requires
            tokens_wf(source@, tokens@),
            count_numbers(tokens@, tokens@.len() as int) <= num_values@.len(),
        ensures
            p.wf(),
            p.inp() == (ParseInput { src: source@, toks: tokens@, nums: num_values@ }),
            p.pos() == 0,
    {
        Parser { source, tokens, current: 0, num_values, nums_used: 0 }
    }

    /// True when every token has been consumed.
    pub fn is_at_end(&self) -> (r: bool)
        ensures
            r == (self.pos() >= self.inp().toks.len()),
    {
        self.current >= self.tokens.len()
    }

    /// The token at the current position.
    fn peek(&self) -> (t: Token)
        requires
            self.pos() < self.inp().toks.len(),
        ensures
            t == self.inp().toks[self.pos() as int],
    {
        self.tokens[self.current]
    }

    /// The token just consumed.
    fn previous(&self) -> (t: Token)
        requires
            1 <= self.pos() <= self.inp().toks.len(),
        ensures
            t == self.inp().toks[self.pos() - 1],
    {
        self.tokens[self.current - 1]
    }

    /// True when the current token has the given category.
    fn check(&self, token_type: TokenType) -> (r: bool)
        ensures
            r == (self.pos() < self.inp().toks.len() && self.inp().toks[self.pos() as int].token_type
                == token_type),
    {
        if self.is_at_end() {
            false
        } else {
            let t = self.peek();
            t.token_type == token_type
        }
    }

    /// Consumes and returns the current token.
    fn advance(&mut self) -> (t: Token)
        requires
            old(self).wf(),
            old(self).pos() < old(self).inp().toks.len(),
        ensures
            final(self).wf(),
            final(self).inp() == old(self).inp(),
            final(self).pos() == old(self).pos() + 1,
            t == old(self).inp().toks[old(self).pos() as int],
    {
        let n = self.tokens.len();
        let t = self.tokens[self.current];
        proof {
            lemma_count_numbers_bounds(self.tokens@, self.current as int);
        }
        match t.token_type {
            TokenType::Number => {
                self.nums_used = self.nums_used + 1;
            },
            _ => (),
        }
        self.current = self.current + 1;
        t
    }

    /// When the current token's category is in the list, consumes it and
    /// returns it; otherwise consumes nothing.
    fn is_match(&mut self, token_types: &Vec<TokenType>) -> (r: Option<Token>)
        requires
            old(self).wf(),
        ensures
            final(self).wf(),
            final(self).inp() == old(self).inp(),
            ({
                let matched = old(self).pos() < old(self).inp().toks.len()
                    && token_types@.contains(
                    old(self).inp().toks[old(self).pos() as int].token_type,
                );
                if matched {
                    r == Some(old(self).inp().toks[old(self).pos() as int]) && final(self).pos()
                        == old(self).pos() + 1
                } else {
                    r == None::<Token> && final(self).pos() == old(self).pos()
                }
            }),
    {
        let mut i: usize = 0;
        while i < token_types.len()
            invariant
                self == old(self),
                i <= token_types@.len(),
                self.wf(),
                forall|j: int|
                    0 <= j < i ==> !(self.pos() < self.inp().toks.len()
                        && self.inp().toks[self.pos() as int].token_type == token_types@[j]),
            decreases token_types@.len() - i,
        {
            if self.check(token_types[i]) {
                let t = self.advance();
                return Some(t);
            }
            i = i + 1;
        }
        None
    }

    /// Consumes the current token when it has the expected category;
    /// otherwise reports the given message at the token just consumed.
    fn consume(&mut self, token_type: TokenType, message: &str) -> (r: Result<Token, LoxError>)
        requires
            old(self).wf(),
        ensures
            final(self).wf(),
            final(self).inp() == old(self).inp(),
            ({
                if old(self).pos() < old(self).inp().toks.len() && old(self).inp().toks[old(
                    self,
                ).pos() as int].token_type == token_type {
                    r matches Ok(t) && (r matches Ok(t) ==> t == old(self).inp().toks[old(
                        self,
                    ).pos() as int]) && final(self).pos() == old(self).pos() + 1
                } else {
                    r matches Err(e) && (r matches Err(e) ==> e@ == missing_token_error(
                        old(self).inp().toks,
                        old(self).pos(),
                        message@,
                    )) && final(self).pos() == old(self).pos()
                }
            }),
    {
        if self.check(token_type) {
            Ok(self.advance())
        } else {
            let span = if self.current >= 1 && self.current <= self.tokens.len() {
                self.tokens[self.current - 1].span
            } else if self.current < self.tokens.len() {
                self.tokens[self.current].span
            } else if self.tokens.len() > 0 {
                self.tokens[self.tokens.len() - 1].span
            } else {
                Span { start: 0, end: 0 }
            };
            Err(LoxError::error(span, message, ErrorType::ParseError))
        }
    }

    /// Skips forward to the next statement boundary: just past nothing, up
    /// to the next `;` or `return` keyword. A caller that wants to keep
    /// parsing after a syntax error can resume there.
    pub fn synchronize(&mut self)
        requires
            old(self).wf(),
        ensures
            final(self).wf(),
            final(self).inp() == old(self).inp(),
            final(self).pos() == synchronize_target(
                old(self).inp().toks,
                if old(self).pos() + 1 <= old(self).inp().toks.len() {
                    old(self).pos() + 1
                } else {
                    old(self).inp().toks.len()
                },
            ),
    {
        if self.current < self.tokens.len() {
            self.advance();
        }
        while !self.is_at_end()
            invariant
                self.wf(),
                self.inp() == old(self).inp(),
                synchronize_target(self.inp().toks, self.pos()) == synchronize_target(
                    old(self).inp().toks,
                    if old(self).pos() + 1 <= old(self).inp().toks.len() {
                        old(self).pos() + 1
                    } else {
                        old(self).inp().toks.len()
                    },
                ),
            decreases self.inp().toks.len() - self.pos(),
        {
            let t = self.peek();
            if t.token_type == TokenType::Semicolon {
                return ;
            }
            match t.token_type {
                TokenType::Keyword(KeywordType::Return) => {
                    return ;
                },
                _ => (),
            }
            self.advance();
        }
    }

    /// Parses `primary`.
    fn primary(&mut self) -> (r: Result<Expr, LoxError>)
        requires
            old(self).wf(),
        ensures
            final(self).wf(),
            final(self).inp() == old(self).inp(),
            match parse_primary_spec(old(self).inp(), old(self).pos()) {
                ParseOut::Done { value, next } => r matches Ok(e) && (r matches Ok(e) ==> e@
                    == value) && final(self).pos() == next && old(self).pos() < next,
                ParseOut::Fail { error } => r matches Err(e) && (r matches Err(e) ==> e@ == error),
            },
        decreases old(self).inp().toks.len() - old(self).pos(), 0nat,
    {
        if self.is_at_end() {
            let span = if self.tokens.len() > 0 {
                self.tokens[self.tokens.len() - 1].span
            } else {
                Span { start: 0, end: 0 }
            };
            return Err(LoxError::error(span, "Expected expression", ErrorType::ParseError));
        }
        let tok = self.peek();
        match tok.token_type {
            TokenType::Keyword(KeywordType::False) => {
                self.advance();
                Ok(Expr::Literal(LiteralExpr { value: Object::Bool(false), span: tok.span }))
            },
            TokenType::Keyword(KeywordType::True) => {
                self.advance();
                Ok(Expr::Literal(LiteralExpr { value: Object::Bool(true), span: tok.span }))
            },
            TokenType::Keyword(KeywordType::Nil) => {
                self.advance();
                Ok(Expr::Literal(LiteralExpr { value: Object::Nil, span: tok.span }))
            },
            TokenType::StringLiteral => {
                // Cut out the quotes.
                let text = copy_range(self.source, tok.span.start + 1, tok.span.end - 1);
                self.advance();
                Ok(Expr::Literal(LiteralExpr { value: Object::Str(text), span: tok.span }))
            },
            TokenType::Number => {
                proof {
                    lemma_count_numbers_bounds(self.tokens@, self.current as int);
                    lemma_count_numbers_monotonic(
                        self.tokens@,
                        self.current as int + 1,
                        self.tokens@.len() as int,
                    );
                }
                let value = self.num_values[self.nums_used];
                self.advance();
                Ok(Expr::Literal(LiteralExpr { value: Object::Num(value), span: tok.span }))
            },
            TokenType::Identifier => {
                self.advance();
                Ok(Expr::Variable(VariableExpr { name: tok }))
            },
            TokenType::LeftParen => {
                self.advance();
                let expr = self.expression()?;
                self.consume(TokenType::RightParen, "Expect ')' after expression")?;
                Ok(Expr::Grouping(GroupingExpr { expression: Box::new(expr) }))
            },
            _ => {
                Err(LoxError::error(tok.span, "Expected expression", ErrorType::ParseError))
            },
        }
    }

    /// Parses `unary`.
    fn unary(&mut self) -> (r: Result<Expr, LoxError>)
        requires
            old(self).wf(),
        ensures
            final(self).wf(),
            final(self).inp() == old(self).inp(),
            match parse_unary_spec(old(self).inp(), old(self).pos()) {
                ParseOut::Done { value, next } => r matches Ok(e) && (r matches Ok(e) ==> e@
                    == value) && final(self).pos() == next && old(self).pos() < next,
                ParseOut::Fail { error } => r matches Err(e) && (r matches Err(e) ==> e@ == error),
            },
        decreases old(self).inp().toks.len() - old(self).pos(), 1nat,
    {
        let ops = vec![TokenType::Bang, TokenType::Minus];
        if let Some(operator) = self.is_match(&ops) {
            let right = self.unary()?;
            return Ok(Expr::Unary(UnaryExpr { operator, right: Box::new(right) }));
        }
        self.primary()
    }

    /// Parses `factor`.
    fn factor(&mut self) -> (r: Result<Expr, LoxError>)
        requires
            old(self).wf(),
        ensures
            final(self).wf(),
            final(self).inp() == old(self).inp(),
            match parse_factor_spec(old(self).inp(), old(self).pos()) {
                ParseOut::Done { value, next } => r matches Ok(e) && (r matches Ok(e) ==> e@
                    == value) && final(self).pos() == next && old(self).pos() < next,
                ParseOut::Fail { error } => r matches Err(e) && (r matches Err(e) ==> e@ == error),
            },
        decreases old(self).inp().toks.len() - old(self).pos(), 4nat,
    {
        let mut expr = self.unary()?;
        let ops = vec![TokenType::Slash, TokenType::Star];
        loop
            invariant
                self.wf(),
                self.inp() == old(self).inp(),
                old(self).pos() < self.pos() <= self.inp().toks.len(),
                ops@ == factor_ops(),
                parse_factor_rest_spec(self.inp(), expr@, self.pos()) == parse_factor_spec(
                    old(self).inp(),
                    old(self).pos(),
                ),
            decreases self.inp().toks.len() - self.pos(),
        {
            if let Some(operator) = self.is_match(&ops) {
                let right = self.unary()?;
                expr = Expr::Binary(
                    BinaryExpr {
                        left: Box::new(expr),
                        operator,
                        right: Box::new(right),
                    },
                );
            } else {
                return Ok(expr);
            }
        }
    }

    /// Parses `term`.
    fn term(&mut self) -> (r: Result<Expr, LoxError>)
        requires
            old(self).wf(),
        ensures
            final(self).wf(),
            final(self).inp() == old(self).inp(),
            match parse_term_spec(old(self).inp(), old(self).pos()) {
                ParseOut::Done { value, next } => r matches Ok(e) && (r matches Ok(e) ==> e@
                    == value) && final(self).pos() == next && old(self).pos() < next,
                ParseOut::Fail { error } => r matches Err(e) && (r matches Err(e) ==> e@ == error),
            },
        decreases old(self).inp().toks.len() - old(self).pos(), 6nat,
    {
        let mut expr = self.factor()?;
        let ops = vec![TokenType::Plus, TokenType::Minus];
        loop
            invariant
                self.wf(),
                self.inp() == old(self).inp(),
                old(self).pos() < self.pos() <= self.inp().toks.len(),
                ops@ == term_ops(),
                parse_term_rest_spec(self.inp(), expr@, self.pos()) == parse_term_spec(
                    old(self).inp(),
                    old(self).pos(),
                ),
            decreases self.inp().toks.len() - self.pos(),
        {
            if let Some(operator) = self.is_match(&ops) {
                let right = self.factor()?;
                expr = Expr::Binary(
                    BinaryExpr {
                        left: Box::new(expr),
                        operator,
                        right: Box::new(right),
                    },
                );
            } else {
                return Ok(expr);
            }
        }
    }

    /// Parses `comparison`.
    fn comparison(&mut self) -> (r: Result<Expr, LoxError>)
        requires
            old(self).wf(),
        ensures
            final(self).wf(),
            final(self).inp() == old(self).inp(),
            match parse_comparison_spec(old(self).inp(), old(self).pos()) {
                ParseOut::Done { value, next } => r matches Ok(e) && (r matches Ok(e) ==> e@
                    == value) && final(self).pos() == next && old(self).pos() < next,
                ParseOut::Fail { error } => r matches Err(e) && (r matches Err(e) ==> e@ == error),
            },
        decreases old(self).inp().toks.len() - old(self).pos(), 8nat,
    {
        let mut expr = self.term()?;
        let ops = vec![
            TokenType::Greater,
            TokenType::GreaterEqual,
            TokenType::Less,
            TokenType::LessEqual,
        ];
        loop
            invariant
                self.wf(),
                self.inp() == old(self).inp(),
                old(self).pos() < self.pos() <= self.inp().toks.len(),
                ops@ == comparison_ops(),
                parse_comparison_rest_spec(self.inp(), expr@, self.pos()) == parse_comparison_spec(
                    old(self).inp(),
                    old(self).pos(),
                ),
            decreases self.inp().toks.len() - self.pos(),
        {
            if let Some(operator) = self.is_match(&ops) {
                let right = self.term()?;
                expr = Expr::Binary(
                    BinaryExpr {
                        left: Box::new(expr),
                        operator,
                        right: Box::new(right),
                    },
                );
            } else {
                return Ok(expr);
            }
        }
    }

    /// Parses `equality`.
    fn equality(&mut self) -> (r: Result<Expr, LoxError>)
        requires
            old(self).wf(),
        ensures
            final(self).wf(),
            final(self).inp() == old(self).inp(),
            match parse_equality_spec(old(self).inp(), old(self).pos()) {
                ParseOut::Done { value, next } => r matches Ok(e) && (r matches Ok(e) ==> e@
                    == value) && final(self).pos() == next && old(self).pos() < next,
                ParseOut::Fail { error } => r matches Err(e) && (r matches Err(e) ==> e@ == error),
            },
        decreases old(self).inp().toks.len() - old(self).pos(), 10nat,
    {
        let mut expr = self.comparison()?;
        let ops = vec![TokenType::BangEqual, TokenType::EqualEqual];
        loop
            invariant
                self.wf(),
                self.inp() == old(self).inp(),
                old(self).pos() < self.pos() <= self.inp().toks.len(),
                ops@ == equality_ops(),
                parse_equality_rest_spec(self.inp(), expr@, self.pos()) == parse_equality_spec(
                    old(self).inp(),
                    old(self).pos(),
                ),
            decreases self.inp().toks.len() - self.pos(),
        {
            if let Some(operator) = self.is_match(&ops) {
                let right = self.comparison()?;
                expr = Expr::Binary(
                    BinaryExpr {
                        left: Box::new(expr),
                        operator,
                        right: Box::new(right),
                    },
                );
            } else {
                return Ok(expr);
            }
        }
    }

    /// Parses `expression`.
    fn expression(&mut self) -> (r: Result<Expr, LoxError>)
        requires
            old(self).wf(),
        ensures
            final(self).wf(),
            final(self).inp() == old(self).inp(),
            match parse_expression_spec(old(self).inp(), old(self).pos()) {
                ParseOut::Done { value, next } => r matches Ok(e) && (r matches Ok(e) ==> e@
                    == value) && final(self).pos() == next && old(self).pos() < next,
                ParseOut::Fail { error } => r matches Err(e) && (r matches Err(e) ==> e@ == error),
            },
        decreases old(self).inp().toks.len() - old(self).pos(), 11nat,
    {
        self.equality()
    }

    /// Parses one statement.
    #[verifier::rlimit(100)]
    #[verifier::spinoff_prover]
    fn statement(&mut self) -> (r: Result<Stmt, LoxError>)
        requires
            old(self).wf(),
        ensures
            final(self).wf(),
            final(self).inp() == old(self).inp(),
            match parse_statement_spec(old(self).inp(), old(self).pos()) {
                ParseOut::Done { value, next } => r matches Ok(s) && (r matches Ok(s) ==> s@
                    == value) && final(self).pos() == next && old(self).pos() < next,
                ParseOut::Fail { error } => r matches Err(e) && (r matches Err(e) ==> e@ == error),
            },
        decreases old(self).inp().toks.len() - old(self).pos(), 12nat,
    {
        let print_kw = vec![TokenType::Keyword(KeywordType::Print)];
        if let Some(_) = self.is_match(&print_kw) {
            return self.print_statement();
        }
        let var_kw = vec![TokenType::Keyword(KeywordType::Var)];
        if let Some(_) = self.is_match(&var_kw) {
            return self.var_declaration();
        }
        self.expression_statement()
    }

    /// Parses the rest of a `print` statement, the keyword already consumed.
    fn print_statement(&mut self) -> (r: Result<Stmt, LoxError>)
        requires
            old(self).wf(),
            old(self).pos() >= 1,
        ensures
            final(self).wf(),
            final(self).inp() == old(self).inp(),
            match (match parse_expression_spec(old(self).inp(), old(self).pos()) {
                ParseOut::Fail { error } => ParseOut::Fail { error },
                ParseOut::Done { value, next } => expect_semicolon(
                    old(self).inp(),
                    StmtModel::Print { expression: value },
                    next,
                    "Expect ';' after value."@,
                ),
            }) {
                ParseOut::Done { value, next } => r matches Ok(s) && (r matches Ok(s) ==> s@
                    == value) && final(self).pos() == next && old(self).pos() < next,
                ParseOut::Fail { error } => r matches Err(e) && (r matches Err(e) ==> e@ == error),
            },
        decreases old(self).inp().toks.len() - old(self).pos(), 12nat,
    {
        let value = self.expression()?;
        self.consume(TokenType::Semicolon, "Expect ';' after value.")?;
        Ok(Stmt::Print(PrintStmt { expression: value }))
    }

    /// Parses the rest of a `var` declaration, the keyword already consumed.
    /// The initializer may be absent in the tree; using it is what fails,
    /// at run time.
    fn var_declaration(&mut self) -> (r: Result<Stmt, LoxError>)
        requires
            old(self).wf(),
            old(self).pos() >= 1,
        ensures
            final(self).wf(),
            final(self).inp() == old(self).inp(),
            match (if old(self).pos() < old(self).inp().toks.len() && old(self).inp().toks[old(
                self,
            ).pos() as int].token_type == TokenType::Identifier {
                let name = old(self).inp().toks[old(self).pos() as int];
                if old(self).pos() + 1 < old(self).inp().toks.len() && old(self).inp().toks[old(
                    self,
                ).pos() as int + 1].token_type == TokenType::Equal {
                    match parse_expression_spec(old(self).inp(), old(self).pos() + 2) {
                        ParseOut::Fail { error } => ParseOut::Fail { error },
                        ParseOut::Done { value, next } => expect_semicolon(
                            old(self).inp(),
                            StmtModel::Var { name, initializer: Some(value) },
                            next,
                            "Expect ';' after variable declaration."@,
                        ),
                    }
                } else {
                    expect_semicolon(
                        old(self).inp(),
                        StmtModel::Var { name, initializer: None },
                        old(self).pos() + 1,
                        "Expect ';' after variable declaration."@,
                    )
                }
            } else {
                ParseOut::Fail {
                    error: missing_token_error(
                        old(self).inp().toks,
                        old(self).pos(),
                        "Expect variable name."@,
                    ),
                }
            }) {
                ParseOut::Done { value, next } => r matches Ok(s) && (r matches Ok(s) ==> s@
                    == value) && final(self).pos() == next && old(self).pos() < next,
                ParseOut::Fail { error } => r matches Err(e) && (r matches Err(e) ==> e@ == error),
            },
        decreases old(self).inp().toks.len() - old(self).pos(), 12nat,
    {
        let name = self.consume(TokenType::Identifier, "Expect variable name.")?;
        let equal = vec![TokenType::Equal];
        let initializer = if let Some(_) = self.is_match(&equal) {
            Some(self.expression()?)
        } else {
            None
        };
        self.consume(TokenType::Semicolon, "Expect ';' after variable declaration.")?;
        Ok(Stmt::Var(VarStmt { name, initializer }))
    }

    /// Parses the rest of an expression statement.
    fn expression_statement(&mut self) -> (r: Result<Stmt, LoxError>)
        requires
            old(self).wf(),
        ensures
            final(self).wf(),
            final(self).inp() == old(self).inp(),
            match (match parse_expression_spec(old(self).inp(), old(self).pos()) {
                ParseOut::Fail { error } => ParseOut::Fail { error },
                ParseOut::Done { value, next } => expect_semicolon(
                    old(self).inp(),
                    StmtModel::Expression { expression: value },
                    next,
                    "Expect ';' after expression"@,
                ),
            }) {
                ParseOut::Done { value, next } => r matches Ok(s) && (r matches Ok(s) ==> s@
                    == value) && final(self).pos() == next && old(self).pos() < next,
                ParseOut::Fail { error } => r matches Err(e) && (r matches Err(e) ==> e@ == error),
            },
        decreases old(self).inp().toks.len() - old(self).pos(), 12nat,
    {
        let expr = self.expression()?;
        self.consume(TokenType::Semicolon, "Expect ';' after expression")?;
        Ok(Stmt::Expression(ExpressionStmt { expression: expr }))
    }

    /// Parses the whole program: statements until the end of the tokens,
    /// stopping at the first syntax error.
    #[verifier::rlimit(100)]
    #[verifier::spinoff_prover]
    pub fn parse(&mut self) -> (r: Result<Vec<Stmt>, LoxError>)
        requires
            old(self).wf(),
        ensures
            final(self).wf(),
            final(self).inp() == old(self).inp(),
            match parse_program_spec(old(self).inp(), old(self).pos()) {
                ParseOut::Done { value, next } => r matches Ok(stmts) && (r matches Ok(stmts)
                    ==> stmts@.map_values(|s: Stmt| s@) == value) && final(self).pos() == next,
                ParseOut::Fail { error } => r matches Err(e) && (r matches Err(e) ==> e@ == error),
            },
    {
        let ghost inp = old(self).inp();
        let ghost whole = parse_program_spec(inp, old(self).pos());
        let mut statements: Vec<Stmt> = Vec::new();
        proof {
            assert(statements@.map_values(|s: Stmt| s@) =~= Seq::<StmtModel>::empty());
            match parse_program_spec(inp, old(self).pos()) {
                ParseOut::Done { value, next } => {
                    assert(Seq::<StmtModel>::empty() + value =~= value);
                },
                ParseOut::Fail { .. } => {},
            }
        }
        while !self.is_at_end()
            invariant
                self.wf(),
                self.inp() == inp,
                inp == old(self).inp(),
                whole == parse_program_spec(old(self).inp(), old(self).pos()),
                program_rel(inp, self.pos(), statements@.map_values(|s: Stmt| s@), whole),
            decreases self.inp().toks.len() - self.pos(),
        {
            let ghost pre_pos = self.pos();
            let ghost done_pre = statements@.map_values(|s: Stmt| s@);
            let stmt = match self.statement() {
                Ok(s) => s,
                Err(e) => {
                    return Err(e);
                },
            };
            statements.push(stmt);
            proof {
                assert(statements@.map_values(|s: Stmt| s@) =~= done_pre.push(stmt@));
                lemma_program_rel_step(inp, pre_pos, done_pre, whole, stmt@, self.pos());
            }
        }
        proof {
            let done = statements@.map_values(|s: Stmt| s@);
            assert(parse_program_spec(inp, self.pos()) == ParseOut::Done::<Seq<StmtModel>> {
                value: Seq::empty(),
                next: self.pos(),
            });
            assert(done + Seq::<StmtModel>::empty() =~= done);
        }
        Ok(statements)
    }
}

/// While statements are being parsed one at a time, the whole program's
/// parse equals the statements already built followed by the parse of the
/// rest.
pub open spec fn program_rel(
    inp: ParseInput,
    pos: nat,
    done: Seq<StmtModel>,
    whole: ParseOut<Seq<StmtModel>>,
) -> bool {
    match parse_program_spec(inp, pos) {
        ParseOut::Done { value, next } => whole == ParseOut::Done::<Seq<StmtModel>> {
            value: done + value,
            next,
        },
        ParseOut::Fail { error } => whole == ParseOut::Fail::<Seq<StmtModel>> { error },
    }
}

/// Consuming one successfully parsed statement keeps the relation between
/// the statements built so far and the whole program's parse.
pub proof fn lemma_program_rel_step(
    inp: ParseInput,
    pos: nat,
    done: Seq<StmtModel>,
    whole: ParseOut<Seq<StmtModel>>,
    s: StmtModel,
    next: nat,
)
    requires
        program_rel(inp, pos, done, whole),
        pos < inp.toks.len(),
        parse_statement_spec(inp, pos) == (ParseOut::Done::<StmtModel> { value: s, next }),
        pos < next <= inp.toks.len(),
    ensures
        program_rel(inp, next, done.push(s), whole),
{
    match parse_program_spec(inp, next) {
        ParseOut::Done { value, next: end } => {
            assert(parse_program_spec(inp, pos) == ParseOut::Done::<Seq<StmtModel>> {
                value: seq![s] + value,
                next: end,
            });
            assert(done + (seq![s] + value) =~= done.push(s) + value);
        },
        ParseOut::Fail { error } => {
            assert(parse_program_spec(inp, pos) == ParseOut::Fail::<Seq<StmtModel>> { error });
        },
    }
}

/// What the parser builds is well-formed: every operator token it puts into
/// a tree is one the evaluator understands, and every span lies within the
/// source the tokens came from.
#[verifier::rlimit(100)]
#[verifier::spinoff_prover]
pub proof fn lemma_primary_wf(inp: ParseInput, pos: nat)
    requires
        inp.wf(),
    ensures
        match parse_primary_spec(inp, pos) {
            ParseOut::Done { value, next } => wf_expr(value, inp.src.len()),
            ParseOut::Fail { .. } => true,
        },
    decreases inp.toks.len() - pos, 0nat,
{
    if pos < inp.toks.len() {
        assert(inp.toks[pos as int].span.wf(inp.src.len()));
        match inp.toks[pos as int].token_type {
            TokenType::LeftParen => {
                lemma_expression_wf(inp, pos + 1);
            },
            _ => {},
        }
    }
}

#[verifier::rlimit(100)]
#[verifier::spinoff_prover]
pub proof fn lemma_unary_wf(inp: ParseInput, pos: nat)
    requires
        inp.wf(),
    ensures
        match parse_unary_spec(inp, pos) {
            ParseOut::Done { value, next } => wf_expr(value, inp.src.len()),
            ParseOut::Fail { .. } => true,
        },
    decreases inp.toks.len() - pos, 1nat,
{
    if pos < inp.toks.len() && (inp.toks[pos as int].token_type == TokenType::Bang
        || inp.toks[pos as int].token_type == TokenType::Minus) {
        assert(inp.toks[pos as int].span.wf(inp.src.len()));
        lemma_unary_wf(inp, pos + 1);
    } else {
        lemma_primary_wf(inp, pos);
    }
}

#[verifier::rlimit(100)]
#[verifier::spinoff_prover]
pub proof fn lemma_factor_rest_wf(inp: ParseInput, left: ExprModel, pos: nat)
    requires
        inp.wf(),
        wf_expr(left, inp.src.len()),
    ensures
        match parse_factor_rest_spec(inp, left, pos) {
            ParseOut::Done { value, next } => wf_expr(value, inp.src.len()),
            ParseOut::Fail { .. } => true,
        },
    decreases inp.toks.len() - pos, 3nat,
{
    if level_op(inp, pos, factor_ops()) {
        assert(inp.toks[pos as int].span.wf(inp.src.len()));
        lemma_unary_wf(inp, pos + 1);
        match parse_unary_spec(inp, pos + 1) {
            ParseOut::Done { value, next } => {
                let combined = ExprModel::Binary {
                    left: Box::new(left),
                    operator: inp.toks[pos as int],
                    right: Box::new(value),
                };
                if pos < next <= inp.toks.len() {
                    lemma_factor_rest_wf(inp, combined, next);
                }
            },
            ParseOut::Fail { .. } => {},
        }
    }
}

#[verifier::rlimit(100)]
#[verifier::spinoff_prover]
pub proof fn lemma_factor_wf(inp: ParseInput, pos: nat)
    requires
        inp.wf(),
    ensures
        match parse_factor_spec(inp, pos) {
            ParseOut::Done { value, next } => wf_expr(value, inp.src.len()),
            ParseOut::Fail { .. } => true,
        },
    decreases inp.toks.len() - pos, 4nat,
{
    lemma_unary_wf(inp, pos);
    match parse_unary_spec(inp, pos) {
        ParseOut::Done { value, next } => {
            if pos < next <= inp.toks.len() {
                lemma_factor_rest_wf(inp, value, next);
            }
        },
        ParseOut::Fail { .. } => {},
    }
}

#[verifier::rlimit(100)]
#[verifier::spinoff_prover]
pub proof fn lemma_term_rest_wf(inp: ParseInput, left: ExprModel, pos: nat)
    requires
        inp.wf(),
        wf_expr(left, inp.src.len()),
    ensures
        match parse_term_rest_spec(inp, left, pos) {
            ParseOut::Done { value, next } => wf_expr(value, inp.src.len()),
            ParseOut::Fail { .. } => true,
        },
    decreases inp.toks.len() - pos, 5nat,
{
    if level_op(inp, pos, term_ops()) {
        assert(inp.toks[pos as int].span.wf(inp.src.len()));
        lemma_factor_wf(inp, pos + 1);
        match parse_factor_spec(inp, pos + 1) {
            ParseOut::Done { value, next } => {
                let combined = ExprModel::Binary {
                    left: Box::new(left),
                    operator: inp.toks[pos as int],
                    right: Box::new(value),
                };
                if pos < next <= inp.toks.len() {
                    lemma_term_rest_wf(inp, combined, next);
                }
            },
            ParseOut::Fail { .. } => {},
        }
    }
}

#[verifier::rlimit(100)]
#[verifier::spinoff_prover]
pub proof fn lemma_term_wf(inp: ParseInput, pos: nat)
    requires
        inp.wf(),
    ensures
        match parse_term_spec(inp, pos) {
            ParseOut::Done { value, next } => wf_expr(value, inp.src.len()),
            ParseOut::Fail { .. } => true,
        },
    decreases inp.toks.len() - pos, 6nat,
{
    lemma_factor_wf(inp, pos);
    match parse_factor_spec(inp, pos) {
        ParseOut::Done { value, next } => {
            if pos < next <= inp.toks.len() {
                lemma_term_rest_wf(inp, value, next);
            }
        },
        ParseOut::Fail { .. } => {},
    }
}

#[verifier::rlimit(100)]
#[verifier::spinoff_prover]
pub proof fn lemma_comparison_rest_wf(inp: ParseInput, left: ExprModel, pos: nat)
    requires
        inp.wf(),
        wf_expr(left, inp.src.len()),
    ensures
        match parse_comparison_rest_spec(inp, left, pos) {
            ParseOut::Done { value, next } => wf_expr(value, inp.src.len()),
            ParseOut::Fail { .. } => true,
        },
    decreases inp.toks.len() - pos, 7nat,
{
    if level_op(inp, pos, comparison_ops()) {
        assert(inp.toks[pos as int].span.wf(inp.src.len()));
        lemma_term_wf(inp, pos + 1);
        match parse_term_spec(inp, pos + 1) {
            ParseOut::Done { value, next } => {
                let combined = ExprModel::Binary {
                    left: Box::new(left),
                    operator: inp.toks[pos as int],
                    right: Box::new(value),
                };
                if pos < next <= inp.toks.len() {
                    lemma_comparison_rest_wf(inp, combined, next);
                }
            },
            ParseOut::Fail { .. } => {},
        }
    }
}

#[verifier::rlimit(100)]
#[verifier::spinoff_prover]
pub proof fn lemma_comparison_wf(inp: ParseInput, pos: nat)
    requires
        inp.wf(),
    ensures
        match parse_comparison_spec(inp, pos) {
            ParseOut::Done { value, next } => wf_expr(value, inp.src.len()),
            ParseOut::Fail { .. } => true,
        },
    decreases inp.toks.len() - pos, 8nat,
{
    lemma_term_wf(inp, pos);
    match parse_term_spec(inp, pos) {
        ParseOut::Done { value, next } => {
            if pos < next <= inp.toks.len() {
                lemma_comparison_rest_wf(inp, value, next);
            }
        },
        ParseOut::Fail { .. } => {},
    }
}

#[verifier::rlimit(100)]
#[verifier::spinoff_prover]
pub proof fn lemma_equality_rest_wf(inp: ParseInput, left: ExprModel, pos: nat)
    requires
        inp.wf(),
        wf_expr(left, inp.src.len()),
    ensures
        match parse_equality_rest_spec(inp, left, pos) {
            ParseOut::Done { value, next } => wf_expr(value, inp.src.len()),
            ParseOut::Fail { .. } => true,
        },
    decreases inp.toks.len() - pos, 9nat,
{
    if level_op(inp, pos, equality_ops()) {
        assert(inp.toks[pos as int].span.wf(inp.src.len()));
        lemma_comparison_wf(inp, pos + 1);
        match parse_comparison_spec(inp, pos + 1) {
            ParseOut::Done { value, next } => {
                let combined = ExprModel::Binary {
                    left: Box::new(left),
                    operator: inp.toks[pos as int],
                    right: Box::new(value),
                };
                if pos < next <= inp.toks.len() {
                    lemma_equality_rest_wf(inp, combined, next);
                }
            },
            ParseOut::Fail { .. } => {},
        }
    }
}

#[verifier::rlimit(100)]
#[verifier::spinoff_prover]
pub proof fn lemma_equality_wf(inp: ParseInput, pos: nat)
    requires
        inp.wf(),
    ensures
        match parse_equality_spec(inp, pos) {
            ParseOut::Done { value, next } => wf_expr(value, inp.src.len()),
            ParseOut::Fail { .. } => true,
        },
    decreases inp.toks.len() - pos, 10nat,
{
    lemma_comparison_wf(inp, pos);
    match parse_comparison_spec(inp, pos) {
        ParseOut::Done { value, next } => {
            if pos < next <= inp.toks.len() {
                lemma_equality_rest_wf(inp, value, next);
            }
        },
        ParseOut::Fail { .. } => {},
    }
}

pub proof fn lemma_expression_wf(inp: ParseInput, pos: nat)
    requires
        inp.wf(),
    ensures
        match parse_expression_spec(inp, pos) {
            ParseOut::Done { value, next } => wf_expr(value, inp.src.len()),
            ParseOut::Fail { .. } => true,
        },
    decreases inp.toks.len() - pos, 11nat,
{
    lemma_equality_wf(inp, pos);
}

#[verifier::rlimit(100)]
#[verifier::spinoff_prover]
pub proof fn lemma_statement_wf(inp: ParseInput, pos: nat)
    requires
        inp.wf(),
    ensures
        match parse_statement_spec(inp, pos) {
            ParseOut::Done { value, next } => wf_stmt(value, inp.src.len()),
            ParseOut::Fail { .. } => true,
        },
    decreases inp.toks.len() - pos, 12nat,
{
    if pos < inp.toks.len() && inp.toks[pos as int].token_type == TokenType::Keyword(
        KeywordType::Print,
    ) {
        lemma_expression_wf(inp, pos + 1);
    } else if pos < inp.toks.len() && inp.toks[pos as int].token_type == TokenType::Keyword(
        KeywordType::Var,
    ) {
        if pos + 1 < inp.toks.len() && inp.toks[pos as int + 1].token_type
            == TokenType::Identifier {
            assert(inp.toks[pos as int + 1].span.wf(inp.src.len()));
            if pos + 2 < inp.toks.len() && inp.toks[pos as int + 2].token_type
                == TokenType::Equal {
                lemma_expression_wf(inp, pos + 3);
            }
        }
    } else {
        lemma_expression_wf(inp, pos);
    }
}

/// Every statement of a successfully parsed program is well-formed.
#[verifier::rlimit(100)]
#[verifier::spinoff_prover]
pub proof fn lemma_program_wf(inp: ParseInput, pos: nat)
    requires
        inp.wf(),
    ensures
        match parse_program_spec(inp, pos) {
            ParseOut::Done { value, next } => forall|i: int|
                0 <= i < value.len() ==> wf_stmt(#[trigger] value[i], inp.src.len()),
            ParseOut::Fail { .. } => true,
        },
    decreases inp.toks.len() - pos, 13nat,
{
    if pos < inp.toks.len() {
        lemma_statement_wf(inp, pos);
        match parse_statement_spec(inp, pos) {
            ParseOut::Done { value, next } => {
                if pos < next <= inp.toks.len() {
                    lemma_program_wf(inp, next);
                }
            },
            ParseOut::Fail { .. } => {},
        }
    }
}

/// Tests the parser's input conditions at run time, for callers outside the
/// verified world: every token span within the source, string tokens at
/// least two bytes wide, and the number table covering every `Number`
/// token.
pub fn check_parse_inputs(source: &Vec<u8>, tokens: &Vec<Token>, num_values: &Vec<u64>) -> (r:
    bool)
    ensures
        r == (tokens_wf(source@, tokens@) && count_numbers(tokens@, tokens@.len() as int)
            <= num_values@.len()),
{
    let mut count: usize = 0;
    let mut i: usize = 0;
    while i < tokens.len()
        invariant
            i <= tokens@.len(),
            count as int == count_numbers(tokens@, i as int),
            forall|j: int|
                0 <= j < i ==> (#[trigger] tokens@[j]).span.wf(source@.len())
                    && (tokens@[j].token_type == TokenType::StringLiteral
                    ==> tokens@[j].span.start + 2 <= tokens@[j].span.end),
        decreases tokens@.len() - i,
    {
        let t = tokens[i];
        if !(t.span.start <= t.span.end && t.span.end <= source.len()) {
            return false;
        }
        match t.token_type {
            TokenType::StringLiteral => {
                // span.end <= source.len() <= usize::MAX, so the width test
                // avoids overflow by subtracting instead of adding.
                if t.span.end - t.span.start < 2 {
                    return false;
                }
            },
            TokenType::Number => {
                proof {
                    lemma_count_numbers_bounds(tokens@, i as int);
                }
                count = count + 1;
            },
            _ => (),
        }
        i = i + 1;
    }
    count <= num_values.len()
}

} // verus!
