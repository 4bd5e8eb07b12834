//! Properties of the whole pipeline, stated and proved over the
//! specification functions of the scanner, the parser and the evaluator.
use vstd::prelude::*;

use crate::ast::ExprModel;
use crate::ast::StmtModel;
use crate::ast::is_binary_op;
use crate::environment::undefined_variable_error;
use crate::error::ErrorModel;
use crate::interpreter::EvalOut;
use crate::interpreter::InterpState;
use crate::interpreter::NumOp;
use crate::interpreter::NumQuery;
use crate::interpreter::RunOut;
use crate::interpreter::eval_binary_spec;
use crate::interpreter::eval_expr_spec;
use crate::interpreter::exec_stmt_spec;
use crate::interpreter::interpret_spec;
use crate::interpreter::left_operand_error;
use crate::interpreter::negate_error;
use crate::interpreter::right_operand_error;
use crate::interpreter::StmtOut;
use crate::numbers::negated_bits;
use crate::parser::ParseInput;
use crate::parser::tokens_wf;
use crate::parser::ParseOut;
use crate::parser::parse_program_spec;
use crate::scanner::ByteClass;
use crate::scanner::DOT;
use crate::scanner::QUOTE;
use crate::scanner::SEMICOLON;
use crate::scanner::ScanStep;
use crate::scanner::lex_errors_spec;
use crate::scanner::lex_spec;
use crate::scanner::is_digit;
use crate::scanner::is_alpha;
use crate::scanner::identifier_step;
use crate::scanner::ident_len;
use crate::scanner::ident_run_end;
use crate::scanner::lemma_ident_run;
use crate::scanner::lemma_whitespace_run;
use crate::scanner::plain_step;
use crate::scanner::whitespace_len;
use crate::scanner::whitespace_run_end;
use crate::scanner::run_end;
use crate::scanner::scan_token_spec;
use crate::scanner::string_step;
use crate::scanner::significant_spec;
use crate::scanner::lemma_scan_step_bounds;
use crate::scanner::lemma_run_end;
use crate::tokens::Span;
use crate::tokens::Token;
use crate::tokens::TokenType;
use crate::tokens::Value;

verus! {

/// A maximal run whose extent is known: when every byte of `[pos, e)` is in
/// the class and `e` is the end of the source or carries a byte outside the
/// class, the run ends exactly at `e`.
pub proof fn lemma_run_end_exact(src: Seq<u8>, pos: nat, cls: ByteClass, e: nat)
    requires
        pos <= e <= src.len(),
        forall|j: int| pos <= j < e ==> cls.apply(#[trigger] src[j]),
        e < src.len() ==> !cls.apply(src[e as int]),
    ensures
        run_end(src, pos, cls) == e,
    decreases e - pos,
{
    if pos < e {
        lemma_run_end_exact(src, pos + 1, cls, e);
    }
}

/// A non-empty run of decimal digits.
pub open spec fn digit_run(s: Seq<u8>) -> bool {
    s.len() > 0 && forall|i: int| 0 <= i < s.len() ==> is_digit(#[trigger] s[i])
}

/// A valid numeric literal: a digit run, optionally followed by a dot and
/// another digit run.
pub open spec fn number_literal(s: Seq<u8>) -> bool {
    digit_run(s) || exists|k: int|
        0 < k < s.len() && #[trigger] s[k] == DOT && digit_run(s.subrange(0, k)) && digit_run(
            s.subrange(k + 1, s.len() as int),
        )
}

/// Scanning a source that consists of a numeric literal and a semicolon
/// yields exactly the number token covering the literal and the semicolon
/// token, with no lexical error.
pub proof fn lemma_number_literal_lexes(lit: Seq<u8>)
    requires
        number_literal(lit),
        lit.len() + 1 <= usize::MAX,
    ensures
        ({
            let src = lit + seq![SEMICOLON];
            &&& lex_spec(src, 0) == seq![
                Token {
                    token_type: TokenType::Number,
                    span: Span { start: 0, end: lit.len() as usize },
                },
                Token {
                    token_type: TokenType::Semicolon,
                    span: Span { start: lit.len() as usize, end: (lit.len() + 1) as usize },
                },
            ]
            &&& lex_errors_spec(src, 0) == Seq::<ErrorModel>::empty()
        }),
{
    let src = lit + seq![SEMICOLON];
    let n = lit.len() as int;
    assert(src.len() == lit.len() + 1);
    assert(src[n] == SEMICOLON);
    assert(forall|j: int| 0 <= j < n ==> src[j] == lit[j]);
    assert(!is_digit(SEMICOLON));
    if digit_run(lit) {
        assert(is_digit(src[0]));
        lemma_run_end_exact(src, 1, ByteClass::Digit, n as nat);
        assert(run_end(src, 1, ByteClass::Digit) == n);
        assert(src[n] != DOT);
        assert(scan_token_spec(src, 0)->Some_0.token == (Token {
            token_type: TokenType::Number,
            span: Span { start: 0, end: lit.len() as usize },
        }));
        assert(scan_token_spec(src, 0)->Some_0.next == n);
    } else {
        let k = choose|k: int|
            0 < k < lit.len() && #[trigger] lit[k] == DOT && digit_run(lit.subrange(0, k))
                && digit_run(lit.subrange(k + 1, lit.len() as int));
        assert(lit.subrange(0, k)[0] == lit[0]);
        assert(is_digit(src[0]));
        assert(forall|j: int| 0 <= j < k ==> lit.subrange(0, k)[j] == src[j]);
        assert(forall|j: int| 1 <= j < k ==> is_digit(#[trigger] src[j]));
        assert(src[k] == DOT);
        assert(!is_digit(DOT));
        lemma_run_end_exact(src, 1, ByteClass::Digit, k as nat);
        assert(forall|j: int|
            k + 1 <= j < n ==> lit.subrange(k + 1, lit.len() as int)[j - (k + 1)] == #[trigger] src[j]);
        assert(forall|j: int| k + 1 <= j < n ==> is_digit(#[trigger] src[j]));
        assert(is_digit(src[k + 1]));
        lemma_run_end_exact(src, k as nat + 1, ByteClass::Digit, n as nat);
        assert(scan_token_spec(src, 0)->Some_0.token == (Token {
            token_type: TokenType::Number,
            span: Span { start: 0, end: lit.len() as usize },
        }));
        assert(scan_token_spec(src, 0)->Some_0.next == n);
    }
    assert(scan_token_spec(src, n as nat)->Some_0.token == (Token {
        token_type: TokenType::Semicolon,
        span: Span { start: lit.len() as usize, end: (lit.len() + 1) as usize },
    }));
    assert(scan_token_spec(src, n as nat)->Some_0.next == src.len());
    assert(scan_token_spec(src, src.len()) is None);
    assert(lex_spec(src, src.len()) =~= Seq::<Token>::empty());
    assert(lex_spec(src, n as nat) =~= seq![scan_token_spec(src, n as nat)->Some_0.token]
        + Seq::<Token>::empty());
    assert(lex_spec(src, 0) =~= seq![scan_token_spec(src, 0)->Some_0.token] + lex_spec(
        src,
        n as nat,
    ));
    assert(lex_errors_spec(src, src.len()) =~= Seq::<ErrorModel>::empty());
    assert(lex_errors_spec(src, n as nat) =~= Seq::<ErrorModel>::empty());
    assert(lex_errors_spec(src, 0) =~= Seq::<ErrorModel>::empty() + lex_errors_spec(
        src,
        n as nat,
    ));
    assert(lex_errors_spec(src, 0) =~= Seq::<ErrorModel>::empty());
}

/// For every valid numeric literal, the pipeline is faithful: the source
/// `lit;` scans to a number token and a semicolon with no lexical error,
/// parses to one expression statement whose literal holds the supplied
/// value, evaluating that literal yields exactly that number, and running
/// the program from any state completes without error and leaves the state
/// as it was.
#[verifier::rlimit(100)]
#[verifier::spinoff_prover]
pub proof fn lemma_numeric_literal_program(lit: Seq<u8>, v: u64, st: InterpState)
    requires
        number_literal(lit),
        lit.len() + 1 <= usize::MAX,
    ensures
        ({
            let src = lit + seq![SEMICOLON];
            let toks = lex_spec(src, 0);
            let inp = ParseInput { src, toks, nums: seq![v] };
            let literal = ExprModel::Literal {
                value: Value::Num(v),
                span: Span { start: 0, end: lit.len() as usize },
            };
            let program = seq![StmtModel::Expression { expression: literal }];
            &&& parse_program_spec(inp, 0) == (ParseOut::Done::<Seq<StmtModel>> {
                value: program,
                next: 2,
            })
            &&& eval_expr_spec(literal, src, st.env, seq![v], st.used) == (EvalOut::Val {
                v: Value::Num(v),
                used: st.used,
            })
            &&& interpret_spec(program, src, st, seq![v], 0) == (RunOut::Done { st })
        }),
{
    lemma_number_literal_lexes(lit);
    let src = lit + seq![SEMICOLON];
    let toks = lex_spec(src, 0);
    let inp = ParseInput { src, toks, nums: seq![v] };
    let literal = ExprModel::Literal {
        value: Value::Num(v),
        span: Span { start: 0, end: lit.len() as usize },
    };
    let program = seq![StmtModel::Expression { expression: literal }];
    assert(toks.len() == 2);
    assert(toks[0].token_type == TokenType::Number);
    assert(toks[1].token_type == TokenType::Semicolon);
    assert(crate::parser::count_numbers(toks, 0) == 0);
    assert(crate::parser::parse_primary_spec(inp, 0) == (ParseOut::Done::<ExprModel> {
        value: literal,
        next: 1,
    }));
    assert(crate::parser::parse_unary_spec(inp, 0) == (ParseOut::Done::<ExprModel> {
        value: literal,
        next: 1,
    }));
    assert(crate::parser::parse_factor_spec(inp, 0) == (ParseOut::Done::<ExprModel> {
        value: literal,
        next: 1,
    }));
    assert(crate::parser::parse_term_spec(inp, 0) == (ParseOut::Done::<ExprModel> {
        value: literal,
        next: 1,
    }));
    assert(crate::parser::parse_comparison_spec(inp, 0) == (ParseOut::Done::<ExprModel> {
        value: literal,
        next: 1,
    }));
    assert(crate::parser::parse_expression_spec(inp, 0) == (ParseOut::Done::<ExprModel> {
        value: literal,
        next: 1,
    }));
    assert(crate::parser::parse_statement_spec(inp, 0) == (ParseOut::Done::<StmtModel> {
        value: StmtModel::Expression { expression: literal },
        next: 2,
    }));
    assert(parse_program_spec(inp, 2) == (ParseOut::Done::<Seq<StmtModel>> {
        value: Seq::empty(),
        next: 2,
    }));
    assert(seq![StmtModel::Expression { expression: literal }] + Seq::<StmtModel>::empty()
        =~= program);
    assert(exec_stmt_spec(program[0], src, st, seq![v]) == (StmtOut::Done {
        st: InterpState { env: st.env, output: st.output, used: st.used },
    }));
    assert(InterpState { env: st.env, output: st.output, used: st.used } == st);
    assert(interpret_spec(program, src, st, seq![v], 1) == (RunOut::Done { st }));
}

/// `1 + 2;` evaluates without error: the sum of two number operands is
/// never a type error — it is the next supplied arithmetic result, or a
/// request for it when the table has run out.
pub proof fn lemma_adding_numbers_never_faults(
    operator: Token,
    a: u64,
    b: u64,
    nums: Seq<u64>,
    used: nat,
)
    requires
        operator.token_type == TokenType::Plus,
    ensures
        eval_binary_spec(operator, Value::Num(a), Value::Num(b), nums, used) == (if used
            < nums.len() {
            EvalOut::Val { v: Value::Num(nums[used as int]), used: used + 1 }
        } else {
            EvalOut::Pending { q: NumQuery { op: NumOp::Add, lhs: a, rhs: b } }
        }),
{
}

/// `"a" + "b"` is a runtime type error: a binary operator whose left
/// operand is not a number fails with "Left operand is not a number",
/// whatever the right operand holds — string concatenation is not
/// supported.
pub proof fn lemma_left_operand_type_error(
    operator: Token,
    lv: Value,
    rv: Value,
    nums: Seq<u64>,
    used: nat,
)
    requires
        is_binary_op(operator.token_type),
        !(lv is Num),
    ensures
        eval_binary_spec(operator, lv, rv, nums, used) == (EvalOut::Fault {
            e: left_operand_error(operator.span),
        }),
{
}

/// A number on the left with a non-number on the right fails with "Right
/// operand is not a number": the operands are checked left then right.
pub proof fn lemma_right_operand_type_error(
    operator: Token,
    a: u64,
    rv: Value,
    nums: Seq<u64>,
    used: nat,
)
    requires
        is_binary_op(operator.token_type),
        !(rv is Num),
    ensures
        eval_binary_spec(operator, Value::Num(a), rv, nums, used) == (EvalOut::Fault {
            e: right_operand_error(operator.span),
        }),
{
}

/// Negation: `-` and `!` share one dispatch; on a number the sign bit is
/// flipped, a boolean is inverted, and anything else is a runtime error —
/// there is no truthiness coercion.
pub proof fn lemma_unary_dispatch(
    operator: Token,
    v: Value,
    span: Span,
    src: Seq<u8>,
    env: Map<Seq<u8>, Value>,
    nums: Seq<u64>,
    used: nat,
)
    ensures
        ({
            let e = ExprModel::Unary {
                operator,
                right: Box::new(ExprModel::Literal { value: v, span }),
            };
            eval_expr_spec(e, src, env, nums, used) == match v {
                Value::Num(b) => EvalOut::Val { v: Value::Num(negated_bits(b)), used },
                Value::Bool(x) => EvalOut::Val { v: Value::Bool(!x), used },
                _ => EvalOut::Fault { e: negate_error(operator.span) },
            }
        }),
{
    assert(eval_expr_spec(ExprModel::Literal { value: v, span }, src, env, nums, used)
        == (EvalOut::Val { v, used }));
}

/// Grouping is transparent: a parenthesized expression evaluates to exactly
/// what the inner expression evaluates to, so grouping only overrides how
/// the parser shapes the tree.
pub proof fn lemma_grouping_transparent(
    e: ExprModel,
    src: Seq<u8>,
    env: Map<Seq<u8>, Value>,
    nums: Seq<u64>,
    used: nat,
)
    ensures
        eval_expr_spec(
            ExprModel::Grouping { expression: Box::new(e) },
            src,
            env,
            nums,
            used,
        ) == eval_expr_spec(e, src, env, nums, used),
{
}

/// Redefinition succeeds: a `var` statement binds its name whether or not
/// the name is already bound — no duplicate-declaration error exists — and
/// a second `var` for the same name leaves the second value bound.
pub proof fn lemma_var_redefinition(
    name: Token,
    v1: Value,
    v2: Value,
    sp1: Span,
    sp2: Span,
    src: Seq<u8>,
    st: InterpState,
    nums: Seq<u64>,
)
    ensures
        ({
            let key = name.span.text(src);
            let first = StmtModel::Var {
                name,
                initializer: Some(ExprModel::Literal { value: v1, span: sp1 }),
            };
            let second = StmtModel::Var {
                name,
                initializer: Some(ExprModel::Literal { value: v2, span: sp2 }),
            };
            &&& exec_stmt_spec(first, src, st, nums) == (StmtOut::Done {
                st: InterpState { env: st.env.insert(key, v1), output: st.output, used: st.used },
            })
            &&& match exec_stmt_spec(first, src, st, nums) {
                StmtOut::Done { st: st1 } => exec_stmt_spec(second, src, st1, nums) == (
                StmtOut::Done {
                    st: InterpState {
                        env: st.env.insert(key, v2),
                        output: st.output,
                        used: st.used,
                    },
                }) && st.env.insert(key, v2)[key] == v2,
                _ => false,
            }
        }),
{
    let key = name.span.text(src);
    assert(st.env.insert(key, v1).insert(key, v2) =~= st.env.insert(key, v2));
}

/// Reading an identifier with no binding fails with an undefined-variable
/// error carrying the identifier's span.
pub proof fn lemma_undefined_variable(
    name: Token,
    src: Seq<u8>,
    env: Map<Seq<u8>, Value>,
    nums: Seq<u64>,
    used: nat,
)
    requires
        !env.contains_key(name.span.text(src)),
    ensures
        eval_expr_spec(ExprModel::Variable { name }, src, env, nums, used) == (EvalOut::Fault {
            e: undefined_variable_error(name.span),
        }),
{
}

/// An unterminated string literal is a lexical error, not a crash: when no
/// closing quote follows, the scanner consumes the rest of the input as one
/// `Unknown` token and records the unterminated-string error, and scanning
/// is finished.
pub proof fn lemma_unterminated_string(src: Seq<u8>, pos: nat)
    requires
        pos < src.len(),
        src[pos as int] == QUOTE,
        forall|j: int| pos < j < src.len() ==> #[trigger] src[j] != QUOTE,
        src.len() <= usize::MAX,
    ensures
        scan_token_spec(src, pos) == Some(
            ScanStep {
                token: Token {
                    token_type: TokenType::Unknown,
                    span: Span { start: pos as usize, end: src.len() as usize },
                },
                next: src.len(),
                error: Some(
                    ErrorModel {
                        span: Span { start: pos as usize, end: src.len() as usize },
                        message: "Unterminated string"@,
                        error_type: crate::error::ErrorType::ParseError,
                    },
                ),
            },
        ),
        lex_spec(src, pos) == seq![
            Token {
                token_type: TokenType::Unknown,
                span: Span { start: pos as usize, end: src.len() as usize },
            },
        ],
{
    lemma_run_end_exact(src, pos + 1, ByteClass::NotQuote, src.len());
    assert(scan_token_spec(src, pos)->Some_0 == string_step(src, pos));
    assert(lex_spec(src, src.len()) =~= Seq::<Token>::empty());
    assert(lex_spec(src, pos) =~= seq![string_step(src, pos).token] + Seq::<Token>::empty());
}

/// One scanned token fits the parser's input condition: its span lies
/// within the source, and a string literal token is at least as wide as its
/// two quotes.
pub proof fn lemma_scan_token_wf(src: Seq<u8>, pos: nat)
    requires
        pos < src.len(),
        src.len() <= usize::MAX,
    ensures
        ({
            let st = scan_token_spec(src, pos)->Some_0;
            st.token.span.wf(src.len()) && (st.token.token_type == TokenType::StringLiteral
                ==> st.token.span.start + 2 <= st.token.span.end)
        }),
{
    lemma_scan_step_bounds(src, pos);
    if src[pos as int] == QUOTE {
        lemma_run_end(src, pos + 1, ByteClass::NotQuote);
    }
}

/// Every token the scanner produces fits the parser's input condition.
pub proof fn lemma_lex_tokens_wf(src: Seq<u8>, pos: nat)
    requires
        pos <= src.len(),
        src.len() <= usize::MAX,
    ensures
        tokens_wf(src, lex_spec(src, pos)),
    decreases src.len() - pos,
{
    if pos < src.len() {
        lemma_scan_step_bounds(src, pos);
        lemma_scan_token_wf(src, pos);
        let st = scan_token_spec(src, pos)->Some_0;
        lemma_lex_tokens_wf(src, st.next);
        let toks = lex_spec(src, pos);
        let rest = lex_spec(src, st.next);
        assert(toks == seq![st.token] + rest);
        assert forall|i: int| 0 <= i < toks.len() implies (#[trigger] toks[i]).span.wf(src.len())
            && (toks[i].token_type == TokenType::StringLiteral ==> toks[i].span.start + 2
            <= toks[i].span.end) by {
            if i > 0 {
                assert(toks[i] == rest[i - 1]);
            }
        }
    }
}

/// Dropping whitespace and comments keeps every remaining token fit for the
/// parser; with [`lemma_lex_tokens_wf`], the scanner's filtered output
/// always satisfies the parser's input condition.
pub proof fn lemma_significant_tokens_wf(src: Seq<u8>, toks: Seq<Token>)
    requires
        tokens_wf(src, toks),
    ensures
        tokens_wf(src, significant_spec(toks)),
    decreases toks.len(),
{
    reveal(Seq::filter);
    if toks.len() > 0 {
        assert(tokens_wf(src, toks.drop_last())) by {
            assert forall|i: int| 0 <= i < toks.drop_last().len() implies (#[trigger] toks.drop_last()[i]).span.wf(
                src.len(),
            ) && (toks.drop_last()[i].token_type == TokenType::StringLiteral
                ==> toks.drop_last()[i].span.start + 2 <= toks.drop_last()[i].span.end) by {
                assert(toks.drop_last()[i] == toks[i]);
            }
        }
        lemma_significant_tokens_wf(src, toks.drop_last());
        let sub = significant_spec(toks.drop_last());
        let whole = significant_spec(toks);
        if toks.last().token_type != TokenType::Whitespace && toks.last().token_type
            != TokenType::Comment {
            assert(whole == sub.push(toks.last()));
            assert forall|i: int| 0 <= i < whole.len() implies (#[trigger] whole[i]).span.wf(
                src.len(),
            ) && (whole[i].token_type == TokenType::StringLiteral ==> whole[i].span.start + 2
                <= whole[i].span.end) by {
                if i < whole.len() - 1 {
                    assert(whole[i] == sub[i]);
                } else {
                    assert(whole[i] == toks.last());
                    assert(toks.last() == toks[toks.len() - 1]);
                }
            }
        } else {
            assert(whole == sub);
        }
    }
}

/// The scanner's tokens tile the rest of the source: the first starts at
/// the scan position, each token starts where the one before it ended, and
/// the last ends at the end of the input.
pub proof fn lemma_lex_covers_source(src: Seq<u8>, pos: nat)
    requires
        pos <= src.len(),
        src.len() <= usize::MAX,
    ensures
        ({
            let toks = lex_spec(src, pos);
            &&& (toks.len() == 0) == (pos == src.len())
            &&& toks.len() > 0 ==> toks[0].span.start == pos
            &&& toks.len() > 0 ==> toks[toks.len() - 1].span.end == src.len()
            &&& forall|i: int|
                0 < i < toks.len() ==> (#[trigger] toks[i]).span.start == toks[i - 1].span.end
        }),
    decreases src.len() - pos,
{
    if pos < src.len() {
        lemma_scan_step_bounds(src, pos);
        let st = scan_token_spec(src, pos)->Some_0;
        lemma_lex_covers_source(src, st.next);
        let toks = lex_spec(src, pos);
        let rest = lex_spec(src, st.next);
        assert(toks == seq![st.token] + rest);
        assert(toks[0] == st.token);
        if rest.len() > 0 {
            assert(toks[toks.len() - 1] == rest[rest.len() - 1]);
            assert forall|i: int|
                0 < i < toks.len() implies (#[trigger] toks[i]).span.start == toks[i - 1].span.end by {
                if i == 1 {
                    assert(toks[1] == rest[0]);
                } else {
                    assert(toks[i] == rest[i - 1]);
                    assert(toks[i - 1] == rest[i - 2]);
                }
            }
        }
    }
}

/// Whitespace never faults: wherever a Unicode whitespace character stands,
/// the scanner produces one `Whitespace` token covering the maximal
/// whitespace run — it ends only where no whitespace character starts — and
/// records no error. Whitespace is emitted as a token, never dropped by the
/// scanner itself: filtering is the caller's policy.
pub proof fn lemma_whitespace_never_faults(src: Seq<u8>, pos: nat)
    requires
        pos < src.len(),
        src.len() <= usize::MAX,
        whitespace_len(src, pos) > 0,
    ensures
        scan_token_spec(src, pos) == Some(
            plain_step(TokenType::Whitespace, pos, whitespace_run_end(src, pos)),
        ),
        whitespace_len(src, whitespace_run_end(src, pos)) == 0,
{
    lemma_whitespace_run(src, pos);
}

/// An identifier is maximal: at an ASCII letter the scanner produces one
/// identifier-or-keyword token covering the whole run of following
/// alphanumeric characters, Unicode ones included, ending only where no
/// identifier character starts.
pub proof fn lemma_identifier_run_maximal(src: Seq<u8>, pos: nat)
    requires
        pos < src.len(),
        src.len() <= usize::MAX,
        is_alpha(src[pos as int]),
    ensures
        scan_token_spec(src, pos) == Some(identifier_step(src, pos)),
        scan_token_spec(src, pos)->Some_0.error is None,
        scan_token_spec(src, pos)->Some_0.next == ident_run_end(src, pos),
        ident_len(src, ident_run_end(src, pos)) == 0,
{
    lemma_ident_run(src, pos);
}

} // verus!
