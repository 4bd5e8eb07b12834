//! End-to-end runs: source text through the scanner, the parser and the
//! interpreter, with the embedder's floating-point work done here.
use rlox::ast::Stmt;
use rlox::error::ErrorType;
use rlox::error::LoxError;
use rlox::interpreter::Interpreter;
use rlox::interpreter::NumOp;
use rlox::interpreter::NumQuery;
use rlox::interpreter::Outcome;
use rlox::parser::Parser;
use rlox::scanner::Scanner;
use rlox::scanner::significant_tokens;
use rlox::tokens::Object;
use rlox::tokens::Token;
use rlox::tokens::TokenType;

/// Computes one arithmetic request on doubles.
fn apply_query(q: &NumQuery) -> u64 {
    let a = f64::from_bits(q.lhs);
    let b = f64::from_bits(q.rhs);
    let r = match q.op {
        NumOp::Add => a + b,
        NumOp::Sub => a - b,
        NumOp::Mul => a * b,
        NumOp::Div => a / b,
    };
    r.to_bits()
}

/// Parses each number token's text as a double, in token order.
fn number_table(source: &Vec<u8>, tokens: &Vec<Token>) -> Vec<u64> {
    let mut table = Vec::new();
    for t in tokens {
        if t.token_type == TokenType::Number {
            let text = std::str::from_utf8(&source[t.span.start..t.span.end]).unwrap();
            table.push(text.parse::<f64>().unwrap().to_bits());
        }
    }
    table
}

/// Renders a value the way a `print` statement shows it.
fn render(o: &Object) -> String {
    match o {
        Object::Num(b) => format!("{}", f64::from_bits(*b)),
        Object::Str(s) => format!("\"{}\"", String::from_utf8(s.clone()).unwrap()),
        Object::Nil => "nil".to_string(),
        Object::Bool(true) => "true".to_string(),
        Object::Bool(false) => "false".to_string(),
    }
}

enum Run {
    Completed(Vec<String>, Vec<Object>),
    ParseError(LoxError),
    RuntimeError(LoxError, Vec<String>),
}

/// Lexes, parses and interprets the source, answering the interpreter's
/// arithmetic requests with real double-precision operations.
fn run_source(source: &str) -> Run {
    let bytes: Vec<u8> = source.as_bytes().to_vec();
    let mut scanner = Scanner::new(&bytes);
    let all_tokens = scanner.tokenize();
    let tokens = significant_tokens(&all_tokens);
    let table = number_table(&bytes, &tokens);
    let mut parser = Parser::new(&bytes, tokens, table);
    let statements: Vec<Stmt> = match parser.parse() {
        Ok(s) => s,
        Err(e) => return Run::ParseError(e),
    };
    let mut supplied: Vec<u64> = Vec::new();
    loop {
        let mut interpreter = Interpreter::new(&bytes, supplied.clone());
        match interpreter.interpret(&statements) {
            Outcome::Completed => {
                let rendered = interpreter.output().iter().map(render).collect();
                let values = interpreter.output().clone();
                return Run::Completed(rendered, values);
            }
            Outcome::Failed(e) => {
                let rendered = interpreter.output().iter().map(render).collect();
                return Run::RuntimeError(e, rendered);
            }
            Outcome::Pending(q) => {
                supplied.push(apply_query(&q));
            }
        }
    }
}

fn expect_output(source: &str, expected: &[&str]) {
    match run_source(source) {
        Run::Completed(rendered, _) => assert_eq!(rendered, expected),
        Run::ParseError(e) => panic!("parse error: {}", e.message()),
        Run::RuntimeError(e, _) => panic!("runtime error: {}", e.message()),
    }
}

fn expect_runtime_error(source: &str, message: &str) {
    match run_source(source) {
        Run::RuntimeError(e, _) => {
            assert_eq!(e.message().as_str(), message);
            assert_eq!(e.error_type(), ErrorType::RuntimeError);
        }
        Run::Completed(rendered, _) => panic!("unexpectedly completed: {:?}", rendered),
        Run::ParseError(e) => panic!("parse error instead: {}", e.message()),
    }
}

#[test]
fn numeric_literal_round_trips() {
    // An expression statement evaluates its literal and discards it.
    match run_source("42;") {
        Run::Completed(rendered, _) => assert_eq!(rendered.len(), 0),
        _ => panic!("expected completion"),
    }
    expect_output("print 42;", &["42"]);
    expect_output("print 3.25;", &["3.25"]);
    expect_output("print 0.5;", &["0.5"]);
}

#[test]
fn addition_prints_three() {
    match run_source("1 + 2;") {
        Run::Completed(rendered, _) => assert_eq!(rendered.len(), 0),
        _ => panic!("expected completion"),
    }
    expect_output("print 1 + 2;", &["3"]);
}

#[test]
fn string_concatenation_is_a_type_error() {
    expect_runtime_error("\"a\" + \"b\";", "Left operand is not a number");
}

#[test]
fn right_operand_checked_after_left() {
    expect_runtime_error("1 + \"b\";", "Right operand is not a number");
}

#[test]
fn negation_dispatch() {
    expect_output("print -true;", &["false"]);
    expect_output("print -false;", &["true"]);
    expect_output("print -5;", &["-5"]);
    expect_output("print !true;", &["false"]);
    expect_output("print !5;", &["-5"]);
    expect_runtime_error("-\"x\";", "Cannot negate non-numeric or non-boolean value");
    expect_runtime_error("-nil;", "Cannot negate non-numeric or non-boolean value");
}

#[test]
fn grouping_overrides_precedence() {
    expect_output("print (1 + 2) * 3;", &["9"]);
    expect_output("print 1 + 2 * 3;", &["7"]);
}

#[test]
fn arithmetic_and_comparisons() {
    expect_output("print 10 - 4 - 3;", &["3"]);
    expect_output("print 8 / 2;", &["4"]);
    expect_output("print 1 < 2;", &["true"]);
    expect_output("print 2 <= 2;", &["true"]);
    expect_output("print 1 > 2;", &["false"]);
    expect_output("print 2 >= 3;", &["false"]);
    expect_output("print 1 == 1;", &["true"]);
    expect_output("print 1 != 1;", &["false"]);
    expect_output("print 0 == -0;", &["true"]);
}

#[test]
fn division_by_zero_follows_ieee() {
    expect_output("print 1 / 0;", &["inf"]);
    expect_output("print -1 / 0;", &["-inf"]);
    expect_output("print (0 / 0) == (0 / 0);", &["false"]);
}

#[test]
fn ieee_order_on_special_values() {
    // Infinities take their place on the number line.
    expect_output("print 1 / 0 > 100;", &["true"]);
    expect_output("print (0 - 1) / 0 < 0;", &["true"]);
    // NaN is unordered and unequal to everything, itself included.
    expect_output("print (0 / 0) < 1;", &["false"]);
    expect_output("print (0 / 0) >= 1;", &["false"]);
    expect_output("print (0 / 0) != (0 / 0);", &["true"]);
    // Negative numbers order by magnitude, reversed.
    expect_output("print -2 < -1;", &["true"]);
    expect_output("print -1 <= -2;", &["false"]);
}

#[test]
fn variable_definition_and_print() {
    expect_output("var x = 1; print x;", &["1"]);
    expect_output("var x = 1; var y = 2; print x + y;", &["3"]);
}

#[test]
fn variable_redefinition_overwrites() {
    expect_output("var x = 1; print x; var x = 2; print x;", &["1", "2"]);
}

#[test]
fn undefined_variable_is_a_runtime_error() {
    match run_source("print y;") {
        Run::RuntimeError(e, rendered) => {
            assert_eq!(e.message().as_str(), "Undefined variable");
            assert_eq!(e.error_type(), ErrorType::RuntimeError);
            // The error's span names `y` in the source.
            assert_eq!(e.span().start, 6);
            assert_eq!(e.span().end, 7);
            assert_eq!(rendered.len(), 0);
        }
        _ => panic!("expected a runtime error"),
    }
}

#[test]
fn uninitialized_var_is_a_runtime_error() {
    expect_runtime_error("var x;", "Cannot use uninitialized value");
}

#[test]
fn output_before_failure_is_kept() {
    match run_source("print 1; print y;") {
        Run::RuntimeError(e, rendered) => {
            assert_eq!(e.message().as_str(), "Undefined variable");
            assert_eq!(rendered, vec!["1".to_string()]);
        }
        _ => panic!("expected a runtime error"),
    }
}

#[test]
fn missing_close_paren_is_a_parse_error() {
    match run_source("(1 + 2") {
        Run::ParseError(e) => {
            assert_eq!(e.message().as_str(), "Expect ')' after expression");
            assert_eq!(e.error_type(), ErrorType::ParseError);
        }
        _ => panic!("expected a parse error"),
    }
}

#[test]
fn string_values_print_quoted() {
    expect_output("print \"hello\";", &["\"hello\""]);
    expect_output("print nil;", &["nil"]);
    expect_output("print true;", &["true"]);
}

#[test]
fn unicode_whitespace_separates_tokens() {
    expect_output("print\u{00A0}1 +\u{2009}2;", &["3"]);
    expect_output("var caf\u{00E9} = 7; print caf\u{00E9};", &["7"]);
}

#[test]
fn comments_and_whitespace_are_skipped() {
    expect_output("print 1 + 2; // trailing words\nprint 4;", &["3", "4"]);
}
