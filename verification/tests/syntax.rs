//! Parser behaviour: tree shapes, associativity, error messages, and the
//! parenthesized rendering of trees.
use rlox::ast::Expr;
use rlox::ast::Stmt;
use rlox::ast_printer::AstPrinter;
use rlox::error::ErrorType;
use rlox::parser::Parser;
use rlox::scanner::Scanner;
use rlox::scanner::significant_tokens;
use rlox::tokens::TokenType;

fn parse_source(source: &str) -> (Vec<u8>, Result<Vec<Stmt>, rlox::error::LoxError>) {
    let bytes: Vec<u8> = source.as_bytes().to_vec();
    let mut scanner = Scanner::new(&bytes);
    let all_tokens = scanner.tokenize();
    let tokens = significant_tokens(&all_tokens);
    let mut table: Vec<u64> = Vec::new();
    for t in &tokens {
        if t.token_type == TokenType::Number {
            let text = std::str::from_utf8(&bytes[t.span.start..t.span.end]).unwrap();
            table.push(text.parse::<f64>().unwrap().to_bits());
        }
    }
    let mut parser = Parser::new(&bytes, tokens, table);
    let result = parser.parse();
    (bytes, result)
}

fn printed(source: &str) -> String {
    let (bytes, result) = parse_source(source);
    let statements = result.unwrap();
    assert_eq!(statements.len(), 1);
    let expr: &Expr = match &statements[0] {
        Stmt::Expression(s) => &s.expression,
        Stmt::Print(s) => &s.expression,
        Stmt::Var(s) => s.initializer.as_ref().unwrap(),
    };
    let printer = AstPrinter { source: &bytes };
    String::from_utf8(printer.print(expr)).unwrap()
}

#[test]
fn binary_levels_are_left_associative() {
    assert_eq!(printed("1 - 2 - 3;"), "(- (- 1 2) 3)");
    assert_eq!(printed("8 / 2 / 2;"), "(/ (/ 8 2) 2)");
}

#[test]
fn precedence_binds_factor_below_term() {
    assert_eq!(printed("1 + 2 * 3;"), "(+ 1 (* 2 3))");
    assert_eq!(printed("1 * 2 + 3;"), "(+ (* 1 2) 3)");
}

#[test]
fn grouping_shapes_the_tree() {
    assert_eq!(printed("(1 + 2) * 3;"), "(* (group (+ 1 2)) 3)");
}

#[test]
fn comparison_and_equality_levels() {
    assert_eq!(printed("1 < 2 == true;"), "(== (< 1 2) true)");
    assert_eq!(printed("1 + 2 >= 3;"), "(>= (+ 1 2) 3)");
}

#[test]
fn unary_chains_nest_rightward() {
    assert_eq!(printed("--5;"), "(- (- 5))");
    assert_eq!(printed("!true;"), "(! true)");
}

#[test]
fn literals_render_as_their_source_text() {
    assert_eq!(printed("\"abc\";"), "\"abc\"");
    assert_eq!(printed("nil;"), "nil");
    assert_eq!(printed("12.50;"), "12.50");
}

#[test]
fn missing_close_paren_message() {
    let (_, result) = parse_source("(1 + 2;");
    let e = result.unwrap_err();
    assert_eq!(e.message().as_str(), "Expect ')' after expression");
    assert_eq!(e.error_type(), ErrorType::ParseError);
}

#[test]
fn missing_semicolon_messages() {
    let (_, result) = parse_source("print 1");
    assert_eq!(result.unwrap_err().message().as_str(), "Expect ';' after value.");
    let (_, result) = parse_source("1 + 2");
    assert_eq!(result.unwrap_err().message().as_str(), "Expect ';' after expression");
    let (_, result) = parse_source("var x = 1");
    assert_eq!(
        result.unwrap_err().message().as_str(),
        "Expect ';' after variable declaration."
    );
}

#[test]
fn var_needs_a_name() {
    let (_, result) = parse_source("var = 1;");
    assert_eq!(result.unwrap_err().message().as_str(), "Expect variable name.");
}

#[test]
fn expected_expression_error() {
    let (_, result) = parse_source("+ 1;");
    let e = result.unwrap_err();
    assert_eq!(e.message().as_str(), "Expected expression");
    // The span points at the offending token.
    assert_eq!(e.span().start, 0);
    assert_eq!(e.span().end, 1);
}

#[test]
fn var_statement_shapes() {
    let (_, result) = parse_source("var x = 1 + 2;");
    let statements = result.unwrap();
    assert_eq!(statements.len(), 1);
    match &statements[0] {
        Stmt::Var(v) => {
            assert_eq!(v.name.token_type, TokenType::Identifier);
            assert!(v.initializer.is_some());
        }
        _ => panic!("expected a var statement"),
    }
    // The parser accepts a declaration without an initializer; running it
    // is what fails.
    let (_, result) = parse_source("var x;");
    let statements = result.unwrap();
    match &statements[0] {
        Stmt::Var(v) => assert!(v.initializer.is_none()),
        _ => panic!("expected a var statement"),
    }
}

#[test]
fn parse_stops_at_first_error() {
    let (_, result) = parse_source("print 1; @; print 2;");
    assert!(result.is_err());
}

#[test]
fn empty_source_parses_to_no_statements() {
    let (_, result) = parse_source("");
    assert_eq!(result.unwrap().len(), 0);
}

#[test]
fn variable_reference_renders_by_name() {
    assert_eq!(printed("x;"), "x");
}
