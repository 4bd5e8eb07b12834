//! Scanner behaviour: token categories, spans, the keyword table, error
//! recording, and repeatability.
use rlox::error::ErrorType;
use rlox::scanner::Scanner;
use rlox::scanner::significant_tokens;
use rlox::tokens::KeywordType;
use rlox::tokens::Span;
use rlox::tokens::Token;
use rlox::tokens::TokenType;

fn lex(source: &str) -> Vec<Token> {
    let bytes: Vec<u8> = source.as_bytes().to_vec();
    let mut scanner = Scanner::new(&bytes);
    scanner.tokenize()
}

fn kinds(tokens: &[Token]) -> Vec<TokenType> {
    tokens.iter().map(|t| t.token_type).collect()
}

#[test]
fn lexing_twice_gives_identical_tokens() {
    let source = "var x = 1; // set\nprint x + 2.5 <= 3;";
    let bytes: Vec<u8> = source.as_bytes().to_vec();
    let mut first = Scanner::new(&bytes);
    let mut second = Scanner::new(&bytes);
    let a = first.tokenize();
    let b = second.tokenize();
    assert_eq!(a.len(), b.len());
    for i in 0..a.len() {
        assert_eq!(a[i], b[i]);
    }
}

#[test]
fn spans_cover_the_source_in_order() {
    let tokens = lex("print 1 + 23;");
    let mut pos = 0;
    for t in &tokens {
        assert_eq!(t.span.start, pos);
        assert!(t.span.end > t.span.start);
        pos = t.span.end;
    }
    assert_eq!(pos, "print 1 + 23;".len());
}

#[test]
fn number_token_shapes() {
    assert_eq!(kinds(&lex("123")), vec![TokenType::Number]);
    assert_eq!(kinds(&lex("12.5")), vec![TokenType::Number]);
    // A trailing dot is left for the next token.
    assert_eq!(kinds(&lex("12.")), vec![TokenType::Number, TokenType::Dot]);
    let tokens = lex("12.5");
    assert_eq!(tokens[0].span.end, 4);
}

#[test]
fn two_character_operators_merge() {
    assert_eq!(
        kinds(&lex("! != = == < <= > >=")),
        vec![
            TokenType::Bang,
            TokenType::Whitespace,
            TokenType::BangEqual,
            TokenType::Whitespace,
            TokenType::Equal,
            TokenType::Whitespace,
            TokenType::EqualEqual,
            TokenType::Whitespace,
            TokenType::Less,
            TokenType::Whitespace,
            TokenType::LessEqual,
            TokenType::Whitespace,
            TokenType::Greater,
            TokenType::Whitespace,
            TokenType::GreaterEqual,
        ]
    );
}

#[test]
fn keyword_table_is_exact() {
    let source = "and class else false fun for if nil or print return super this true var while";
    let tokens = significant_tokens(&lex(source));
    let expected = vec![
        KeywordType::And,
        KeywordType::Class,
        KeywordType::Else,
        KeywordType::False,
        KeywordType::Fun,
        KeywordType::For,
        KeywordType::If,
        KeywordType::Nil,
        KeywordType::Or,
        KeywordType::Print,
        KeywordType::Return,
        KeywordType::Super,
        KeywordType::This,
        KeywordType::True,
        KeywordType::Var,
        KeywordType::While,
    ];
    assert_eq!(tokens.len(), expected.len());
    for (t, k) in tokens.iter().zip(expected.iter()) {
        assert_eq!(t.token_type, TokenType::Keyword(*k));
    }
    // Near-keywords stay identifiers.
    assert_eq!(kinds(&lex("printer")), vec![TokenType::Identifier]);
    assert_eq!(kinds(&lex("classy")), vec![TokenType::Identifier]);
}

#[test]
fn comment_runs_to_end_of_line() {
    let tokens = lex("1 // rest of line\n2");
    assert_eq!(
        kinds(&tokens),
        vec![
            TokenType::Number,
            TokenType::Whitespace,
            TokenType::Comment,
            TokenType::Whitespace,
            TokenType::Number,
        ]
    );
    // The comment does not swallow the line feed.
    assert_eq!(tokens[2].span.end, "1 // rest of line".len());
}

#[test]
fn string_literal_spans_include_quotes() {
    let tokens = lex("\"abc\"");
    assert_eq!(kinds(&tokens), vec![TokenType::StringLiteral]);
    assert_eq!(tokens[0].span.start, 0);
    assert_eq!(tokens[0].span.end, 5);
}

#[test]
fn unterminated_string_is_reported_and_scanning_ends() {
    let bytes: Vec<u8> = "\"abc".as_bytes().to_vec();
    let mut scanner = Scanner::new(&bytes);
    let tokens = scanner.tokenize();
    assert_eq!(kinds(&tokens), vec![TokenType::Unknown]);
    assert_eq!(tokens[0].span.start, 0);
    assert_eq!(tokens[0].span.end, 4);
    let errors = scanner.errors();
    assert_eq!(errors.len(), 1);
    assert_eq!(errors[0].message().as_str(), "Unterminated string");
    assert_eq!(errors[0].error_type(), ErrorType::ParseError);
}

#[test]
fn unexpected_character_is_reported_and_scanning_continues() {
    let bytes: Vec<u8> = "1 @ 2".as_bytes().to_vec();
    let mut scanner = Scanner::new(&bytes);
    let tokens = scanner.tokenize();
    assert_eq!(
        kinds(&tokens),
        vec![
            TokenType::Number,
            TokenType::Whitespace,
            TokenType::Unknown,
            TokenType::Whitespace,
            TokenType::Number,
        ]
    );
    let errors = scanner.errors();
    assert_eq!(errors.len(), 1);
    assert_eq!(errors[0].message().as_str(), "Unexpected character");
}

#[test]
fn multibyte_unknown_character_is_one_token() {
    // An identifier must start with an ASCII letter, so a leading accented
    // letter cannot begin any token: it becomes one Unknown token.
    let bytes: Vec<u8> = "é1".as_bytes().to_vec();
    let mut scanner = Scanner::new(&bytes);
    let tokens = scanner.tokenize();
    assert_eq!(kinds(&tokens), vec![TokenType::Unknown, TokenType::Number]);
    assert_eq!(tokens[0].span.end, 2);
}

#[test]
fn unicode_whitespace_joins_the_run() {
    // Space, no-break space (2 bytes), em space (3 bytes), space: one token.
    let source = "1 \u{00A0}\u{2003} 2";
    let bytes: Vec<u8> = source.as_bytes().to_vec();
    let mut scanner = Scanner::new(&bytes);
    let tokens = scanner.tokenize();
    assert_eq!(
        kinds(&tokens),
        vec![TokenType::Number, TokenType::Whitespace, TokenType::Number]
    );
    assert_eq!(tokens[1].span.start, 1);
    assert_eq!(tokens[1].span.end, 8);
    assert!(scanner.errors().is_empty());
}

#[test]
fn every_unicode_whitespace_character_lexes_as_whitespace() {
    let spaces = [
        '\u{0009}', '\u{000A}', '\u{000B}', '\u{000C}', '\u{000D}', '\u{0020}', '\u{0085}',
        '\u{00A0}', '\u{1680}', '\u{2000}', '\u{2001}', '\u{2002}', '\u{2003}', '\u{2004}',
        '\u{2005}', '\u{2006}', '\u{2007}', '\u{2008}', '\u{2009}', '\u{200A}', '\u{2028}',
        '\u{2029}', '\u{202F}', '\u{205F}', '\u{3000}',
    ];
    for c in spaces {
        assert!(c.is_whitespace(), "sample {:?} is not whitespace", c);
        let source = format!("1{}2", c);
        let bytes: Vec<u8> = source.as_bytes().to_vec();
        let mut scanner = Scanner::new(&bytes);
        let tokens = scanner.tokenize();
        assert_eq!(
            kinds(&tokens),
            vec![TokenType::Number, TokenType::Whitespace, TokenType::Number],
            "splitting on {:?}",
            c
        );
        assert_eq!(tokens[1].span.end - tokens[1].span.start, c.len_utf8());
        assert!(scanner.errors().is_empty(), "error on {:?}", c);
    }
}

#[test]
fn unicode_identifier_continuation() {
    // An ASCII letter starts the identifier; Unicode alphanumerics continue
    // it, exactly as char::is_alphanumeric classifies them.
    let tokens = lex("café");
    assert_eq!(kinds(&tokens), vec![TokenType::Identifier]);
    assert_eq!(tokens[0].span.end, 5);

    let tokens = lex("x1β2\u{4E2D}");
    assert_eq!(kinds(&tokens), vec![TokenType::Identifier]);
    assert_eq!(tokens[0].span.end, "x1β2\u{4E2D}".len());

    // A non-alphanumeric character still ends the run.
    let tokens = lex("caf\u{00A9}");
    assert_eq!(kinds(&tokens)[0], TokenType::Identifier);
    assert_eq!(tokens[0].span.end, 3);
}

#[test]
fn scan_token_hands_out_one_token_at_a_time() {
    let bytes: Vec<u8> = "1+2".as_bytes().to_vec();
    let mut scanner = Scanner::new(&bytes);
    let first = scanner.scan_token().unwrap();
    assert_eq!(first.token_type, TokenType::Number);
    let second = scanner.scan_token().unwrap();
    assert_eq!(second.token_type, TokenType::Plus);
    let third = scanner.scan_token().unwrap();
    assert_eq!(third.token_type, TokenType::Number);
    assert!(scanner.scan_token().is_none());
}

#[test]
fn as_string_recovers_the_lexeme() {
    let bytes: Vec<u8> = "print foo".as_bytes().to_vec();
    let mut scanner = Scanner::new(&bytes);
    let tokens = scanner.tokenize();
    assert_eq!(tokens[2].as_string(&bytes), b"foo".to_vec());
}

#[test]
fn span_new_holds_bounds() {
    let s = Span::new(1, 4);
    assert_eq!(s.start, 1);
    assert_eq!(s.end, 4);
}

#[test]
fn span_from_range() {
    let s = Span::from(2..7);
    assert_eq!(s.start, 2);
    assert_eq!(s.end, 7);
}
