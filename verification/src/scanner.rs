//! Lexical scanning: turns a source byte buffer into a finite sequence of
//! spanned tokens.
//!
//! Each call to [`Scanner::scan_token`] starts at the current byte offset and
//! returns exactly one token, or `None` at end of input. Lexical faults
//! (an unterminated string literal, an unexpected character) are recorded as
//! error values and scanning continues, so one pass can surface several
//! errors. The token stream is a pure function of the source bytes, given by
//! [`lex_spec`]; the recorded errors are given by [`lex_errors_spec`].
//!
//! Whitespace is any Unicode whitespace character: the White_Space set is
//! small and fixed, so its UTF-8 encodings are stated outright in
//! [`whitespace_len`] and consumed byte for byte. An identifier starts with
//! an ASCII letter and continues through any Unicode alphanumeric
//! character; the Unicode tables for that class are too large to state, so
//! the scanner decodes each candidate character itself and classifies the
//! scalar through [`unicode_alphanumeric`], the one point where this module
//! relies on the standard library's tables.
use vstd::prelude::*;

use crate::error::ErrorModel;
use crate::error::ErrorType;
use crate::error::LoxError;
use crate::error::error_models;
use crate::tokens::KeywordType;
use crate::tokens::Span;
use crate::tokens::Token;
use crate::tokens::TokenType;
use crate::tokens::copy_range;

verus! {

// The ASCII bytes the scanner dispatches on.
pub const QUOTE: u8 = 34;

pub const LEFT_PAREN: u8 = 40;

pub const RIGHT_PAREN: u8 = 41;

pub const LEFT_BRACE: u8 = 123;

pub const RIGHT_BRACE: u8 = 125;

pub const COMMA: u8 = 44;

pub const DOT: u8 = 46;

pub const MINUS: u8 = 45;

pub const PLUS: u8 = 43;

pub const SEMICOLON: u8 = 59;

pub const STAR: u8 = 42;

pub const SLASH: u8 = 47;

pub const BANG: u8 = 33;

pub const EQUAL: u8 = 61;

pub const LESS: u8 = 60;

pub const GREATER: u8 = 62;

pub const NEWLINE: u8 = 10;

/// True for the ASCII decimal digits `0` to `9`.
pub open spec fn is_digit(b: u8) -> bool {
    48 <= b <= 57
}

/// True for the ASCII letters `a` to `z` and `A` to `Z`.
pub open spec fn is_alpha(b: u8) -> bool {
    (65 <= b <= 90) || (97 <= b <= 122)
}

/// True for the ASCII letters and digits.
pub open spec fn is_alnum(b: u8) -> bool {
    is_digit(b) || is_alpha(b)
}

/// True for the ASCII whitespace bytes: space, tab, line feed, vertical tab,
/// form feed and carriage return.
pub open spec fn is_ascii_whitespace(b: u8) -> bool {
    b == 32 || (9 <= b <= 13)
}

/// True for a UTF-8 continuation byte (`10xxxxxx`).
pub open spec fn is_continuation(b: u8) -> bool {
    128 <= b <= 191
}

/// The byte length of the Unicode whitespace character starting at `pos`,
/// or 0 when none starts there: 1 for the ASCII whitespace bytes, and 2 or
/// 3 for the UTF-8 encodings of the remaining characters with the Unicode
/// White_Space property — U+0085 and U+00A0 (two bytes under the lead
/// `0xC2`), and U+1680, U+2000 to U+200A, U+2028, U+2029, U+202F, U+205F
/// and U+3000 (three bytes).
pub open spec fn whitespace_len(src: Seq<u8>, pos: nat) -> nat {
    if pos >= src.len() {
        0
    } else {
        let b0 = src[pos as int];
        if is_ascii_whitespace(b0) {
            1
        } else if b0 == 0xC2 && pos + 1 < src.len() && (src[pos as int + 1] == 0x85 || src[pos
            as int + 1] == 0xA0) {
            2
        } else if pos + 2 < src.len() {
            let b1 = src[pos as int + 1];
            let b2 = src[pos as int + 2];
            // U+1680 OGHAM SPACE MARK
            if b0 == 0xE1 && b1 == 0x9A && b2 == 0x80 {
                3
                // U+2000 to U+200A, U+2028, U+2029, U+202F
            } else if b0 == 0xE2 && b1 == 0x80 && ((0x80 <= b2 <= 0x8A) || b2 == 0xA8 || b2
                == 0xA9 || b2 == 0xAF) {
                3
                // U+205F MEDIUM MATHEMATICAL SPACE
            } else if b0 == 0xE2 && b1 == 0x81 && b2 == 0x9F {
                3
                // U+3000 IDEOGRAPHIC SPACE
            } else if b0 == 0xE3 && b1 == 0x80 && b2 == 0x80 {
                3
            } else {
                0
            }
        } else {
            0
        }
    }
}

/// The end of the maximal run of Unicode whitespace characters starting at
/// `pos`.
pub open spec fn whitespace_run_end(src: Seq<u8>, pos: nat) -> nat
    decreases src.len() - pos,
{
    let l = whitespace_len(src, pos);
    if l == 0 || pos + l > src.len() {
        pos
    } else {
        whitespace_run_end(src, pos + l)
    }
}

/// A whitespace run stays within the source, moves forward where a
/// whitespace character stands, and stops exactly at the first position
/// where no whitespace character starts.
pub proof fn lemma_whitespace_run(src: Seq<u8>, pos: nat)
    requires
        pos <= src.len(),
    ensures
        pos <= whitespace_run_end(src, pos) <= src.len(),
        whitespace_len(src, pos) > 0 ==> whitespace_run_end(src, pos) > pos,
        whitespace_len(src, whitespace_run_end(src, pos)) == 0,
    decreases src.len() - pos,
{
    let l = whitespace_len(src, pos);
    if l > 0 {
        lemma_whitespace_run(src, pos + l);
    }
}

/// Whether the Unicode scalar names an alphanumeric character, per the
/// Unicode tables; false for a value that is no scalar (a surrogate, or
/// above the maximum). Identifiers may continue with such characters.
pub uninterp spec fn unicode_alphanumeric(scalar: u32) -> bool;

/// Relies on char::is_alphanumeric: whether the scalar names an alphabetic
/// or numeric character is a fixed function of the scalar value alone, and
/// char::from_u32 rejects exactly the values that are no scalar.
#[verifier::external_body]
fn unicode_alphanumeric_check(scalar: u32) -> (r: bool)
    ensures
        r == unicode_alphanumeric(scalar),
{
    match char::from_u32(scalar) {
        Some(c) => c.is_alphanumeric(),
        None => false,
    }
}

/// The Unicode scalar a two-byte UTF-8 sequence encodes.
pub open spec fn scalar_2(b0: u8, b1: u8) -> u32 {
    (((b0 & 0x1F) as u32) << 6) | ((b1 & 0x3F) as u32)
}

/// The Unicode scalar a three-byte UTF-8 sequence encodes.
pub open spec fn scalar_3(b0: u8, b1: u8, b2: u8) -> u32 {
    (((b0 & 0x0F) as u32) << 12) | (((b1 & 0x3F) as u32) << 6) | ((b2 & 0x3F) as u32)
}

/// The Unicode scalar a four-byte UTF-8 sequence encodes.
pub open spec fn scalar_4(b0: u8, b1: u8, b2: u8, b3: u8) -> u32 {
    (((b0 & 0x07) as u32) << 18) | (((b1 & 0x3F) as u32) << 12) | (((b2 & 0x3F) as u32) << 6) | ((
    b3 & 0x3F) as u32)
}

/// The byte length of the identifier character starting at `pos`, or 0
/// when the identifier run stops there: ASCII letters and digits continue
/// it, and so does any UTF-8 encoded alphanumeric character.
pub open spec fn ident_len(src: Seq<u8>, pos: nat) -> nat {
    if pos >= src.len() {
        0
    } else {
        let b0 = src[pos as int];
        if is_alnum(b0) {
            1
        } else if 0xC0 <= b0 <= 0xDF {
            if pos + 1 < src.len() && is_continuation(src[pos as int + 1])
                && unicode_alphanumeric(scalar_2(b0, src[pos as int + 1])) {
                2
            } else {
                0
            }
        } else if 0xE0 <= b0 <= 0xEF {
            if pos + 2 < src.len() && is_continuation(src[pos as int + 1]) && is_continuation(
                src[pos as int + 2],
            ) && unicode_alphanumeric(scalar_3(b0, src[pos as int + 1], src[pos as int + 2])) {
                3
            } else {
                0
            }
        } else if 0xF0 <= b0 <= 0xF7 {
            if pos + 3 < src.len() && is_continuation(src[pos as int + 1]) && is_continuation(
                src[pos as int + 2],
            ) && is_continuation(src[pos as int + 3]) && unicode_alphanumeric(
                scalar_4(
                    b0,
                    src[pos as int + 1],
                    src[pos as int + 2],
                    src[pos as int + 3],
                ),
            ) {
                4
            } else {
                0
            }
        } else {
            0
        }
    }
}

/// The end of the maximal identifier run starting at `pos`.
pub open spec fn ident_run_end(src: Seq<u8>, pos: nat) -> nat
    decreases src.len() - pos,
{
    let l = ident_len(src, pos);
    if l == 0 || pos + l > src.len() {
        pos
    } else {
        ident_run_end(src, pos + l)
    }
}

/// An identifier run stays within the source, moves forward where an
/// identifier character stands, and stops exactly at the first position
/// where none starts.
pub proof fn lemma_ident_run(src: Seq<u8>, pos: nat)
    requires
        pos <= src.len(),
    ensures
        pos <= ident_run_end(src, pos) <= src.len(),
        ident_len(src, pos) > 0 ==> ident_run_end(src, pos) > pos,
        ident_len(src, ident_run_end(src, pos)) == 0,
    decreases src.len() - pos,
{
    let l = ident_len(src, pos);
    if l > 0 {
        lemma_ident_run(src, pos + l);
    }
}

/// How many continuation bytes a UTF-8 leading byte announces, so that an
/// unrecognized character is covered by a single token.
pub open spec fn utf8_extra(b: u8) -> nat {
    if 192 <= b <= 223 {
        1
    } else if 224 <= b <= 239 {
        2
    } else if 240 <= b <= 247 {
        3
    } else {
        0
    }
}

/// A class of bytes that a scan step consumes a maximal run of.
#[derive(Copy, Clone, Debug, PartialEq, Eq, Structural)]
pub enum ByteClass {
    /// ASCII decimal digits.
    Digit,
    /// Everything but the closing quote of a string literal.
    NotQuote,
    /// Everything but the line feed that ends a comment.
    NotNewline,
}

impl ByteClass {
    /// Whether the byte belongs to the class.
    pub open spec fn apply(self, b: u8) -> bool {
        match self {
            ByteClass::Digit => is_digit(b),
            ByteClass::NotQuote => b != QUOTE,
            ByteClass::NotNewline => b != NEWLINE,
        }
    }

    /// Executable test for class membership.
    pub fn test(self, b: u8) -> (r: bool)
        ensures
            r == self.apply(b),
    {
        match self {
            ByteClass::Digit => 48 <= b && b <= 57,
            ByteClass::NotQuote => b != QUOTE,
            ByteClass::NotNewline => b != NEWLINE,
        }
    }
}

/// The first position at or after `pos` whose byte is not in `cls`, or the
/// end of the source: the end of the maximal run of `cls` bytes.
pub open spec fn run_end(src: Seq<u8>, pos: nat, cls: ByteClass) -> nat
    decreases src.len() - pos,
{
    if pos >= src.len() || !cls.apply(src[pos as int]) {
        pos
    } else {
        run_end(src, pos + 1, cls)
    }
}

/// The maximal run of `cls` bytes ends within the source, after only `cls`
/// bytes, and at the end every byte of the run is in the class.
pub proof fn lemma_run_end(src: Seq<u8>, pos: nat, cls: ByteClass)
    requires
        pos <= src.len(),
    ensures
        pos <= run_end(src, pos, cls) <= src.len(),
        forall|j: int| pos <= j < run_end(src, pos, cls) ==> cls.apply(src[j]),
        run_end(src, pos, cls) < src.len() ==> !cls.apply(src[run_end(src, pos, cls) as int]),
    decreases src.len() - pos,
{
    if pos < src.len() && cls.apply(src[pos as int]) {
        lemma_run_end(src, pos + 1, cls);
    }
}

/// The end of a run of at most `extra` continuation bytes starting at `pos`.
pub open spec fn cont_end(src: Seq<u8>, pos: nat, extra: nat) -> nat
    decreases extra,
{
    if extra == 0 || pos >= src.len() || !is_continuation(src[pos as int]) {
        pos
    } else {
        cont_end(src, pos + 1, (extra - 1) as nat)
    }
}

pub proof fn lemma_cont_end(src: Seq<u8>, pos: nat, extra: nat)
    requires
        pos <= src.len(),
    ensures
        pos <= cont_end(src, pos, extra) <= src.len(),
    decreases extra,
{
    if extra > 0 && pos < src.len() && is_continuation(src[pos as int]) {
        lemma_cont_end(src, pos + 1, (extra - 1) as nat);
    }
}

/// The fixed keyword table: maps an identifier lexeme to its keyword token
/// category, or to `Identifier` when the lexeme is not one of the sixteen
/// keywords (`and`, `class`, `else`, `false`, `fun`, `for`, `if`, `nil`,
/// `or`, `print`, `return`, `super`, `this`, `true`, `var`, `while`).
pub open spec fn keyword_lookup(s: Seq<u8>) -> TokenType {
    // "and"
    if s.len() == 3 && s[0] == 97 && s[1] == 110 && s[2] == 100 {
        TokenType::Keyword(KeywordType::And)
        // "class"
    } else if s.len() == 5 && s[0] == 99 && s[1] == 108 && s[2] == 97 && s[3] == 115 && s[4]
        == 115 {
        TokenType::Keyword(KeywordType::Class)
        // "else"
    } else if s.len() == 4 && s[0] == 101 && s[1] == 108 && s[2] == 115 && s[3] == 101 {
        TokenType::Keyword(KeywordType::Else)
        // "false"
    } else if s.len() == 5 && s[0] == 102 && s[1] == 97 && s[2] == 108 && s[3] == 115 && s[4]
        == 101 {
        TokenType::Keyword(KeywordType::False)
        // "fun"
    } else if s.len() == 3 && s[0] == 102 && s[1] == 117 && s[2] == 110 {
        TokenType::Keyword(KeywordType::Fun)
        // "for"
    } else if s.len() == 3 && s[0] == 102 && s[1] == 111 && s[2] == 114 {
        TokenType::Keyword(KeywordType::For)
        // "if"
    } else if s.len() == 2 && s[0] == 105 && s[1] == 102 {
        TokenType::Keyword(KeywordType::If)
        // "nil"
    } else if s.len() == 3 && s[0] == 110 && s[1] == 105 && s[2] == 108 {
        TokenType::Keyword(KeywordType::Nil)
        // "or"
    } else if s.len() == 2 && s[0] == 111 && s[1] == 114 {
        TokenType::Keyword(KeywordType::Or)
        // "print"
    } else if s.len() == 5 && s[0] == 112 && s[1] == 114 && s[2] == 105 && s[3] == 110 && s[4]
        == 116 {
        TokenType::Keyword(KeywordType::Print)
        // "return"
    } else if s.len() == 6 && s[0] == 114 && s[1] == 101 && s[2] == 116 && s[3] == 117 && s[4]
        == 114 && s[5] == 110 {
        TokenType::Keyword(KeywordType::Return)
        // "super"
    } else if s.len() == 5 && s[0] == 115 && s[1] == 117 && s[2] == 112 && s[3] == 101 && s[4]
        == 114 {
        TokenType::Keyword(KeywordType::Super)
        // "this"
    } else if s.len() == 4 && s[0] == 116 && s[1] == 104 && s[2] == 105 && s[3] == 115 {
        TokenType::Keyword(KeywordType::This)
        // "true"
    } else if s.len() == 4 && s[0] == 116 && s[1] == 114 && s[2] == 117 && s[3] == 101 {
        TokenType::Keyword(KeywordType::True)
        // "var"
    } else if s.len() == 3 && s[0] == 118 && s[1] == 97 && s[2] == 114 {
        TokenType::Keyword(KeywordType::Var)
        // "while"
    } else if s.len() == 5 && s[0] == 119 && s[1] == 104 && s[2] == 105 && s[3] == 108 && s[4]
        == 101 {
        TokenType::Keyword(KeywordType::While)
    } else {
        TokenType::Identifier
    }
}

/// Looks the lexeme up in the fixed keyword table.
pub fn keyword_or_identifier(text: &Vec<u8>) -> (r: TokenType)
    ensures
        r == keyword_lookup(text@),
{
    let s = text;
    if s.len() == 3 && s[0] == 97 && s[1] == 110 && s[2] == 100 {
        TokenType::Keyword(KeywordType::And)
    } else if s.len() == 5 && s[0] == 99 && s[1] == 108 && s[2] == 97 && s[3] == 115 && s[4]
        == 115 {
        TokenType::Keyword(KeywordType::Class)
    } else if s.len() == 4 && s[0] == 101 && s[1] == 108 && s[2] == 115 && s[3] == 101 {
        TokenType::Keyword(KeywordType::Else)
    } else if s.len() == 5 && s[0] == 102 && s[1] == 97 && s[2] == 108 && s[3] == 115 && s[4]
        == 101 {
        TokenType::Keyword(KeywordType::False)
    } else if s.len() == 3 && s[0] == 102 && s[1] == 117 && s[2] == 110 {
        TokenType::Keyword(KeywordType::Fun)
    } else if s.len() == 3 && s[0] == 102 && s[1] == 111 && s[2] == 114 {
        TokenType::Keyword(KeywordType::For)
    } else if s.len() == 2 && s[0] == 105 && s[1] == 102 {
        TokenType::Keyword(KeywordType::If)
    } else if s.len() == 3 && s[0] == 110 && s[1] == 105 && s[2] == 108 {
        TokenType::Keyword(KeywordType::Nil)
    } else if s.len() == 2 && s[0] == 111 && s[1] == 114 {
        TokenType::Keyword(KeywordType::Or)
    } else if s.len() == 5 && s[0] == 112 && s[1] == 114 && s[2] == 105 && s[3] == 110 && s[4]
        == 116 {
        TokenType::Keyword(KeywordType::Print)
    } else if s.len() == 6 && s[0] == 114 && s[1] == 101 && s[2] == 116 && s[3] == 117 && s[4]
        == 114 && s[5] == 110 {
        TokenType::Keyword(KeywordType::Return)
    } else if s.len() == 5 && s[0] == 115 && s[1] == 117 && s[2] == 112 && s[3] == 101 && s[4]
        == 114 {
        TokenType::Keyword(KeywordType::Super)
    } else if s.len() == 4 && s[0] == 116 && s[1] == 104 && s[2] == 105 && s[3] == 115 {
        TokenType::Keyword(KeywordType::This)
    } else if s.len() == 4 && s[0] == 116 && s[1] == 114 && s[2] == 117 && s[3] == 101 {
        TokenType::Keyword(KeywordType::True)
    } else if s.len() == 3 && s[0] == 118 && s[1] == 97 && s[2] == 114 {
        TokenType::Keyword(KeywordType::Var)
    } else if s.len() == 5 && s[0] == 119 && s[1] == 104 && s[2] == 105 && s[3] == 108 && s[4]
        == 101 {
        TokenType::Keyword(KeywordType::While)
    } else {
        TokenType::Identifier
    }
}

/// One step of the scanner: the token produced, the position the scanner
/// stands at afterwards, and the lexical error recorded by the step, if any.
pub struct ScanStep {
    pub token: Token,
    pub next: nat,
    pub error: Option<ErrorModel>,
}

/// A step that produces a token of category `tt` spanning `[pos, next)` and
/// records no error.
pub open spec fn plain_step(tt: TokenType, pos: nat, next: nat) -> ScanStep {
    ScanStep {
        token: Token { token_type: tt, span: Span { start: pos as usize, end: next as usize } },
        next,
        error: None,
    }
}

/// A step for an operator that is `two` when followed by `=` and `one`
/// otherwise.
pub open spec fn operator_step(src: Seq<u8>, pos: nat, one: TokenType, two: TokenType) -> ScanStep {
    if pos + 1 < src.len() && src[pos as int + 1] == EQUAL {
        plain_step(two, pos, pos + 2)
    } else {
        plain_step(one, pos, pos + 1)
    }
}

/// A string literal: from the opening quote to the closing quote, both
/// included. Reaching the end of input first is a lexical error; the step
/// then covers the rest of the input with an `Unknown` token.
pub open spec fn string_step(src: Seq<u8>, pos: nat) -> ScanStep {
    let close = run_end(src, pos + 1, ByteClass::NotQuote);
    if close < src.len() {
        plain_step(TokenType::StringLiteral, pos, close + 1)
    } else {
        ScanStep {
            token: Token {
                token_type: TokenType::Unknown,
                span: Span { start: pos as usize, end: src.len() as usize },
            },
            next: src.len(),
            error: Some(
                ErrorModel {
                    span: Span { start: pos as usize, end: src.len() as usize },
                    message: "Unterminated string"@,
                    error_type: ErrorType::ParseError,
                },
            ),
        }
    }
}

/// A number literal: a maximal digit run, optionally followed by a dot and
/// another maximal digit run. A trailing dot with no digit after it is left
/// for the next token.
pub open spec fn number_step(src: Seq<u8>, pos: nat) -> ScanStep {
    let i = run_end(src, pos + 1, ByteClass::Digit);
    if i < src.len() && src[i as int] == DOT && i + 1 < src.len() && is_digit(
        src[i as int + 1],
    ) {
        plain_step(TokenType::Number, pos, run_end(src, i + 1, ByteClass::Digit))
    } else {
        plain_step(TokenType::Number, pos, i)
    }
}

/// A whitespace element never reaches past the end of the source.
pub proof fn lemma_whitespace_len_bounds(src: Seq<u8>, pos: nat)
    requires
        pos <= src.len(),
    ensures
        pos + whitespace_len(src, pos) <= src.len(),
{
}

/// An identifier element never reaches past the end of the source.
pub proof fn lemma_ident_len_bounds(src: Seq<u8>, pos: nat)
    requires
        pos <= src.len(),
    ensures
        pos + ident_len(src, pos) <= src.len(),
{
}

/// An identifier or keyword: started by an ASCII letter, continued by a
/// maximal run of alphanumeric characters, and looked up in the keyword
/// table.
pub open spec fn identifier_step(src: Seq<u8>, pos: nat) -> ScanStep {
    let i = ident_run_end(src, pos);
    plain_step(keyword_lookup(src.subrange(pos as int, i as int)), pos, i)
}

/// A comment: two slashes through the end of the line; the line feed itself
/// is not consumed.
pub open spec fn comment_step(src: Seq<u8>, pos: nat) -> ScanStep {
    plain_step(TokenType::Comment, pos, run_end(src, pos + 1, ByteClass::NotNewline))
}

/// An unexpected character: the leading byte together with its UTF-8
/// continuation bytes becomes one `Unknown` token, and the step records an
/// error.
pub open spec fn unknown_step(src: Seq<u8>, pos: nat) -> ScanStep {
    let b = src[pos as int];
    let end = cont_end(src, pos + 1, utf8_extra(b));
    ScanStep {
        token: Token {
            token_type: TokenType::Unknown,
            span: Span { start: pos as usize, end: end as usize },
        },
        next: end,
        error: Some(
            ErrorModel {
                span: Span { start: pos as usize, end: end as usize },
                message: "Unexpected character"@,
                error_type: ErrorType::ParseError,
            },
        ),
    }
}

/// What one call to [`Scanner::scan_token`] does at position `pos` of `src`:
/// `None` at end of input, otherwise exactly one token, by single-character
/// dispatch with one-character lookahead for the two-character operators.
pub open spec fn scan_token_spec(src: Seq<u8>, pos: nat) -> Option<ScanStep> {
    if pos >= src.len() {
        None
    } else {
        let b = src[pos as int];
        Some(
            if b == QUOTE {
                string_step(src, pos)
            } else if is_digit(b) {
                number_step(src, pos)
            } else if is_alpha(b) {
                identifier_step(src, pos)
            } else if whitespace_len(src, pos) > 0 {
                plain_step(TokenType::Whitespace, pos, whitespace_run_end(src, pos))
            } else if b == LEFT_PAREN {
                plain_step(TokenType::LeftParen, pos, pos + 1)
            } else if b == RIGHT_PAREN {
                plain_step(TokenType::RightParen, pos, pos + 1)
            } else if b == LEFT_BRACE {
                plain_step(TokenType::LeftBrace, pos, pos + 1)
            } else if b == RIGHT_BRACE {
                plain_step(TokenType::RightBrace, pos, pos + 1)
            } else if b == COMMA {
                plain_step(TokenType::Comma, pos, pos + 1)
            } else if b == DOT {
                plain_step(TokenType::Dot, pos, pos + 1)
            } else if b == MINUS {
                plain_step(TokenType::Minus, pos, pos + 1)
            } else if b == PLUS {
                plain_step(TokenType::Plus, pos, pos + 1)
            } else if b == SEMICOLON {
                plain_step(TokenType::Semicolon, pos, pos + 1)
            } else if b == STAR {
                plain_step(TokenType::Star, pos, pos + 1)
            } else if b == BANG {
                operator_step(src, pos, TokenType::Bang, TokenType::BangEqual)
            } else if b == EQUAL {
                operator_step(src, pos, TokenType::Equal, TokenType::EqualEqual)
            } else if b == LESS {
                operator_step(src, pos, TokenType::Less, TokenType::LessEqual)
            } else if b == GREATER {
                operator_step(src, pos, TokenType::Greater, TokenType::GreaterEqual)
            } else if b == SLASH {
                if pos + 1 < src.len() && src[pos as int + 1] == SLASH {
                    comment_step(src, pos)
                } else {
                    plain_step(TokenType::Slash, pos, pos + 1)
                }
            } else {
                unknown_step(src, pos)
            },
        )
    }
}

/// Every scan step consumes at least one byte and stays within the source,
/// and the token's span is exactly the consumed range.
pub proof fn lemma_scan_step_bounds(src: Seq<u8>, pos: nat)
    requires
        pos < src.len(),
    ensures
        scan_token_spec(src, pos) is Some,
        pos < scan_token_spec(src, pos)->Some_0.next <= src.len(),
        scan_token_spec(src, pos)->Some_0.token.span == (Span {
            start: pos as usize,
            end: scan_token_spec(src, pos)->Some_0.next as usize,
        }),
{
    let b = src[pos as int];
    if b == QUOTE {
        lemma_run_end(src, pos + 1, ByteClass::NotQuote);
    } else if is_digit(b) {
        lemma_run_end(src, pos + 1, ByteClass::Digit);
        let i = run_end(src, pos + 1, ByteClass::Digit);
        if i < src.len() && src[i as int] == DOT && i + 1 < src.len() && is_digit(
            src[i as int + 1],
        ) {
            lemma_run_end(src, i + 1, ByteClass::Digit);
            assert(run_end(src, i + 1, ByteClass::Digit) >= i + 1);
        }
    } else if is_alpha(b) {
        lemma_ident_run(src, pos);
        assert(ident_len(src, pos) == 1);
    } else if whitespace_len(src, pos) > 0 {
        lemma_whitespace_run(src, pos);
    } else if b == SLASH && pos + 1 < src.len() && src[pos as int + 1] == SLASH {
        lemma_run_end(src, pos + 1, ByteClass::NotNewline);
        assert(run_end(src, pos + 1, ByteClass::NotNewline) >= pos + 1);
    } else {
        lemma_cont_end(src, pos + 1, utf8_extra(b));
    }
}

/// The whole token sequence of the source from position `pos` on: the
/// scanner applied until end of input.
pub open spec fn lex_spec(src: Seq<u8>, pos: nat) -> Seq<Token>
    decreases src.len() - pos,
{
    match scan_token_spec(src, pos) {
        None => Seq::empty(),
        Some(st) => {
            if pos < st.next <= src.len() {
                seq![st.token] + lex_spec(src, st.next)
            } else {
                seq![st.token]
            }
        },
    }
}

/// The lexical errors recorded while scanning the source from `pos` on, in
/// the order they are found.
pub open spec fn lex_errors_spec(src: Seq<u8>, pos: nat) -> Seq<ErrorModel>
    decreases src.len() - pos,
{
    match scan_token_spec(src, pos) {
        None => Seq::empty(),
        Some(st) => {
            let here = match st.error {
                None => Seq::<ErrorModel>::empty(),
                Some(e) => seq![e],
            };
            if pos < st.next <= src.len() {
                here + lex_errors_spec(src, st.next)
            } else {
                here
            }
        },
    }
}

/// The byte length of the Unicode whitespace character starting at `pos`,
/// or 0.
fn whitespace_len_at(source: &Vec<u8>, pos: usize) -> (l: usize)
    requires
        pos <= source@.len(),
    ensures
        l as nat == whitespace_len(source@, pos as nat),
{
    let n = source.len();
    if pos >= n {
        return 0;
    }
    let remaining = n - pos;
    let b0 = source[pos];
    if b0 == 32 || (9 <= b0 && b0 <= 13) {
        1
    } else if b0 == 0xC2 && remaining >= 3 - 1 && (source[pos + 1] == 0x85 || source[pos + 1]
        == 0xA0) {
        2
    } else if remaining >= 3 {
        let b1 = source[pos + 1];
        let b2 = source[pos + 2];
        if b0 == 0xE1 && b1 == 0x9A && b2 == 0x80 {
            3
        } else if b0 == 0xE2 && b1 == 0x80 && ((0x80 <= b2 && b2 <= 0x8A) || b2 == 0xA8 || b2
            == 0xA9 || b2 == 0xAF) {
            3
        } else if b0 == 0xE2 && b1 == 0x81 && b2 == 0x9F {
            3
        } else if b0 == 0xE3 && b1 == 0x80 && b2 == 0x80 {
            3
        } else {
            0
        }
    } else {
        0
    }
}

/// The byte length of the identifier character starting at `pos`, or 0;
/// multibyte characters are decoded and classified by the Unicode tables.
fn ident_len_at(source: &Vec<u8>, pos: usize) -> (l: usize)
    requires
        pos <= source@.len(),
    ensures
        l as nat == ident_len(source@, pos as nat),
{
    let n = source.len();
    if pos >= n {
        return 0;
    }
    let remaining = n - pos;
    let b0 = source[pos];
    if (48 <= b0 && b0 <= 57) || (65 <= b0 && b0 <= 90) || (97 <= b0 && b0 <= 122) {
        1
    } else if 0xC0 <= b0 && b0 <= 0xDF {
        if remaining >= 2 && 128 <= source[pos + 1] && source[pos + 1] <= 191 {
            let scalar = (((b0 & 0x1F) as u32) << 6u32) | ((source[pos + 1] & 0x3F) as u32);
            if unicode_alphanumeric_check(scalar) {
                return 2;
            }
        }
        0
    } else if 0xE0 <= b0 && b0 <= 0xEF {
        if remaining >= 3 && 128 <= source[pos + 1] && source[pos + 1] <= 191 && 128
            <= source[pos + 2] && source[pos + 2] <= 191 {
            let scalar = (((b0 & 0x0F) as u32) << 12u32) | (((source[pos + 1] & 0x3F) as u32)
                << 6u32) | ((source[pos + 2] & 0x3F) as u32);
            if unicode_alphanumeric_check(scalar) {
                return 3;
            }
        }
        0
    } else if 0xF0 <= b0 && b0 <= 0xF7 {
        if remaining >= 4 && 128 <= source[pos + 1] && source[pos + 1] <= 191 && 128
            <= source[pos + 2] && source[pos + 2] <= 191 && 128 <= source[pos + 3] && source[pos
            + 3] <= 191 {
            let scalar = (((b0 & 0x07) as u32) << 18u32) | (((source[pos + 1] & 0x3F) as u32)
                << 12u32) | (((source[pos + 2] & 0x3F) as u32) << 6u32) | ((source[pos + 3]
                & 0x3F) as u32);
            if unicode_alphanumeric_check(scalar) {
                return 4;
            }
        }
        0
    } else {
        0
    }
}

/// A position in the source buffer together with primitive cursor moves:
/// single-byte advance, one- and two-byte lookahead, and maximal-run
/// skipping.
#[derive(Debug)]
pub struct Cursor<'a> {
    /// The source buffer the cursor walks.
    pub source: &'a Vec<u8>,
    /// The current byte offset.
    pub byte_pos: usize,
}

impl<'a> Cursor<'a> {
    /// The cursor never stands past the end of the source.
    pub closed spec fn wf(self) -> bool {
        self.byte_pos <= self.source@.len()
    }

    /// Consumes and returns the byte at the current position, or `None` at
    /// end of input.
    pub fn advance(&mut self) -> (r: Option<u8>)
        requires
            old(self).wf(),
        ensures
            final(self).wf(),
            final(self).source == old(self).source,
            old(self).byte_pos < old(self).source@.len() ==> r == Some(
                old(self).source@[old(self).byte_pos as int],
            ) && final(self).byte_pos == old(self).byte_pos + 1,
            old(self).byte_pos >= old(self).source@.len() ==> r == None::<u8> && final(self).byte_pos == old(self).byte_pos,
    {
        if self.byte_pos < self.source.len() {
            let b = self.source[self.byte_pos];
            self.byte_pos = self.byte_pos + 1;
            Some(b)
        } else {
            None
        }
    }

    /// The byte at the current position, without consuming it.
    pub fn peek(&self) -> (r: Option<u8>)
        requires
            self.wf(),
        ensures
            self.byte_pos < self.source@.len() ==> r == Some(self.source@[self.byte_pos as int]),
            self.byte_pos >= self.source@.len() ==> r == None::<u8>,
    {
        if self.byte_pos < self.source.len() {
            Some(self.source[self.byte_pos])
        } else {
            None
        }
    }

    /// The byte one past the current position, without consuming anything.
    pub fn peek_two(&self) -> (r: Option<u8>)
        requires
            self.wf(),
        ensures
            self.byte_pos + 1 < self.source@.len() ==> r == Some(
                self.source@[self.byte_pos as int + 1],
            ),
            self.byte_pos + 1 >= self.source@.len() ==> r == None::<u8>,
    {
        if self.byte_pos < self.source.len() && self.byte_pos + 1 < self.source.len() {
            Some(self.source[self.byte_pos + 1])
        } else {
            None
        }
    }

    /// Consumes the maximal run of bytes of the class, leaving the cursor at
    /// the first byte outside it.
    pub fn skip_while(&mut self, cls: ByteClass)
        requires
            old(self).wf(),
        ensures
            final(self).wf(),
            final(self).source == old(self).source,
            final(self).byte_pos as nat == run_end(
                old(self).source@,
                old(self).byte_pos as nat,
                cls,
            ),
    {
        loop
            invariant
                self.wf(),
                self.source == old(self).source,
                run_end(self.source@, self.byte_pos as nat, cls) == run_end(
                    old(self).source@,
                    old(self).byte_pos as nat,
                    cls,
                ),
            decreases self.source@.len() - self.byte_pos,
        {
            if self.byte_pos < self.source.len() {
                let b = self.source[self.byte_pos];
                if cls.test(b) {
                    self.byte_pos = self.byte_pos + 1;
                } else {
                    return ;
                }
            } else {
                return ;
            }
        }
    }

    /// Consumes the next byte exactly when it equals `expected`.
    fn advance_if(&mut self, expected: u8) -> (r: bool)
        requires
            old(self).wf(),
        ensures
            final(self).wf(),
            final(self).source == old(self).source,
            r == (old(self).byte_pos < old(self).source@.len() && old(self).source@[old(self).byte_pos as int] == expected),
            r ==> final(self).byte_pos == old(self).byte_pos + 1,
            !r ==> final(self).byte_pos == old(self).byte_pos,
    {
        if self.byte_pos < self.source.len() && self.source[self.byte_pos] == expected {
            self.byte_pos = self.byte_pos + 1;
            true
        } else {
            false
        }
    }
}

/// The scanner: a cursor over the source together with the lexical errors
/// recorded so far.
#[derive(Debug)]
pub struct Scanner<'a> {
    source: &'a Vec<u8>,
    cursor: Cursor<'a>,
    errors: Vec<LoxError>,
}

impl<'a> Scanner<'a> {
    /// The cursor walks this scanner's source and stands within it.
    pub closed spec fn wf(self) -> bool {
        self.cursor.source == self.source && self.cursor.wf()
    }

    /// The source buffer being scanned.
    pub closed spec fn src(self) -> Seq<u8> {
        self.source@
    }

    /// The current byte offset.
    pub closed spec fn pos(self) -> nat {
        self.cursor.byte_pos as nat
    }

    /// The lexical errors recorded so far.
    pub closed spec fn errs(self) -> Seq<ErrorModel> {
        error_models(self.errors@)
    }

    /// A fresh scanner at the start of the source.
    pub fn new(source: &'a Vec<u8>) -> (s: Scanner<'a>)
        ensures
            s.wf(),
            s.src() == source@,
            s.pos() == 0,
            s.errs() == Seq::<ErrorModel>::empty(),
    {
        let s = Scanner { source, cursor: Cursor { source, byte_pos: 0 }, errors: Vec::new() };
        proof {
            assert(s.errs() =~= Seq::<ErrorModel>::empty());
        }
        s
    }

    /// The lexical errors recorded so far, oldest first.
    pub fn errors(&self) -> (r: &Vec<LoxError>)
        ensures
            error_models(r@) == self.errs(),
    {
        &self.errors
    }

    /// Scans exactly one token starting at the current offset, or returns
    /// `None` at end of input. A lexical fault is recorded in the error list
    /// and scanning can go on afterwards.
    pub fn scan_token(&mut self) -> (t: Option<Token>)
        requires
            old(self).wf(),
        ensures
            final(self).wf(),
            final(self).src() == old(self).src(),
            match scan_token_spec(old(self).src(), old(self).pos()) {
                None => t == None::<Token> && final(self).pos() == old(self).pos() && final(self).errs() == old(self).errs(),
                Some(st) => t == Some(st.token) && final(self).pos() == st.next && final(self).errs() == match st.error {
                    None => old(self).errs(),
                    Some(e) => old(self).errs().push(e),
                },
            },
    {
        let start = self.cursor.byte_pos;
        let b = match self.cursor.advance() {
            None => {
                return None;
            },
            Some(b) => b,
        };
        let token_type = if b == QUOTE {
            self.string(start)
        } else if ByteClass::Digit.test(b) {
            self.number(start)
        } else if (65 <= b && b <= 90) || (97 <= b && b <= 122) {
            self.identifier_or_keyword(start)
        } else if whitespace_len_at(self.source, start) > 0 {
            self.whitespace(start)
        } else if b == LEFT_PAREN {
            TokenType::LeftParen
        } else if b == RIGHT_PAREN {
            TokenType::RightParen
        } else if b == LEFT_BRACE {
            TokenType::LeftBrace
        } else if b == RIGHT_BRACE {
            TokenType::RightBrace
        } else if b == COMMA {
            TokenType::Comma
        } else if b == DOT {
            TokenType::Dot
        } else if b == MINUS {
            TokenType::Minus
        } else if b == PLUS {
            TokenType::Plus
        } else if b == SEMICOLON {
            TokenType::Semicolon
        } else if b == STAR {
            TokenType::Star
        } else if b == BANG {
            if self.cursor.advance_if(EQUAL) {
                TokenType::BangEqual
            } else {
                TokenType::Bang
            }
        } else if b == EQUAL {
            if self.cursor.advance_if(EQUAL) {
                TokenType::EqualEqual
            } else {
                TokenType::Equal
            }
        } else if b == LESS {
            if self.cursor.advance_if(EQUAL) {
                TokenType::LessEqual
            } else {
                TokenType::Less
            }
        } else if b == GREATER {
            if self.cursor.advance_if(EQUAL) {
                TokenType::GreaterEqual
            } else {
                TokenType::Greater
            }
        } else if b == SLASH {
            let second_slash = match self.cursor.peek() {
                Some(n) => n == SLASH,
                None => false,
            };
            if second_slash {
                // A comment runs to the end of the line.
                self.cursor.skip_while(ByteClass::NotNewline);
                TokenType::Comment
            } else {
                TokenType::Slash
            }
        } else {
            self.unknown(start, b)
        };
        let span = Span { start, end: self.cursor.byte_pos };
        Some(Token { token_type, span })
    }

    /// Scans the rest of a string literal, the opening quote already
    /// consumed. Reaching end of input without the closing quote records an
    /// unterminated-string error and yields an `Unknown` token.
    fn string(&mut self, start: usize) -> (tt: TokenType)
        requires
            old(self).wf(),
            start < old(self).src().len(),
            old(self).src()[start as int] == QUOTE,
            old(self).pos() == start + 1,
        ensures
            final(self).wf(),
            final(self).source == old(self).source,
            ({
                let st = string_step(old(self).src(), start as nat);
                tt == st.token.token_type && final(self).pos() == st.next && final(self).errs()
                    == match st.error {
                    None => old(self).errs(),
                    Some(e) => old(self).errs().push(e),
                }
            }),
    {
        proof {
            lemma_run_end(self.src(), start as nat + 1, ByteClass::NotQuote);
        }
        self.cursor.skip_while(ByteClass::NotQuote);
        match self.cursor.peek() {
            Some(_) => {
                // The closing quote.
                self.cursor.advance();
                TokenType::StringLiteral
            },
            None => {
                let e = LoxError::error(
                    Span { start, end: self.cursor.byte_pos },
                    "Unterminated string",
                    ErrorType::ParseError,
                );
                let ghost em = e@;
                self.errors.push(e);
                proof {
                    assert(self.errs() =~= old(self).errs().push(em));
                }
                TokenType::Unknown
            },
        }
    }

    /// Scans the rest of a number literal, the first digit already consumed:
    /// a maximal digit run, then optionally a dot followed by another digit
    /// run. A trailing dot is left for the next token.
    fn number(&mut self, start: usize) -> (tt: TokenType)
        requires
            old(self).wf(),
            start < old(self).src().len(),
            is_digit(old(self).src()[start as int]),
            old(self).pos() == start + 1,
        ensures
            final(self).wf(),
            final(self).source == old(self).source,
            final(self).errs() == old(self).errs(),
            tt == TokenType::Number,
            final(self).pos() == number_step(old(self).src(), start as nat).next,
    {
        proof {
            lemma_run_end(self.src(), start as nat + 1, ByteClass::Digit);
        }
        self.cursor.skip_while(ByteClass::Digit);
        let has_fraction = match self.cursor.peek() {
            Some(d) if d == DOT => {
                match self.cursor.peek_two() {
                    Some(n) => ByteClass::Digit.test(n),
                    None => false,
                }
            },
            _ => false,
        };
        if has_fraction {
            // The dot.
            self.cursor.advance();
            proof {
                lemma_run_end(self.src(), self.pos(), ByteClass::Digit);
            }
            self.cursor.skip_while(ByteClass::Digit);
        }
        TokenType::Number
    }

    /// Scans the rest of an identifier, the first letter already consumed,
    /// and classifies the lexeme with the keyword table.
    fn identifier_or_keyword(&mut self, start: usize) -> (tt: TokenType)
        requires
            old(self).wf(),
            start < old(self).src().len(),
            is_alpha(old(self).src()[start as int]),
            old(self).pos() == start + 1,
        ensures
            final(self).wf(),
            final(self).source == old(self).source,
            final(self).errs() == old(self).errs(),
            ({
                let st = identifier_step(old(self).src(), start as nat);
                tt == st.token.token_type && final(self).pos() == st.next
            }),
    {
        proof {
            lemma_ident_run(self.src(), start as nat);
            assert(ident_len(self.src(), start as nat) == 1);
        }
        loop
            invariant
                self.wf(),
                self.source == old(self).source,
                self.errs() == old(self).errs(),
                start <= self.pos() <= self.src().len(),
                ident_run_end(self.src(), self.pos()) == ident_run_end(
                    old(self).src(),
                    start as nat,
                ),
            ensures
                ident_len(self.src(), self.pos()) == 0,
            decreases self.src().len() - self.pos(),
        {
            let l = ident_len_at(self.source, self.cursor.byte_pos);
            if l == 0 {
                break ;
            }
            let n = self.source.len();
            proof {
                lemma_ident_len_bounds(self.src(), self.pos());
                assert(self.pos() + l as nat <= n as nat);
            }
            self.cursor.byte_pos = self.cursor.byte_pos + l;
        }
        let text = copy_range(self.source, start, self.cursor.byte_pos);
        keyword_or_identifier(&text)
    }

    /// Consumes the maximal run of Unicode whitespace characters the byte
    /// just consumed belongs to.
    fn whitespace(&mut self, start: usize) -> (tt: TokenType)
        requires
            old(self).wf(),
            start < old(self).src().len(),
            whitespace_len(old(self).src(), start as nat) > 0,
            old(self).pos() == start + 1,
        ensures
            final(self).wf(),
            final(self).source == old(self).source,
            final(self).errs() == old(self).errs(),
            tt == TokenType::Whitespace,
            final(self).pos() == whitespace_run_end(old(self).src(), start as nat),
    {
        // The dispatch consumed one byte, but the first whitespace character
        // may be wider: measure elements from its start.
        self.cursor.byte_pos = start;
        loop
            invariant
                self.wf(),
                self.source == old(self).source,
                self.errs() == old(self).errs(),
                start <= self.pos() <= self.src().len(),
                whitespace_run_end(self.src(), self.pos()) == whitespace_run_end(
                    old(self).src(),
                    start as nat,
                ),
            ensures
                whitespace_len(self.src(), self.pos()) == 0,
            decreases self.src().len() - self.pos(),
        {
            let l = whitespace_len_at(self.source, self.cursor.byte_pos);
            if l == 0 {
                break ;
            }
            let n = self.source.len();
            proof {
                lemma_whitespace_len_bounds(self.src(), self.pos());
                assert(self.pos() + l as nat <= n as nat);
            }
            self.cursor.byte_pos = self.cursor.byte_pos + l;
        }
        TokenType::Whitespace
    }

    /// Consumes the continuation bytes of an unrecognized character and
    /// records an unexpected-character error.
    fn unknown(&mut self, start: usize, b: u8) -> (tt: TokenType)
        requires
            old(self).wf(),
            start < old(self).src().len(),
            old(self).src()[start as int] == b,
            old(self).pos() == start + 1,
        ensures
            final(self).wf(),
            final(self).source == old(self).source,
            ({
                let st = unknown_step(old(self).src(), start as nat);
                tt == st.token.token_type && final(self).pos() == st.next && final(self).errs()
                    == old(self).errs().push(st.error->Some_0)
            }),
    {
        let mut extra: usize = if 192 <= b && b <= 223 {
            1
        } else if 224 <= b && b <= 239 {
            2
        } else if 240 <= b && b <= 247 {
            3
        } else {
            0
        };
        while extra > 0
            invariant
                self.wf(),
                self.source == old(self).source,
                self.errs() == old(self).errs(),
                cont_end(self.src(), self.pos(), extra as nat) == cont_end(
                    old(self).src(),
                    start as nat + 1,
                    utf8_extra(b),
                ),
            decreases extra,
        {
            let more = match self.cursor.peek() {
                Some(c) => 128 <= c && c <= 191,
                None => false,
            };
            if more {
                self.cursor.advance();
                extra = extra - 1;
            } else {
                extra = 0;
            }
        }
        let e = LoxError::error(
            Span { start, end: self.cursor.byte_pos },
            "Unexpected character",
            ErrorType::ParseError,
        );
        let ghost em = e@;
        self.errors.push(e);
        proof {
            assert(self.errs() =~= old(self).errs().push(em));
        }
        TokenType::Unknown
    }

    /// Scans the whole rest of the source into a token vector. The result is
    /// a function of the source bytes and the starting offset alone, so two
    /// scanners over the same source yield identical token sequences.
    pub fn tokenize(&mut self) -> (tokens: Vec<Token>)
        requires
            old(self).wf(),
        ensures
            final(self).wf(),
            final(self).src() == old(self).src(),
            tokens@ == lex_spec(old(self).src(), old(self).pos()),
            final(self).errs() == old(self).errs() + lex_errors_spec(old(self).src(), old(self).pos()),
            final(self).pos() == old(self).src().len(),
    {
        let mut tokens: Vec<Token> = Vec::new();
        loop
            invariant
                self.wf(),
                self.src() == old(self).src(),
                tokens@ + lex_spec(self.src(), self.pos()) == lex_spec(
                    old(self).src(),
                    old(self).pos(),
                ),
                self.errs() + lex_errors_spec(self.src(), self.pos()) == old(self).errs()
                    + lex_errors_spec(old(self).src(), old(self).pos()),
            decreases self.src().len() - self.pos(),
        {
            proof {
                if self.pos() < self.src().len() {
                    lemma_scan_step_bounds(self.src(), self.pos());
                }
            }
            let ghost pre = *self;
            match self.scan_token() {
                None => {
                    proof {
                        assert(lex_spec(pre.src(), pre.pos()) =~= Seq::<Token>::empty());
                        assert(lex_errors_spec(pre.src(), pre.pos()) =~= Seq::<
                            ErrorModel,
                        >::empty());
                        assert(tokens@ =~= tokens@ + Seq::<Token>::empty());
                        assert(self.errs() =~= self.errs() + Seq::<ErrorModel>::empty());
                    }
                    return tokens;
                },
                Some(t) => {
                    tokens.push(t);
                    proof {
                        let st = scan_token_spec(pre.src(), pre.pos())->Some_0;
                        assert(lex_spec(pre.src(), pre.pos()) == seq![st.token] + lex_spec(
                            pre.src(),
                            st.next,
                        ));
                        assert(tokens@ + lex_spec(self.src(), self.pos()) =~= lex_spec(
                            old(self).src(),
                            old(self).pos(),
                        ));
                        assert(lex_errors_spec(pre.src(), pre.pos()) == (match st.error {
                            None => Seq::<ErrorModel>::empty(),
                            Some(e) => seq![e],
                        }) + lex_errors_spec(pre.src(), st.next));
                        assert(self.errs() + lex_errors_spec(self.src(), self.pos()) =~= old(self).errs() + lex_errors_spec(old(self).src(), old(self).pos()));
                    }
                },
            }
        }
    }
}

/// Keeps the tokens that carry meaning for the parser, dropping whitespace
/// and comments. Filtering is the caller's policy, not the scanner's, so
/// whitespace-sensitive callers stay possible.
pub open spec fn significant_spec(tokens: Seq<Token>) -> Seq<Token> {
    tokens.filter(
        |t: Token|
            t.token_type != TokenType::Whitespace && t.token_type != TokenType::Comment,
    )
}

/// Drops whitespace and comment tokens, keeping the rest in order.
pub fn significant_tokens(tokens: &Vec<Token>) -> (r: Vec<Token>)
    ensures
        r@ == significant_spec(tokens@),
{
    let mut out: Vec<Token> = Vec::new();
    let mut i: usize = 0;
    proof {
        assert(tokens@.take(0) =~= Seq::<Token>::empty());
        assert(out@ =~= significant_spec(tokens@.take(0)));
    }
    while i < tokens.len()
        invariant
            i <= tokens@.len(),
            out@ == significant_spec(tokens@.take(i as int)),
        decreases tokens@.len() - i,
    {
        let t = tokens[i];
        proof {
            reveal_with_fuel(Seq::filter, 2);
            assert(tokens@.take(i as int + 1).drop_last() =~= tokens@.take(i as int));
            assert(tokens@.take(i as int + 1).last() == tokens@[i as int]);
        }
        match t.token_type {
            TokenType::Whitespace => (),
            TokenType::Comment => (),
            _ => {
                out.push(t);
            },
        }
        i = i + 1;
    }
    proof {
        assert(tokens@.take(tokens@.len() as int) =~= tokens@);
    }
    out
}

} // verus!
