//! The shared lexical vocabulary: source spans, token categories, and the
//! runtime value type of the interpreted language.
//!
//! Source text is handled as a byte buffer. A token never carries its lexeme;
//! the text is recovered by slicing the source with the token's span.
use vstd::prelude::*;

verus! {

/// A byte range representing a location in a source string.
///
/// The range is half-open: `start` is inclusive, `end` is exclusive.
#[derive(Debug, Copy, Clone, PartialEq, Eq, Hash, Structural)]
pub struct Span {
    /// The (inclusive) start position of the span in bytes.
    pub start: usize,
    /// The (exclusive) end position of the span in bytes.
    pub end: usize,
}

impl Span {
    /// A well-formed span is an ordered range that lies within a source
    /// buffer of `n` bytes.
    pub open spec fn wf(self, n: nat) -> bool {
        self.start <= self.end <= n
    }

    /// The lexeme bytes that this span selects out of `source`.
    pub open spec fn text(self, source: Seq<u8>) -> Seq<u8> {
        source.subrange(self.start as int, self.end as int)
    }

    pub fn new(start: usize, end: usize) -> (s: Span)
        requires
            start <= end,
        ensures
            s == (Span { start, end }),
    {
        Span { start, end }
    }
}

impl From<core::ops::Range<usize>> for Span {
    /// A span is the half-open byte range it was built from.
    fn from(value: core::ops::Range<usize>) -> (s: Self) {
        Span { start: value.start, end: value.end }
    }
}

impl vstd::std_specs::convert::FromSpecImpl<core::ops::Range<usize>> for Span {
    open spec fn obeys_from_spec() -> bool {
        true
    }

    open spec fn from_spec(value: core::ops::Range<usize>) -> Self {
        Span { start: value.start, end: value.end }
    }
}

/// The fixed keyword vocabulary of the language.
#[derive(Copy, Clone, Debug, PartialEq, Eq, Structural)]
pub enum KeywordType {
    And,
    Class,
    Else,
    False,
    Fun,
    For,
    If,
    Nil,
    Or,
    Print,
    Return,
    Super,
    This,
    True,
    Var,
    While,
}

/// The category of a token. Tokens for whitespace and comments are produced
/// by the scanner and filtered by the caller, so whitespace-sensitive callers
/// stay possible.
#[derive(Copy, Clone, Debug, PartialEq, Eq, Structural)]
pub enum TokenType {
    // Single-character tokens.
    LeftParen,
    RightParen,
    LeftBrace,
    RightBrace,
    Comma,
    Dot,
    Minus,
    Plus,
    Semicolon,
    Slash,
    Star,
    // One or two character tokens.
    Bang,
    BangEqual,
    Equal,
    EqualEqual,
    Greater,
    GreaterEqual,
    Less,
    LessEqual,
    // Literals.
    Identifier,
    StringLiteral,
    Number,
    // Keywords.
    Keyword(KeywordType),
    Unknown,
    Whitespace,
    Comment,
    Eof,
}

/// A classified lexical unit: a category and the byte range it covers.
#[derive(Copy, Clone, Debug, PartialEq, Eq, Structural)]
pub struct Token {
    pub token_type: TokenType,
    pub span: Span,
}

impl Token {
    /// The lexeme of this token, recovered by slicing the source buffer.
    pub fn as_string(&self, source: &Vec<u8>) -> (r: Vec<u8>)
        requires
            self.span.wf(source@.len()),
        ensures
            r@ == self.span.text(source@),
    {
        copy_range(source, self.span.start, self.span.end)
    }
}

/// A runtime value of the interpreted language.
///
/// Numbers are IEEE 754 double-precision values, held by their bit pattern;
/// the embedder converts between bit patterns and machine floats.
#[derive(Debug)]
pub enum Object {
    Num(u64),
    Str(Vec<u8>),
    Nil,
    Bool(bool),
}

/// The mathematical model of a runtime value.
pub enum Value {
    Num(u64),
    Str(Seq<u8>),
    Nil,
    Bool(bool),
}

impl View for Object {
    type V = Value;

    open spec fn view(&self) -> Value {
        match self {
            Object::Num(n) => Value::Num(*n),
            Object::Str(s) => Value::Str(s@),
            Object::Nil => Value::Nil,
            Object::Bool(b) => Value::Bool(*b),
        }
    }
}

impl Clone for Object {
    /// Cloning keeps the value: a read from the environment hands out a copy.
    fn clone(&self) -> (r: Self)
        ensures
            r@ == self@,
    {
        match self {
            Object::Num(n) => Object::Num(*n),
            Object::Str(s) => {
                let copied = copy_range(s, 0, s.len());
                proof {
                    assert(copied@ =~= s@);
                }
                Object::Str(copied)
            },
            Object::Nil => Object::Nil,
            Object::Bool(b) => Object::Bool(*b),
        }
    }
}

/// Copies the byte range `[start, end)` of `source` into a fresh vector.
pub fn copy_range(source: &Vec<u8>, start: usize, end: usize) -> (r: Vec<u8>)
    requires
        start <= end <= source@.len(),
    ensures
        r@ == source@.subrange(start as int, end as int),
{
    let mut out: Vec<u8> = Vec::new();
    let mut i = start;
    while i < end
        invariant
            start <= i <= end <= source@.len(),
            out@ == source@.subrange(start as int, i as int),
        decreases end - i,
    {
        out.push(source[i]);
        i = i + 1;
        proof {
            assert(out@ =~= source@.subrange(start as int, i as int));
        }
    }
    out
}

/// True when the byte vectors hold the same bytes.
pub fn bytes_eq(a: &Vec<u8>, b: &Vec<u8>) -> (r: bool)
    ensures
        r == (a@ == b@),
{
    if a.len() != b.len() {
        proof {
            assert(a@ != b@);
        }
        return false;
    }
    let mut i: usize = 0;
    while i < a.len()
        invariant
            i <= a@.len(),
            a@.len() == b@.len(),
            forall|j: int| 0 <= j < i ==> a@[j] == b@[j],
        decreases a@.len() - i,
    {
        if a[i] != b[i] {
            return false;
        }
        i = i + 1;
    }
    proof {
        assert(a@ =~= b@);
    }
    true
}

} // verus!
