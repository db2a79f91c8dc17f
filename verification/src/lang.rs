//! The data model of the scanner's output: source positions, end bounds,
//! the closed lexeme vocabulary, tokens, and the scan result.

use vstd::prelude::*;

verus! {

/// A 1-based line/column coordinate; line 1, column 1 is the first character
/// of the source.
#[derive(Clone, Copy, Debug, PartialEq, Eq)]
pub struct Position {
    pub col: usize,
    pub line: usize,
}

/// The mathematical value of a `Position`.
pub ghost struct SpecPos {
    pub col: int,
    pub line: int,
}

impl View for Position {
    type V = SpecPos;

    open spec fn view(&self) -> SpecPos {
        SpecPos { col: self.col as int, line: self.line as int }
    }
}

/// How a token ends: through and including the character at the position
/// (`Included`), or strictly before it (`Excluded`), the latter when the
/// terminating character belongs to the following token or never existed.
#[derive(Clone, Copy, Debug, PartialEq, Eq)]
pub enum Bound {
    Included(Position),
    Excluded(Position),
}

pub ghost enum SpecBound {
    Included(SpecPos),
    Excluded(SpecPos),
}

impl View for Bound {
    type V = SpecBound;

    open spec fn view(&self) -> SpecBound {
        match *self {
            Bound::Included(p) => SpecBound::Included(p@),
            Bound::Excluded(p) => SpecBound::Excluded(p@),
        }
    }
}

/// The classified kind of a token. Exactly one tag applies per token.
///
/// `Decimal64` carries the literal's spelling (digits and the decimal point);
/// turning that spelling into a floating-point value is the caller's concern,
/// since this library states nothing about floating point.
#[derive(Debug, PartialEq, Eq)]
pub enum Lexeme {
    SignExclamation,
    SignNumber,
    SignLParen,
    SignRParen,
    SignAsterisk,
    SignPlus,
    SignComma,
    SignMinus,
    SignFullStop,
    SignSemicolon,
    SignEquals,
    SignQuestion,
    OpSolidus,
    OpAssign,
    OpLess,
    OpLessEqual,
    OpGreater,
    OpGreaterEqual,
    KwBegin,
    KwCall,
    KwConst,
    KwDo,
    KwEnd,
    KwIf,
    KwOdd,
    KwProcedure,
    KwThen,
    KwVar,
    KwWhile,
    Ident(usize),
    StrLit(String),
    Number32(u32),
    Decimal64(String),
    Error,
    Eof,
}

#[verifier::ext_equal]
pub ghost enum SpecLexeme {
    SignExclamation,
    SignNumber,
    SignLParen,
    SignRParen,
    SignAsterisk,
    SignPlus,
    SignComma,
    SignMinus,
    SignFullStop,
    SignSemicolon,
    SignEquals,
    SignQuestion,
    OpSolidus,
    OpAssign,
    OpLess,
    OpLessEqual,
    OpGreater,
    OpGreaterEqual,
    KwBegin,
    KwCall,
    KwConst,
    KwDo,
    KwEnd,
    KwIf,
    KwOdd,
    KwProcedure,
    KwThen,
    KwVar,
    KwWhile,
    Ident(int),
    StrLit(Seq<char>),
    Number32(u32),
    Decimal64(Seq<char>),
    Error,
    Eof,
}

impl View for Lexeme {
    type V = SpecLexeme;

    open spec fn view(&self) -> SpecLexeme {
        match *self {
            Lexeme::SignExclamation => SpecLexeme::SignExclamation,
            Lexeme::SignNumber => SpecLexeme::SignNumber,
            Lexeme::SignLParen => SpecLexeme::SignLParen,
            Lexeme::SignRParen => SpecLexeme::SignRParen,
            Lexeme::SignAsterisk => SpecLexeme::SignAsterisk,
            Lexeme::SignPlus => SpecLexeme::SignPlus,
            Lexeme::SignComma => SpecLexeme::SignComma,
            Lexeme::SignMinus => SpecLexeme::SignMinus,
            Lexeme::SignFullStop => SpecLexeme::SignFullStop,
            Lexeme::SignSemicolon => SpecLexeme::SignSemicolon,
            Lexeme::SignEquals => SpecLexeme::SignEquals,
            Lexeme::SignQuestion => SpecLexeme::SignQuestion,
            Lexeme::OpSolidus => SpecLexeme::OpSolidus,
            Lexeme::OpAssign => SpecLexeme::OpAssign,
            Lexeme::OpLess => SpecLexeme::OpLess,
            Lexeme::OpLessEqual => SpecLexeme::OpLessEqual,
            Lexeme::OpGreater => SpecLexeme::OpGreater,
            Lexeme::OpGreaterEqual => SpecLexeme::OpGreaterEqual,
            Lexeme::KwBegin => SpecLexeme::KwBegin,
            Lexeme::KwCall => SpecLexeme::KwCall,
            Lexeme::KwConst => SpecLexeme::KwConst,
            Lexeme::KwDo => SpecLexeme::KwDo,
            Lexeme::KwEnd => SpecLexeme::KwEnd,
            Lexeme::KwIf => SpecLexeme::KwIf,
            Lexeme::KwOdd => SpecLexeme::KwOdd,
            Lexeme::KwProcedure => SpecLexeme::KwProcedure,
            Lexeme::KwThen => SpecLexeme::KwThen,
            Lexeme::KwVar => SpecLexeme::KwVar,
            Lexeme::KwWhile => SpecLexeme::KwWhile,
            Lexeme::Ident(id) => SpecLexeme::Ident(id as int),
            Lexeme::StrLit(ref s) => SpecLexeme::StrLit(s@),
            Lexeme::Number32(n) => SpecLexeme::Number32(n),
            Lexeme::Decimal64(ref s) => SpecLexeme::Decimal64(s@),
            Lexeme::Error => SpecLexeme::Error,
            Lexeme::Eof => SpecLexeme::Eof,
        }
    }
}

/// One classified span of source text: its kind, the position of its first
/// consumed character, and its end boundary.
#[derive(Debug, PartialEq, Eq)]
pub struct Token {
    pub lexeme: Lexeme,
    pub start: Position,
    pub end: Bound,
}

#[verifier::ext_equal]
pub ghost struct SpecToken {
    pub lexeme: SpecLexeme,
    pub start: SpecPos,
    pub end: SpecBound,
}

impl View for Token {
    type V = SpecToken;

    open spec fn view(&self) -> SpecToken {
        SpecToken { lexeme: self.lexeme@, start: self.start@, end: self.end@ }
    }
}

impl Token {
    pub fn new(lexeme: Lexeme, start: Position, end: Bound) -> (r: Self)
        ensures
            r.lexeme == lexeme,
            r.start == start,
            r.end == end,
    {
        Self { lexeme, start, end }
    }
}

/// The result of one scan: the interned identifier spellings, ordered by
/// symbol id, and the ordered token list.
#[derive(Debug)]
pub struct Text {
    pub symbols: Vec<String>,
    pub tokens: Vec<Token>,
}

impl Text {
    pub fn new(tokens: Vec<Token>, symbols: Vec<String>) -> (r: Self)
        ensures
            r.tokens == tokens,
            r.symbols == symbols,
    {
        Self { symbols, tokens }
    }
}

} // verus!
