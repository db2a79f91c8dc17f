//! The specification of the scanner: a character-driven state machine over
//! the whole source, written as spec functions. `scan` gives, for any input
//! sequence, the exact token list and symbol table that `Lexer::parse`
//! returns; every transition mirrors one rule of the machine.
//!
//! A transition either consumes the offered character or signals a boundary:
//! the finished token is appended and the same character is re-offered under
//! the `Common` state. `feed` resolves that re-dispatch, `step` then advances
//! the position, and `scan` folds `step` over the input and finalizes.

use crate::chars::{digits_val, is_alpha_char, is_alphanum_char, is_digit_spec, is_whitespace_char};
use crate::lang::{SpecBound, SpecLexeme, SpecPos, SpecToken};
use vstd::prelude::*;

verus! {

/// The scanner's live state between characters. The buffers hold the
/// characters collected for the open token so far; for numbers, radix 0
/// means the radix is still undetermined (just past a leading zero).
#[verifier::ext_equal]
pub ghost enum St {
    Common,
    BlockComment,
    BlockCommentAst,
    LineComment,
    Operator { first: char },
    Ident { buf: Seq<char> },
    StrLit { buf: Seq<char> },
    StrEsc { buf: Seq<char> },
    Number { buf: Seq<char>, radix: int },
    Decimal { buf: Seq<char> },
}

/// Everything the scanner carries: the tokens emitted so far, the interned
/// spellings, the live state, the position where the open token began, and
/// the position of the character about to be offered.
#[verifier::ext_equal]
pub ghost struct Model {
    pub tokens: Seq<SpecToken>,
    pub symbols: Seq<Seq<char>>,
    pub state: St,
    pub token_start: SpecPos,
    pub pos: SpecPos,
}

pub open spec fn with_state(m: Model, state: St) -> Model {
    Model { tokens: m.tokens, symbols: m.symbols, state, token_start: m.token_start, pos: m.pos }
}

pub open spec fn mark_start(m: Model) -> Model {
    Model { tokens: m.tokens, symbols: m.symbols, state: m.state, token_start: m.pos, pos: m.pos }
}

/// Appends a token that includes the character at the current position.
pub open spec fn pushed_inc(m: Model, lexeme: SpecLexeme) -> Model {
    Model {
        tokens: m.tokens.push(
            SpecToken { lexeme, start: m.token_start, end: SpecBound::Included(m.pos) },
        ),
        symbols: m.symbols,
        state: m.state,
        token_start: m.token_start,
        pos: m.pos,
    }
}

/// Appends a token that ends strictly before the current position.
pub open spec fn pushed_exc(m: Model, lexeme: SpecLexeme) -> Model {
    Model {
        tokens: m.tokens.push(
            SpecToken { lexeme, start: m.token_start, end: SpecBound::Excluded(m.pos) },
        ),
        symbols: m.symbols,
        state: m.state,
        token_start: m.token_start,
        pos: m.pos,
    }
}

/// One column per consumed character; a newline resets the column and moves
/// to the next line.
pub open spec fn advance_pos(p: SpecPos, c: char) -> SpecPos {
    if c == '\n' {
        SpecPos { line: p.line + 1, col: 1 }
    } else {
        SpecPos { line: p.line, col: p.col + 1 }
    }
}

/// The single-character punctuation lexemes; anything unrecognized is an
/// explicit error token.
pub open spec fn punct_lexeme(c: char) -> SpecLexeme {
    if c == '!' {
        SpecLexeme::SignExclamation
    } else if c == '#' {
        SpecLexeme::SignNumber
    } else if c == '(' {
        SpecLexeme::SignLParen
    } else if c == ')' {
        SpecLexeme::SignRParen
    } else if c == '*' {
        SpecLexeme::SignAsterisk
    } else if c == '+' {
        SpecLexeme::SignPlus
    } else if c == ',' {
        SpecLexeme::SignComma
    } else if c == '-' {
        SpecLexeme::SignMinus
    } else if c == '.' {
        SpecLexeme::SignFullStop
    } else if c == ';' {
        SpecLexeme::SignSemicolon
    } else if c == '=' {
        SpecLexeme::SignEquals
    } else if c == '?' {
        SpecLexeme::SignQuestion
    } else {
        SpecLexeme::Error
    }
}

/// The eleven fixed keywords, matched case-sensitively against a spelling.
pub open spec fn keyword_lexeme(s: Seq<char>) -> Option<SpecLexeme> {
    if s == "begin"@ {
        Some(SpecLexeme::KwBegin)
    } else if s == "call"@ {
        Some(SpecLexeme::KwCall)
    } else if s == "const"@ {
        Some(SpecLexeme::KwConst)
    } else if s == "do"@ {
        Some(SpecLexeme::KwDo)
    } else if s == "end"@ {
        Some(SpecLexeme::KwEnd)
    } else if s == "if"@ {
        Some(SpecLexeme::KwIf)
    } else if s == "odd"@ {
        Some(SpecLexeme::KwOdd)
    } else if s == "procedure"@ {
        Some(SpecLexeme::KwProcedure)
    } else if s == "then"@ {
        Some(SpecLexeme::KwThen)
    } else if s == "var"@ {
        Some(SpecLexeme::KwVar)
    } else if s == "while"@ {
        Some(SpecLexeme::KwWhile)
    } else {
        None
    }
}

/// A digit run read in `radix`: its 32-bit value, or an error token when the
/// run is empty, holds an invalid digit, or overflows 32 bits.
pub open spec fn num_lexeme(s: Seq<char>, radix: int) -> SpecLexeme {
    if s.len() > 0 && (forall|i: int| 0 <= i < s.len() ==> is_digit_spec(s[i], radix))
        && digits_val(s, radix) <= u32::MAX {
        SpecLexeme::Number32(digits_val(s, radix) as u32)
    } else {
        SpecLexeme::Error
    }
}

/// From `Common`: whitespace is skipped, quotes and operator heads and
/// digits and letters open their states, and everything else resolves at
/// once to a punctuation or error token. Every character is consumed.
pub open spec fn trans_common(m: Model, c: char) -> (Model, bool) {
    let m1 = mark_start(m);
    if is_whitespace_char(c) {
        (m1, true)
    } else if c == '"' {
        (with_state(m1, St::StrLit { buf: Seq::empty() }), true)
    } else if c == '/' || c == ':' || c == '<' || c == '>' {
        (with_state(m1, St::Operator { first: c }), true)
    } else if c == '0' {
        (with_state(m1, St::Number { buf: seq![c], radix: 0 }), true)
    } else if 49 <= c as u32 <= 57 {
        (with_state(m1, St::Number { buf: seq![c], radix: 10 }), true)
    } else if is_alpha_char(c) {
        (with_state(m1, St::Ident { buf: seq![c] }), true)
    } else {
        (pushed_inc(m1, punct_lexeme(c)), true)
    }
}

/// From `Operator`: `/*` and `//` open comments; otherwise the pair resolves
/// to an operator token, inclusively when the second character completes it,
/// exclusively (re-dispatching the lookahead) when it does not.
pub open spec fn trans_op(m: Model, first: char, c: char) -> (Model, bool) {
    if first == '/' && c == '*' {
        (with_state(m, St::BlockComment), true)
    } else if first == '/' && c == '/' {
        (with_state(m, St::LineComment), true)
    } else {
        let m1 = with_state(m, St::Common);
        if first == '/' {
            (pushed_exc(m1, SpecLexeme::OpSolidus), false)
        } else if first == ':' && c == '=' {
            (pushed_inc(m1, SpecLexeme::OpAssign), true)
        } else if first == '<' && c == '=' {
            (pushed_inc(m1, SpecLexeme::OpLessEqual), true)
        } else if first == '<' {
            (pushed_exc(m1, SpecLexeme::OpLess), false)
        } else if first == '>' && c == '=' {
            (pushed_inc(m1, SpecLexeme::OpGreaterEqual), true)
        } else if first == '>' {
            (pushed_exc(m1, SpecLexeme::OpGreater), false)
        } else {
            (pushed_exc(m1, SpecLexeme::Error), false)
        }
    }
}

/// A finished identifier spelling becomes its keyword lexeme, or is interned:
/// an already-seen spelling keeps its first id, a new one takes the next
/// sequential id and is recorded.
pub open spec fn ident_resolved(m: Model, buf: Seq<char>) -> Model {
    let m1 = with_state(m, St::Common);
    match keyword_lexeme(buf) {
        Some(k) => pushed_exc(m1, k),
        None => match m.symbols.index_of_first(buf) {
            Some(i) => pushed_exc(m1, SpecLexeme::Ident(i)),
            None => pushed_exc(
                Model {
                    tokens: m1.tokens,
                    symbols: m1.symbols.push(buf),
                    state: m1.state,
                    token_start: m1.token_start,
                    pos: m1.pos,
                },
                SpecLexeme::Ident(m.symbols.len() as int),
            ),
        },
    }
}

pub open spec fn trans_ident(m: Model, buf: Seq<char>, c: char) -> (Model, bool) {
    if is_alphanum_char(c) {
        (with_state(m, St::Ident { buf: buf.push(c) }), true)
    } else {
        (ident_resolved(m, buf), false)
    }
}

/// Inside a string literal: a quote completes it (inclusive bound), a
/// backslash accepts the next character unconditionally, anything else is
/// collected raw.
pub open spec fn trans_str(m: Model, buf: Seq<char>, c: char) -> (Model, bool) {
    if c == '"' {
        (with_state(pushed_inc(m, SpecLexeme::StrLit(buf)), St::Common), true)
    } else if c == '\\' {
        (with_state(m, St::StrEsc { buf: buf.push('\\') }), true)
    } else {
        (with_state(m, St::StrLit { buf: buf.push(c) }), true)
    }
}

pub open spec fn trans_str_esc(m: Model, buf: Seq<char>, c: char) -> (Model, bool) {
    (with_state(m, St::StrLit { buf: buf.push(c) }), true)
}

/// A number past its radix sniffing: digits continue, a full stop turns a
/// base-10 run decimal, and any other character closes the token.
pub open spec fn trans_num_digits(m: Model, buf: Seq<char>, radix: int, c: char) -> (Model, bool) {
    if is_digit_spec(c, radix) {
        (with_state(m, St::Number { buf: buf.push(c), radix }), true)
    } else if c == '.' && radix == 10 {
        (with_state(m, St::Decimal { buf: buf.push('.') }), true)
    } else {
        (pushed_exc(with_state(m, St::Common), num_lexeme(buf, radix)), false)
    }
}

/// Radix 0 means a leading zero was just read: `b`, `o`, `x` fix the radix
/// and restart the digit run after the prefix; anything else falls back to
/// base 10 with the zero kept as a digit.
pub open spec fn trans_num(m: Model, buf: Seq<char>, radix: int, c: char) -> (Model, bool) {
    if radix == 0 {
        if c == 'b' {
            (with_state(m, St::Number { buf: Seq::empty(), radix: 2 }), true)
        } else if c == 'o' {
            (with_state(m, St::Number { buf: Seq::empty(), radix: 8 }), true)
        } else if c == 'x' {
            (with_state(m, St::Number { buf: Seq::empty(), radix: 16 }), true)
        } else {
            trans_num_digits(m, buf, 10, c)
        }
    } else {
        trans_num_digits(m, buf, radix, c)
    }
}

/// A decimal literal keeps its whole spelling; turning it into a
/// floating-point value is left to the caller.
pub open spec fn trans_dec(m: Model, buf: Seq<char>, c: char) -> (Model, bool) {
    if is_digit_spec(c, 10) {
        (with_state(m, St::Decimal { buf: buf.push(c) }), true)
    } else {
        (pushed_exc(with_state(m, St::Common), SpecLexeme::Decimal64(buf)), false)
    }
}

/// Comments consume silently; `*` arms the close, `*/` returns to `Common`.
pub open spec fn trans_blk(m: Model, after_ast: bool, c: char) -> (Model, bool) {
    if after_ast {
        if c == '*' {
            (m, true)
        } else if c == '/' {
            (with_state(m, St::Common), true)
        } else {
            (with_state(m, St::BlockComment), true)
        }
    } else {
        if c == '*' {
            (with_state(m, St::BlockCommentAst), true)
        } else {
            (m, true)
        }
    }
}

pub open spec fn trans_line(m: Model, c: char) -> (Model, bool) {
    if c == '\n' {
        (with_state(m, St::Common), true)
    } else {
        (m, true)
    }
}

/// One offer of a character to the live state: the new model, and whether
/// the character was consumed (`false` asks for a re-dispatch).
pub open spec fn trans(m: Model, c: char) -> (Model, bool) {
    match m.state {
        St::Common => trans_common(m, c),
        St::BlockComment => trans_blk(m, false, c),
        St::BlockCommentAst => trans_blk(m, true, c),
        St::LineComment => trans_line(m, c),
        St::Operator { first } => trans_op(m, first, c),
        St::Ident { buf } => trans_ident(m, buf, c),
        St::StrLit { buf } => trans_str(m, buf, c),
        St::StrEsc { buf } => trans_str_esc(m, buf, c),
        St::Number { buf, radix } => trans_num(m, buf, radix, c),
        St::Decimal { buf } => trans_dec(m, buf, c),
    }
}

/// A boundary always hands over to `Common`, and `Common` always consumes,
/// so one re-dispatch settles every character.
pub open spec fn feed(m: Model, c: char) -> Model {
    let (m1, consumed) = trans(m, c);
    if consumed {
        m1
    } else {
        trans(m1, c).0
    }
}

/// Offer the character, then advance the position past it.
pub open spec fn step(m: Model, c: char) -> Model {
    let m1 = feed(m, c);
    Model {
        tokens: m1.tokens,
        symbols: m1.symbols,
        state: m1.state,
        token_start: m1.token_start,
        pos: advance_pos(m1.pos, c),
    }
}

/// End of input: a still-open token is resolved (comments are dropped
/// silently, an open string becomes an error), then the zero-width
/// end-of-input token is appended at the final position.
pub open spec fn finalized(m: Model) -> Model {
    let m1 = match m.state {
        St::Common | St::BlockComment | St::BlockCommentAst | St::LineComment => m,
        St::Operator { first } => trans_op(m, first, '\0').0,
        St::Ident { buf } => ident_resolved(m, buf),
        St::StrLit { buf } => pushed_exc(m, SpecLexeme::Error),
        St::StrEsc { buf } => pushed_exc(m, SpecLexeme::Error),
        St::Number { buf, radix } => trans_num(m, buf, radix, '\0').0,
        St::Decimal { buf } => trans_dec(m, buf, '\0').0,
    };
    pushed_exc(mark_start(m1), SpecLexeme::Eof)
}

/// The fresh scanner: no tokens, no symbols, position 1:1.
pub open spec fn init_model() -> Model {
    Model {
        tokens: Seq::empty(),
        symbols: Seq::empty(),
        state: St::Common,
        token_start: SpecPos { line: 0, col: 0 },
        pos: SpecPos { line: 1, col: 1 },
    }
}

pub open spec fn scan_from(m: Model, input: Seq<char>, i: int) -> Model
    decreases input.len() - i,
{
    if i < 0 || i >= input.len() {
        finalized(m)
    } else {
        scan_from(step(m, input[i]), input, i + 1)
    }
}

/// What scanning the whole input yields: the reference for `Lexer::parse`.
pub open spec fn scan(input: Seq<char>) -> Model {
    scan_from(init_model(), input, 0)
}

/// The only radixes the machine ever carries: 0 while sniffing, then one of
/// the four fixed bases.
pub open spec fn radix_wf(m: Model) -> bool {
    m.state matches St::Number { buf, radix } ==> (radix == 0 || radix == 2 || radix == 8
        || radix == 10 || radix == 16)
}

pub proof fn lemma_trans_radix_wf(m: Model, c: char)
    requires
        radix_wf(m),
    ensures
        radix_wf(trans(m, c).0),
        radix_wf(feed(m, c)),
{
}

/// A transition that does not consume hands over to `Common`, and `Common`
/// always consumes, so one re-dispatch settles every character.
pub proof fn lemma_boundary_to_common(m: Model, c: char)
    ensures
        !trans(m, c).1 ==> trans(m, c).0.state == St::Common,
        m.state == St::Common ==> trans(m, c).1,
{
}

} // verus!
