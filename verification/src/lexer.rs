//! The executable scanner, proved equal to the specification machine in
//! `scan`: `Lexer::parse` returns exactly the tokens and symbols of
//! `scan(text@)`.

use crate::chars::{
    char_is_alphabetic, char_is_alphanumeric, char_is_whitespace, digit_of, is_digit_in,
    lemma_digits_val_nonneg, lemma_digits_val_prefix_le, string_from_chars,
};
use crate::chars::{digit_val, digits_val, is_digit_spec};
use crate::lang::{Bound, Lexeme, Position, SpecLexeme, Text, Token};
use crate::scan::{
    feed, finalized, ident_resolved, init_model, keyword_lexeme, lemma_boundary_to_common,
    lemma_trans_radix_wf, mark_start, num_lexeme, punct_lexeme, pushed_exc, pushed_inc, radix_wf,
    scan, scan_from, step, trans, trans_blk, trans_common, trans_dec, trans_ident, trans_line,
    trans_num, trans_op, trans_str, trans_str_esc, with_state, Model, St,
};
use crate::symbols::SymbolTable;
use vstd::prelude::*;

verus! {

/// The live state tag; the collected characters of an open token sit in
/// `Lexer::buf`, the pending operator head and the numeric radix ride along
/// here (radix 0: still undetermined).
#[derive(Clone, Copy, Debug, PartialEq, Eq)]
enum State {
    Common,
    BlockComment,
    BlockCommentAst,
    LineComment,
    Operator(char),
    Ident,
    StrLit,
    StrEsc,
    Number(u32),
    Decimal,
}

/// The scanner: feeds one character at a time into the current state's
/// transition rule and collects completed tokens and interned symbols.
pub struct Lexer {
    tokens: Vec<Token>,
    symbols: SymbolTable,
    state: State,
    buf: Vec<char>,
    token_start: Position,
    pos: Position,
}

impl Lexer {
    pub closed spec fn st(self) -> St {
        match self.state {
            State::Common => St::Common,
            State::BlockComment => St::BlockComment,
            State::BlockCommentAst => St::BlockCommentAst,
            State::LineComment => St::LineComment,
            State::Operator(first) => St::Operator { first },
            State::Ident => St::Ident { buf: self.buf@ },
            State::StrLit => St::StrLit { buf: self.buf@ },
            State::StrEsc => St::StrEsc { buf: self.buf@ },
            State::Number(radix) => St::Number { buf: self.buf@, radix: radix as int },
            State::Decimal => St::Decimal { buf: self.buf@ },
        }
    }

    pub closed spec fn model(self) -> Model {
        Model {
            tokens: self.tokens@.map_values(|t: Token| t@),
            symbols: self.symbols@,
            state: self.st(),
            token_start: self.token_start@,
            pos: self.pos@,
        }
    }

    fn push_inclusive(&mut self, lexeme: Lexeme) -> (r: bool)
        ensures
            final(self).model() == pushed_inc(old(self).model(), lexeme@),
            r == true,
    {
        let t = Token::new(lexeme, self.token_start, Bound::Included(self.pos));
        self.tokens.push(t);
        proof {
            assert(self.model() =~= pushed_inc(old(self).model(), t.lexeme@));
        }
        true
    }

    fn push_exclusive(&mut self, lexeme: Lexeme) -> (r: bool)
        ensures
            final(self).model() == pushed_exc(old(self).model(), lexeme@),
            r == false,
    {
        let t = Token::new(lexeme, self.token_start, Bound::Excluded(self.pos));
        self.tokens.push(t);
        proof {
            assert(self.model() =~= pushed_exc(old(self).model(), t.lexeme@));
        }
        false
    }
}

/// The punctuation lexeme a single character resolves to.
fn punct_of(c: char) -> (r: Lexeme)
    ensures
        r@ == punct_lexeme(c),
{
    match c {
        '!' => Lexeme::SignExclamation,
        '#' => Lexeme::SignNumber,
        '(' => Lexeme::SignLParen,
        ')' => Lexeme::SignRParen,
        '*' => Lexeme::SignAsterisk,
        '+' => Lexeme::SignPlus,
        ',' => Lexeme::SignComma,
        '-' => Lexeme::SignMinus,
        '.' => Lexeme::SignFullStop,
        ';' => Lexeme::SignSemicolon,
        '=' => Lexeme::SignEquals,
        '?' => Lexeme::SignQuestion,
        _ => Lexeme::Error,
    }
}

impl Lexer {
    fn next_common(&mut self, c: char) -> (consumed: bool)
        requires
            old(self).state == State::Common,
        ensures
            ({
                let (m2, k) = trans_common(old(self).model(), c);
                final(self).model() == m2 && consumed == k
            }),
    {
        self.token_start = self.pos;
        proof {
            assert(self.model() =~= mark_start(old(self).model()));
        }
        if char_is_whitespace(c) {
            true
        } else if c == '"' {
            self.buf = Vec::new();
            self.state = State::StrLit;
            proof {
                assert(self.model() =~= trans_common(old(self).model(), c).0);
            }
            true
        } else if c == '/' || c == ':' || c == '<' || c == '>' {
            self.state = State::Operator(c);
            proof {
                assert(self.model() =~= trans_common(old(self).model(), c).0);
            }
            true
        } else if c == '0' {
            self.buf = Vec::new();
            self.buf.push('0');
            self.state = State::Number(0);
            proof {
                assert(self.buf@ =~= seq!['0']);
                assert(self.model() =~= trans_common(old(self).model(), c).0);
            }
            true
        } else if 49 <= c as u32 && c as u32 <= 57 {
            self.buf = Vec::new();
            self.buf.push(c);
            self.state = State::Number(10);
            proof {
                assert(self.buf@ =~= seq![c]);
                assert(self.model() =~= trans_common(old(self).model(), c).0);
            }
            true
        } else if char_is_alphabetic(c) {
            self.buf = Vec::new();
            self.buf.push(c);
            self.state = State::Ident;
            proof {
                assert(self.buf@ =~= seq![c]);
                assert(self.model() =~= trans_common(old(self).model(), c).0);
            }
            true
        } else {
            let lex = punct_of(c);
            self.push_inclusive(lex)
        }
    }

    fn next_op(&mut self, first: char, c: char) -> (consumed: bool)
        requires
            old(self).state == State::Operator(first),
        ensures
            ({
                let (m2, k) = trans_op(old(self).model(), first, c);
                final(self).model() == m2 && consumed == k
            }),
    {
        if first == '/' && c == '*' {
            self.state = State::BlockComment;
            proof {
                assert(self.model() =~= with_state(old(self).model(), St::BlockComment));
            }
            true
        } else if first == '/' && c == '/' {
            self.state = State::LineComment;
            proof {
                assert(self.model() =~= with_state(old(self).model(), St::LineComment));
            }
            true
        } else {
            self.state = State::Common;
            proof {
                assert(self.model() =~= with_state(old(self).model(), St::Common));
            }
            if first == '/' {
                self.push_exclusive(Lexeme::OpSolidus)
            } else if first == ':' && c == '=' {
                self.push_inclusive(Lexeme::OpAssign)
            } else if first == '<' && c == '=' {
                self.push_inclusive(Lexeme::OpLessEqual)
            } else if first == '<' {
                self.push_exclusive(Lexeme::OpLess)
            } else if first == '>' && c == '=' {
                self.push_inclusive(Lexeme::OpGreaterEqual)
            } else if first == '>' {
                self.push_exclusive(Lexeme::OpGreater)
            } else {
                self.push_exclusive(Lexeme::Error)
            }
        }
    }

    /// Resolves the collected spelling: keyword, or interned identifier.
    fn resolve_ident(&mut self) -> (consumed: bool)
        requires
            old(self).state == State::Ident,
        ensures
            final(self).model() == ident_resolved(old(self).model(), old(self).buf@),
            consumed == false,
    {
        self.state = State::Common;
        proof {
            assert(self.model() =~= with_state(old(self).model(), St::Common));
        }
        let r = keyword_of(&self.buf);
        match r {
            Some(k) => self.push_exclusive(k),
            None => {
                let id = self.symbols.get_or_create_id(&self.buf);
                let consumed = self.push_exclusive(Lexeme::Ident(id));
                proof {
                    assert(self.model() =~= ident_resolved(old(self).model(), old(self).buf@));
                }
                consumed
            },
        }
    }

    fn next_id(&mut self, c: char) -> (consumed: bool)
        requires
            old(self).state == State::Ident,
        ensures
            ({
                let (m2, k) = trans_ident(old(self).model(), old(self).buf@, c);
                final(self).model() == m2 && consumed == k
            }),
    {
        if char_is_alphanumeric(c) {
            self.buf.push(c);
            proof {
                assert(self.model() =~= with_state(
                    old(self).model(),
                    St::Ident { buf: old(self).buf@.push(c) },
                ));
            }
            true
        } else {
            self.resolve_ident()
        }
    }

    fn next_str(&mut self, c: char, is_escaped: bool) -> (consumed: bool)
        requires
            is_escaped ==> old(self).state == State::StrEsc,
            !is_escaped ==> old(self).state == State::StrLit,
        ensures
            ({
                let (m2, k) = if is_escaped {
                    trans_str_esc(old(self).model(), old(self).buf@, c)
                } else {
                    trans_str(old(self).model(), old(self).buf@, c)
                };
                final(self).model() == m2 && consumed == k
            }),
    {
        if is_escaped {
            self.buf.push(c);
            self.state = State::StrLit;
            proof {
                assert(self.model() =~= with_state(
                    old(self).model(),
                    St::StrLit { buf: old(self).buf@.push(c) },
                ));
            }
            true
        } else if c == '"' {
            let text = string_from_chars(&self.buf);
            let r = self.push_inclusive(Lexeme::StrLit(text));
            self.state = State::Common;
            proof {
                assert(self.model() =~= with_state(
                    pushed_inc(old(self).model(), SpecLexeme::StrLit(old(self).buf@)),
                    St::Common,
                ));
            }
            true
        } else if c == '\\' {
            self.buf.push('\\');
            self.state = State::StrEsc;
            proof {
                assert(self.model() =~= with_state(
                    old(self).model(),
                    St::StrEsc { buf: old(self).buf@.push('\\') },
                ));
            }
            true
        } else {
            self.buf.push(c);
            proof {
                assert(self.model() =~= with_state(
                    old(self).model(),
                    St::StrLit { buf: old(self).buf@.push(c) },
                ));
            }
            true
        }
    }

    fn next_num(&mut self, c: char, radix: u32) -> (consumed: bool)
        requires
            old(self).state == State::Number(radix),
            radix == 0 || 2 <= radix <= 16,
        ensures
            ({
                let (m2, k) = trans_num(old(self).model(), old(self).buf@, radix as int, c);
                final(self).model() == m2 && consumed == k
            }),
    {
        let mut radix = radix;
        if radix == 0 {
            radix = match c {
                'b' => 2,
                'o' => 8,
                'x' => 16,
                _ => 10,
            };
            if radix == 10 {
                self.state = State::Number(10);
                proof {
                    assert(self.model() =~= with_state(
                        old(self).model(),
                        St::Number { buf: old(self).buf@, radix: 10 },
                    ));
                }
            } else {
                self.buf = Vec::new();
                self.state = State::Number(radix);
                proof {
                    assert(self.buf@ =~= Seq::<char>::empty());
                    assert(self.model() =~= trans_num(
                        old(self).model(),
                        old(self).buf@,
                        0,
                        c,
                    ).0);
                }
                return true;
            }
        }
        if is_digit_in(c, radix) {
            self.buf.push(c);
            proof {
                assert(self.model() =~= with_state(
                    old(self).model(),
                    St::Number { buf: old(self).buf@.push(c), radix: radix as int },
                ));
            }
            true
        } else if c == '.' && radix == 10 {
            self.buf.push('.');
            self.state = State::Decimal;
            proof {
                assert(self.model() =~= with_state(
                    old(self).model(),
                    St::Decimal { buf: old(self).buf@.push('.') },
                ));
            }
            true
        } else {
            self.state = State::Common;
            proof {
                assert(self.model() =~= with_state(old(self).model(), St::Common));
            }
            let lex = num_token_of(&self.buf, radix);
            self.push_exclusive(lex)
        }
    }

    fn next_decimal(&mut self, c: char) -> (consumed: bool)
        requires
            old(self).state == State::Decimal,
        ensures
            ({
                let (m2, k) = trans_dec(old(self).model(), old(self).buf@, c);
                final(self).model() == m2 && consumed == k
            }),
    {
        if is_digit_in(c, 10) {
            self.buf.push(c);
            proof {
                assert(self.model() =~= with_state(
                    old(self).model(),
                    St::Decimal { buf: old(self).buf@.push(c) },
                ));
            }
            true
        } else {
            self.state = State::Common;
            proof {
                assert(self.model() =~= with_state(old(self).model(), St::Common));
            }
            let text = string_from_chars(&self.buf);
            self.push_exclusive(Lexeme::Decimal64(text))
        }
    }

    fn next_blk_comment(&mut self, after_asterisk: bool, c: char) -> (consumed: bool)
        requires
            after_asterisk ==> old(self).state == State::BlockCommentAst,
            !after_asterisk ==> old(self).state == State::BlockComment,
        ensures
            ({
                let (m2, k) = trans_blk(old(self).model(), after_asterisk, c);
                final(self).model() == m2 && consumed == k
            }),
    {
        if after_asterisk {
            if c == '*' {
            } else if c == '/' {
                self.state = State::Common;
            } else {
                self.state = State::BlockComment;
            }
        } else if c == '*' {
            self.state = State::BlockCommentAst;
        }
        proof {
            assert(self.model() =~= trans_blk(old(self).model(), after_asterisk, c).0);
        }
        true
    }

    fn next_line_comment(&mut self, c: char) -> (consumed: bool)
        requires
            old(self).state == State::LineComment,
        ensures
            ({
                let (m2, k) = trans_line(old(self).model(), c);
                final(self).model() == m2 && consumed == k
            }),
    {
        if c == '\n' {
            self.state = State::Common;
        }
        proof {
            assert(self.model() =~= trans_line(old(self).model(), c).0);
        }
        true
    }

    /// Offers one character to the current state's transition rule; `false`
    /// asks the driver to re-offer the same character.
    fn next(&mut self, c: char) -> (consumed: bool)
        requires
            radix_wf(old(self).model()),
        ensures
            ({
                let (m2, k) = trans(old(self).model(), c);
                final(self).model() == m2 && consumed == k
            }),
    {
        let st = self.state;
        match st {
            State::Common => self.next_common(c),
            State::BlockComment => self.next_blk_comment(false, c),
            State::BlockCommentAst => self.next_blk_comment(true, c),
            State::LineComment => self.next_line_comment(c),
            State::Operator(first) => self.next_op(first, c),
            State::Ident => self.next_id(c),
            State::StrLit => self.next_str(c, false),
            State::StrEsc => self.next_str(c, true),
            State::Number(radix) => self.next_num(c, radix),
            State::Decimal => self.next_decimal(c),
        }
    }

    /// Resolves any still-open token against end of input and appends the
    /// zero-width end-of-input marker.
    fn finalize(&mut self)
        requires
            radix_wf(old(self).model()),
        ensures
            final(self).model() == finalized(old(self).model()),
    {
        let st = self.state;
        match st {
            State::Common | State::BlockComment | State::BlockCommentAst
                | State::LineComment => {},
            State::Operator(first) => {
                let _ = self.next_op(first, '\0');
            },
            State::Ident => {
                let _ = self.resolve_ident();
            },
            State::StrLit | State::StrEsc => {
                let _ = self.push_exclusive(Lexeme::Error);
            },
            State::Number(radix) => {
                let _ = self.next_num('\0', radix);
            },
            State::Decimal => {
                let _ = self.next_decimal('\0');
            },
        }
        self.token_start = self.pos;
        let _ = self.push_exclusive(Lexeme::Eof);
        proof {
            assert(self.model() =~= finalized(old(self).model()));
        }
    }

    /// Scans the whole source: the returned tokens and symbols are exactly
    /// those of the specification machine `scan` on the same characters.
    pub fn parse(text: &Vec<char>) -> (r: Text)
        requires
            text@.len() < usize::MAX,
        ensures
            r.tokens@.map_values(|t: Token| t@) == scan(text@).tokens,
            r.symbols@.map_values(|s: String| s@) == scan(text@).symbols,
    {
        let mut lexer = Lexer {
            tokens: Vec::new(),
            symbols: SymbolTable::new(),
            state: State::Common,
            buf: Vec::new(),
            token_start: Position { col: 0, line: 0 },
            pos: Position { col: 1, line: 1 },
        };
        proof {
            assert(lexer.model() =~= init_model());
        }
        let n = text.len();
        let mut i: usize = 0;
        while i < n
            invariant
                n == text@.len() < usize::MAX,
                i <= n,
                radix_wf(lexer.model()),
                lexer.pos.line >= 1,
                lexer.pos.col >= 1,
                lexer.pos.line + lexer.pos.col <= i + 2,
                scan_from(lexer.model(), text@, i as int) == scan(text@),
            decreases n - i,
        {
            let c = text[i];
            let ghost m0 = lexer.model();
            let consumed = lexer.next(c);
            if !consumed {
                proof {
                    lemma_boundary_to_common(m0, c);
                }
                let _ = lexer.next(c);
            }
            proof {
                assert(lexer.model() == feed(m0, c));
                lemma_trans_radix_wf(m0, c);
            }
            if c == '\n' {
                lexer.pos.col = 0;
                lexer.pos.line = lexer.pos.line + 1;
            }
            lexer.pos.col = lexer.pos.col + 1;
            proof {
                assert(lexer.model() =~= step(m0, text@[i as int]));
                assert(scan_from(m0, text@, i as int) == scan_from(
                    step(m0, text@[i as int]),
                    text@,
                    i + 1 as int,
                ));
            }
            i = i + 1;
        }
        let ghost m_exit = lexer.model();
        lexer.finalize();
        let ghost m_final = lexer.model();
        proof {
            assert(scan_from(m_exit, text@, n as int) == finalized(m_exit));
            assert(m_final == scan(text@));
        }
        let Lexer { tokens, symbols, state: _, buf: _, token_start: _, pos: _ } = lexer;
        let table = symbols.into_table();
        proof {
            assert(tokens@.map_values(|t: Token| t@) =~= m_final.tokens);
            assert(table@.map_values(|s: String| s@) =~= m_final.symbols);
        }
        Text::new(tokens, table)
    }
}

/// Matches a finished spelling against the fixed keyword set.
fn keyword_of(buf: &Vec<char>) -> (r: Option<Lexeme>)
    ensures
        match r {
            Some(l) => keyword_lexeme(buf@) == Some(l@),
            None => keyword_lexeme(buf@) is None,
        },
{
    proof {
        reveal_strlit("begin");
        reveal_strlit("call");
        reveal_strlit("const");
        reveal_strlit("do");
        reveal_strlit("end");
        reveal_strlit("if");
        reveal_strlit("odd");
        reveal_strlit("procedure");
        reveal_strlit("then");
        reveal_strlit("var");
        reveal_strlit("while");
    }
    let n = buf.len();
    if n == 5 && buf[0] == 'b' && buf[1] == 'e' && buf[2] == 'g' && buf[3] == 'i' && buf[4] == 'n'
    {
        proof {
            assert(buf@ =~= "begin"@);
        }
        return Some(Lexeme::KwBegin);
    }
    if n == 4 && buf[0] == 'c' && buf[1] == 'a' && buf[2] == 'l' && buf[3] == 'l' {
        proof {
            assert(buf@ =~= "call"@);
        }
        return Some(Lexeme::KwCall);
    }
    if n == 5 && buf[0] == 'c' && buf[1] == 'o' && buf[2] == 'n' && buf[3] == 's' && buf[4] == 't'
    {
        proof {
            assert(buf@ =~= "const"@);
        }
        return Some(Lexeme::KwConst);
    }
    if n == 2 && buf[0] == 'd' && buf[1] == 'o' {
        proof {
            assert(buf@ =~= "do"@);
        }
        return Some(Lexeme::KwDo);
    }
    if n == 3 && buf[0] == 'e' && buf[1] == 'n' && buf[2] == 'd' {
        proof {
            assert(buf@ =~= "end"@);
        }
        return Some(Lexeme::KwEnd);
    }
    if n == 2 && buf[0] == 'i' && buf[1] == 'f' {
        proof {
            assert(buf@ =~= "if"@);
        }
        return Some(Lexeme::KwIf);
    }
    if n == 3 && buf[0] == 'o' && buf[1] == 'd' && buf[2] == 'd' {
        proof {
            assert(buf@ =~= "odd"@);
        }
        return Some(Lexeme::KwOdd);
    }
    if n == 9 && buf[0] == 'p' && buf[1] == 'r' && buf[2] == 'o' && buf[3] == 'c' && buf[4] == 'e'
        && buf[5] == 'd' && buf[6] == 'u' && buf[7] == 'r' && buf[8] == 'e' {
        proof {
            assert(buf@ =~= "procedure"@);
        }
        return Some(Lexeme::KwProcedure);
    }
    if n == 4 && buf[0] == 't' && buf[1] == 'h' && buf[2] == 'e' && buf[3] == 'n' {
        proof {
            assert(buf@ =~= "then"@);
        }
        return Some(Lexeme::KwThen);
    }
    if n == 3 && buf[0] == 'v' && buf[1] == 'a' && buf[2] == 'r' {
        proof {
            assert(buf@ =~= "var"@);
        }
        return Some(Lexeme::KwVar);
    }
    if n == 5 && buf[0] == 'w' && buf[1] == 'h' && buf[2] == 'i' && buf[3] == 'l' && buf[4] == 'e'
    {
        proof {
            assert(buf@ =~= "while"@);
        }
        return Some(Lexeme::KwWhile);
    }
    None
}

/// Reads the collected digit run in `radix`: the 32-bit value, or an error
/// token on an empty run, a stray non-digit, or overflow.
fn num_token_of(buf: &Vec<char>, radix: u32) -> (r: Lexeme)
    requires
        2 <= radix <= 16,
    ensures
        r@ == num_lexeme(buf@, radix as int),
{
    let ghost rx = radix as int;
    if buf.len() == 0 {
        return Lexeme::Error;
    }
    let mut acc: u32 = 0;
    let mut i: usize = 0;
    while i < buf.len()
        invariant
            2 <= radix <= 16,
            i <= buf@.len(),
            rx == radix as int,
            forall|j: int| 0 <= j < i ==> is_digit_spec(buf@[j], rx),
            acc == digits_val(buf@.take(i as int), rx),
        decreases buf@.len() - i,
    {
        let c = buf[i];
        proof {
            assert(buf@.take(i + 1 as int).drop_last() =~= buf@.take(i as int));
            assert(buf@.take(i + 1 as int).last() == buf@[i as int]);
        }
        if !is_digit_in(c, radix) {
            return Lexeme::Error;
        }
        let d = digit_of(c);
        let shifted = match acc.checked_mul(radix) {
            Some(s) => s,
            None => {
                proof {
                    lemma_overflow(buf@, rx, i as int, acc as int, d as int);
                }
                return Lexeme::Error;
            },
        };
        acc = match shifted.checked_add(d) {
            Some(s) => s,
            None => {
                proof {
                    lemma_overflow(buf@, rx, i as int, acc as int, d as int);
                }
                return Lexeme::Error;
            },
        };
        i = i + 1;
    }
    proof {
        assert(buf@.take(buf@.len() as int) =~= buf@);
        lemma_digits_val_nonneg(buf@, rx);
    }
    Lexeme::Number32(acc)
}

/// When the next accumulation step leaves `u32`, the whole run's value does
/// too, so the run resolves to an error token.
proof fn lemma_overflow(s: Seq<char>, radix: int, i: int, acc: int, d: int)
    requires
        1 <= radix,
        0 <= i < s.len(),
        acc == digits_val(s.take(i), radix),
        d == digit_val(s[i]),
        acc * radix + d > u32::MAX,
    ensures
        digits_val(s, radix) > u32::MAX,
{
    assert(s.take(i + 1).drop_last() =~= s.take(i));
    assert(s.take(i + 1).last() == s[i]);
    assert(digits_val(s.take(i + 1), radix) == acc * radix + d);
    lemma_digits_val_prefix_le(s, radix, i + 1);
}

} // verus!
