//! Laws of the scanner, proved of the specification machine `scan` (and so,
//! through `Lexer::parse`'s contract, of the executable scanner): the token
//! list ends with exactly one end-of-input token, token positions are
//! ordered, and identifier interning is consistent.

use crate::lang::{SpecBound, SpecLexeme, SpecPos, SpecToken};
use crate::scan::{finalized, ident_resolved, init_model, keyword_lexeme, mark_start, num_lexeme,
    punct_lexeme, pushed_exc, pushed_inc, scan, scan_from, step, trans, trans_dec, trans_num,
    trans_op, with_state, Model, St};
use vstd::prelude::*;

verus! {

/// Line/column ordering of source positions.
pub open spec fn pos_le(a: SpecPos, b: SpecPos) -> bool {
    a.line < b.line || (a.line == b.line && a.col <= b.col)
}

/// The position an end bound resolves to.
pub open spec fn bound_pos(b: SpecBound) -> SpecPos {
    match b {
        SpecBound::Included(p) => p,
        SpecBound::Excluded(p) => p,
    }
}

pub open spec fn no_eof(toks: Seq<SpecToken>) -> bool {
    forall|i: int| 0 <= i < toks.len() ==> (#[trigger] toks[i]).lexeme != SpecLexeme::Eof
}

/// Every token starts no later than its resolved end position.
pub open spec fn tokens_well_placed(toks: Seq<SpecToken>) -> bool {
    forall|i: int| 0 <= i < toks.len() ==> pos_le(
        (#[trigger] toks[i]).start,
        bound_pos(toks[i].end),
    )
}

/// Token start positions never decrease along the list.
pub open spec fn starts_non_decreasing(toks: Seq<SpecToken>) -> bool {
    forall|i: int, j: int| 0 <= i <= j < toks.len() ==> pos_le(
        (#[trigger] toks[i]).start,
        (#[trigger] toks[j]).start,
    )
}

pub open spec fn starts_bounded(toks: Seq<SpecToken>, p: SpecPos) -> bool {
    forall|i: int| 0 <= i < toks.len() ==> pos_le((#[trigger] toks[i]).start, p)
}

/// No spelling is recorded twice, so distinct ids mean distinct spellings.
pub open spec fn distinct_spellings(s: Seq<Seq<char>>) -> bool {
    forall|i: int, j: int| 0 <= i < j < s.len() ==> s[i] != s[j]
}

/// Every identifier token references a recorded symbol.
pub open spec fn ident_ids_bounded(toks: Seq<SpecToken>, n: int) -> bool {
    forall|i: int| 0 <= i < toks.len() ==> ((#[trigger] toks[i]).lexeme matches SpecLexeme::Ident(
        id,
    ) ==> 0 <= id < n)
}

pub open spec fn is_ident_at(toks: Seq<SpecToken>, id: int, k: int) -> bool {
    0 <= k < toks.len() && toks[k].lexeme == SpecLexeme::Ident(id)
}

pub open spec fn has_ident(toks: Seq<SpecToken>, id: int) -> bool {
    exists|k: int| is_ident_at(toks, id, k)
}

/// Every recorded id is referenced by some identifier token.
pub open spec fn all_ids_used(toks: Seq<SpecToken>, n: int) -> bool {
    forall|id: int| 0 <= id < n ==> has_ident(toks, id)
}

/// `k` is the first token referencing `id`.
pub open spec fn first_ident_at(toks: Seq<SpecToken>, id: int, k: int) -> bool {
    is_ident_at(toks, id, k) && (forall|j: int| 0 <= j < k ==> (#[trigger] toks[j]).lexeme
        != SpecLexeme::Ident(id))
}

/// Ids are assigned in order of first appearance: a smaller id is first
/// referenced earlier.
pub open spec fn first_occurrences_ordered(toks: Seq<SpecToken>) -> bool {
    forall|a: int, b: int, ka: int, kb: int|
        a < b && #[trigger] first_ident_at(toks, a, ka) && #[trigger] first_ident_at(toks, b, kb)
            ==> ka < kb
}

/// The running invariant of the machine.
spec fn inv(m: Model) -> bool {
    &&& no_eof(m.tokens)
    &&& pos_le(m.token_start, m.pos)
    &&& starts_bounded(m.tokens, m.token_start)
    &&& tokens_well_placed(m.tokens)
    &&& starts_non_decreasing(m.tokens)
    &&& distinct_spellings(m.symbols)
    &&& ident_ids_bounded(m.tokens, m.symbols.len() as int)
    &&& all_ids_used(m.tokens, m.symbols.len() as int)
    &&& first_occurrences_ordered(m.tokens)
}

/// What holds of a finished scan.
pub open spec fn scan_result_props(r: Model) -> bool {
    &&& r.tokens.len() >= 1
    &&& r.tokens.last().lexeme == SpecLexeme::Eof
    &&& no_eof(r.tokens.drop_last())
    &&& tokens_well_placed(r.tokens)
    &&& starts_non_decreasing(r.tokens)
    &&& distinct_spellings(r.symbols)
    &&& ident_ids_bounded(r.tokens, r.symbols.len() as int)
    &&& all_ids_used(r.tokens, r.symbols.len() as int)
    &&& first_occurrences_ordered(r.tokens)
}

/// How appending a token changes which indices are first references.
proof fn lemma_push_firsts(toks: Seq<SpecToken>, t: SpecToken)
    ensures
        forall|x: int, k: int| 0 <= k < toks.len() ==> (#[trigger] first_ident_at(
            toks.push(t),
            x,
            k,
        ) <==> first_ident_at(toks, x, k)),
        forall|x: int| #[trigger] first_ident_at(toks.push(t), x, toks.len() as int) ==> t.lexeme
            == SpecLexeme::Ident(x) && !has_ident(toks, x),
        forall|x: int, k: int| #[trigger] is_ident_at(toks, x, k) ==> is_ident_at(
            toks.push(t),
            x,
            k,
        ),
{
    assert forall|x: int, k: int| 0 <= k < toks.len() implies (#[trigger] first_ident_at(
        toks.push(t),
        x,
        k,
    ) <==> first_ident_at(toks, x, k)) by {
        assert(toks.push(t)[k] == toks[k]);
        assert(forall|j: int| 0 <= j < k ==> toks.push(t)[j] == toks[j]);
    }
    assert forall|x: int| #[trigger] first_ident_at(toks.push(t), x, toks.len() as int) implies
        t.lexeme == SpecLexeme::Ident(x) && !has_ident(toks, x) by {
        assert(toks.push(t)[toks.len() as int] == t);
        if has_ident(toks, x) {
            let k = choose|k: int| is_ident_at(toks, x, k);
            assert(toks.push(t)[k] == toks[k]);
        }
    }
}

/// Appending a non-identifier, non-terminal token keeps the invariant.
proof fn lemma_push_plain(m: Model, lex: SpecLexeme, inclusive: bool)
    requires
        inv(m),
        lex != SpecLexeme::Eof,
        !(lex is Ident),
    ensures
        inv(if inclusive {
            pushed_inc(m, lex)
        } else {
            pushed_exc(m, lex)
        }),
{
    let m2 = if inclusive {
        pushed_inc(m, lex)
    } else {
        pushed_exc(m, lex)
    };
    let t = SpecToken {
        lexeme: lex,
        start: m.token_start,
        end: if inclusive {
            SpecBound::Included(m.pos)
        } else {
            SpecBound::Excluded(m.pos)
        },
    };
    lemma_push_firsts(m.tokens, t);
    assert(m2.tokens == m.tokens.push(t));
    assert forall|id: int| 0 <= id < m2.symbols.len() implies has_ident(m2.tokens, id) by {
        assert(has_ident(m.tokens, id));
        let k = choose|k: int| is_ident_at(m.tokens, id, k);
        assert(is_ident_at(m2.tokens, id, k));
    }
    assert forall|a: int, b: int, ka: int, kb: int|
        a < b && #[trigger] first_ident_at(m2.tokens, a, ka) && #[trigger] first_ident_at(
            m2.tokens,
            b,
            kb,
        ) implies ka < kb by {
        assert(m2.tokens[ka].lexeme == SpecLexeme::Ident(a));
        assert(m2.tokens[kb].lexeme == SpecLexeme::Ident(b));
        assert(ka < m.tokens.len() && kb < m.tokens.len());
    }
}

/// Appending a reference to an already-recorded id keeps the invariant.
proof fn lemma_push_ident_seen(m: Model, id: int)
    requires
        inv(m),
        0 <= id < m.symbols.len(),
        has_ident(m.tokens, id),
    ensures
        inv(pushed_exc(m, SpecLexeme::Ident(id))),
{
    let m2 = pushed_exc(m, SpecLexeme::Ident(id));
    let t = SpecToken {
        lexeme: SpecLexeme::Ident(id),
        start: m.token_start,
        end: SpecBound::Excluded(m.pos),
    };
    lemma_push_firsts(m.tokens, t);
    assert(m2.tokens == m.tokens.push(t));
    assert forall|x: int| 0 <= x < m2.symbols.len() implies has_ident(m2.tokens, x) by {
        assert(has_ident(m.tokens, x));
        let k = choose|k: int| is_ident_at(m.tokens, x, k);
        assert(is_ident_at(m2.tokens, x, k));
    }
    assert forall|a: int, b: int, ka: int, kb: int|
        a < b && #[trigger] first_ident_at(m2.tokens, a, ka) && #[trigger] first_ident_at(
            m2.tokens,
            b,
            kb,
        ) implies ka < kb by {
        if ka == m.tokens.len() {
            assert(!has_ident(m.tokens, a));
        }
        if kb == m.tokens.len() {
            assert(!has_ident(m.tokens, b));
        }
        assert(ka < m.tokens.len() && kb < m.tokens.len());
    }
}

/// Recording a new spelling and referencing it keeps the invariant: the new
/// id is the next sequential one and its first reference is the new token.
proof fn lemma_push_ident_new(m: Model, buf: Seq<char>)
    requires
        inv(m),
        !m.symbols.contains(buf),
    ensures
        inv(
            pushed_exc(
                Model {
                    tokens: m.tokens,
                    symbols: m.symbols.push(buf),
                    state: m.state,
                    token_start: m.token_start,
                    pos: m.pos,
                },
                SpecLexeme::Ident(m.symbols.len() as int),
            ),
        ),
{
    let n = m.symbols.len() as int;
    let ms = Model {
        tokens: m.tokens,
        symbols: m.symbols.push(buf),
        state: m.state,
        token_start: m.token_start,
        pos: m.pos,
    };
    let m2 = pushed_exc(ms, SpecLexeme::Ident(n));
    let t = SpecToken {
        lexeme: SpecLexeme::Ident(n),
        start: m.token_start,
        end: SpecBound::Excluded(m.pos),
    };
    lemma_push_firsts(m.tokens, t);
    assert(m2.tokens == m.tokens.push(t));
    assert forall|i: int, j: int| 0 <= i < j < m2.symbols.len() implies m2.symbols[i]
        != m2.symbols[j] by {
        if j == n {
            assert(m2.symbols[i] == m.symbols[i]);
            assert(!m.symbols.contains(buf));
            assert(m.symbols[i] != buf);
        }
    }
    assert forall|x: int| 0 <= x < m2.symbols.len() implies has_ident(m2.tokens, x) by {
        if x < n {
            assert(has_ident(m.tokens, x));
            let k = choose|k: int| is_ident_at(m.tokens, x, k);
            assert(is_ident_at(m2.tokens, x, k));
        } else {
            assert(is_ident_at(m2.tokens, x, m.tokens.len() as int));
        }
    }
    assert forall|a: int, b: int, ka: int, kb: int|
        a < b && #[trigger] first_ident_at(m2.tokens, a, ka) && #[trigger] first_ident_at(
            m2.tokens,
            b,
            kb,
        ) implies ka < kb by {
        if kb == m.tokens.len() {
            assert(b == n);
            if ka == m.tokens.len() {
                assert(a == n);
            }
            assert(ka < m.tokens.len());
        } else {
            assert(first_ident_at(m.tokens, b, kb));
            assert(m.tokens[kb].lexeme == SpecLexeme::Ident(b));
            assert(b < n);
            if ka == m.tokens.len() {
                assert(a == n);
            }
            assert(first_ident_at(m.tokens, a, ka));
        }
    }
}

proof fn lemma_mark_start(m: Model)
    requires
        inv(m),
    ensures
        inv(mark_start(m)),
{
}

/// Resolving a finished identifier keeps the invariant, whichever way it
/// resolves.
proof fn lemma_ident_resolved_inv(m: Model, buf: Seq<char>)
    requires
        inv(m),
    ensures
        inv(ident_resolved(m, buf)),
{
    let m1 = with_state(m, St::Common);
    assert(inv(m1));
    m.symbols.index_of_first_ensures(buf);
    match keyword_lexeme(buf) {
        Some(k) => {
            lemma_push_plain(m1, k, false);
        },
        None => match m.symbols.index_of_first(buf) {
            Some(i) => {
                lemma_push_ident_seen(m1, i);
            },
            None => {
                lemma_push_ident_new(m1, buf);
            },
        },
    }
}

/// One offered character keeps the invariant.
proof fn lemma_trans_inv(m: Model, c: char)
    requires
        inv(m),
    ensures
        inv(trans(m, c).0),
{
    match m.state {
        St::Common => {
            lemma_mark_start(m);
            let m1 = mark_start(m);
            lemma_push_plain(m1, punct_lexeme(c), true);
        },
        St::Operator { first } => {
            let m1 = with_state(m, St::Common);
            assert(inv(m1));
            lemma_push_plain(m1, SpecLexeme::OpSolidus, false);
            lemma_push_plain(m1, SpecLexeme::OpAssign, true);
            lemma_push_plain(m1, SpecLexeme::OpLessEqual, true);
            lemma_push_plain(m1, SpecLexeme::OpLess, false);
            lemma_push_plain(m1, SpecLexeme::OpGreaterEqual, true);
            lemma_push_plain(m1, SpecLexeme::OpGreater, false);
            lemma_push_plain(m1, SpecLexeme::Error, false);
        },
        St::Ident { buf } => {
            lemma_ident_resolved_inv(m, buf);
        },
        St::StrLit { buf } => {
            lemma_push_plain(m, SpecLexeme::StrLit(buf), true);
        },
        St::StrEsc { buf } => {},
        St::Number { buf, radix } => {
            let m1 = with_state(m, St::Common);
            assert(inv(m1));
            lemma_push_plain(m1, num_lexeme(buf, radix), false);
            lemma_push_plain(m1, num_lexeme(buf, 10), false);
        },
        St::Decimal { buf } => {
            let m1 = with_state(m, St::Common);
            assert(inv(m1));
            lemma_push_plain(m1, SpecLexeme::Decimal64(buf), false);
        },
        _ => {},
    }
}

proof fn lemma_step_inv(m: Model, c: char)
    requires
        inv(m),
    ensures
        inv(step(m, c)),
{
    lemma_trans_inv(m, c);
    let (m1, consumed) = trans(m, c);
    if !consumed {
        lemma_trans_inv(m1, c);
    }
}

/// Finalization resolves any open token, then appends the one end-of-input
/// token, yielding the finished-scan properties.
proof fn lemma_finalized_props(m: Model)
    requires
        inv(m),
    ensures
        scan_result_props(finalized(m)),
{
    let m1 = match m.state {
        St::Common | St::BlockComment | St::BlockCommentAst | St::LineComment => m,
        St::Operator { first } => trans_op(m, first, '\0').0,
        St::Ident { buf } => ident_resolved(m, buf),
        St::StrLit { buf } => pushed_exc(m, SpecLexeme::Error),
        St::StrEsc { buf } => pushed_exc(m, SpecLexeme::Error),
        St::Number { buf, radix } => trans_num(m, buf, radix, '\0').0,
        St::Decimal { buf } => trans_dec(m, buf, '\0').0,
    };
    match m.state {
        St::Common | St::BlockComment | St::BlockCommentAst | St::LineComment => {},
        St::Operator { first } => {
            let mc = with_state(m, St::Common);
            assert(inv(mc));
            lemma_push_plain(mc, SpecLexeme::OpSolidus, false);
            lemma_push_plain(mc, SpecLexeme::OpAssign, true);
            lemma_push_plain(mc, SpecLexeme::OpLessEqual, true);
            lemma_push_plain(mc, SpecLexeme::OpLess, false);
            lemma_push_plain(mc, SpecLexeme::OpGreaterEqual, true);
            lemma_push_plain(mc, SpecLexeme::OpGreater, false);
            lemma_push_plain(mc, SpecLexeme::Error, false);
        },
        St::Ident { buf } => {
            lemma_ident_resolved_inv(m, buf);
        },
        St::StrLit { buf } => {
            lemma_push_plain(m, SpecLexeme::Error, false);
        },
        St::StrEsc { buf } => {
            lemma_push_plain(m, SpecLexeme::Error, false);
        },
        St::Number { buf, radix } => {
            let mc = with_state(m, St::Common);
            assert(inv(mc));
            lemma_push_plain(mc, num_lexeme(buf, radix), false);
            lemma_push_plain(mc, num_lexeme(buf, 10), false);
        },
        St::Decimal { buf } => {
            let mc = with_state(m, St::Common);
            assert(inv(mc));
            lemma_push_plain(mc, SpecLexeme::Decimal64(buf), false);
        },
    }
    assert(inv(m1));
    lemma_mark_start(m1);
    let m2 = mark_start(m1);
    let t = SpecToken {
        lexeme: SpecLexeme::Eof,
        start: m2.token_start,
        end: SpecBound::Excluded(m2.pos),
    };
    let mf = pushed_exc(m2, SpecLexeme::Eof);
    lemma_push_firsts(m2.tokens, t);
    assert(mf.tokens == m2.tokens.push(t));
    assert(mf.tokens.drop_last() =~= m2.tokens);
    assert forall|id: int| 0 <= id < mf.symbols.len() implies has_ident(mf.tokens, id) by {
        assert(has_ident(m2.tokens, id));
        let k = choose|k: int| is_ident_at(m2.tokens, id, k);
        assert(is_ident_at(mf.tokens, id, k));
    }
    assert forall|a: int, b: int, ka: int, kb: int|
        a < b && #[trigger] first_ident_at(mf.tokens, a, ka) && #[trigger] first_ident_at(
            mf.tokens,
            b,
            kb,
        ) implies ka < kb by {
        assert(mf.tokens[ka].lexeme == SpecLexeme::Ident(a));
        assert(mf.tokens[kb].lexeme == SpecLexeme::Ident(b));
        assert(ka < m2.tokens.len() && kb < m2.tokens.len());
    }
}

proof fn lemma_scan_from_props(m: Model, input: Seq<char>, i: int)
    requires
        inv(m),
    ensures
        scan_result_props(scan_from(m, input, i)),
    decreases input.len() - i,
{
    if i < 0 || i >= input.len() {
        lemma_finalized_props(m);
    } else {
        lemma_step_inv(m, input[i]);
        lemma_scan_from_props(step(m, input[i]), input, i + 1);
    }
}

proof fn lemma_scan_props(input: Seq<char>)
    ensures
        scan_result_props(scan(input)),
{
    assert(inv(init_model()));
    lemma_scan_from_props(init_model(), input, 0);
}

/// For any input, scanning yields a token list that ends with exactly one
/// end-of-input token: the list is never empty, its last token is the
/// end-of-input marker, and no earlier token is. (That the scanner
/// terminates is inherent: `scan` is a total function of the input, and the
/// executable scanner is verified against it with decreasing measures.)
pub proof fn lemma_ends_with_single_eof(input: Seq<char>)
    ensures
        scan(input).tokens.len() >= 1,
        scan(input).tokens.last().lexeme == SpecLexeme::Eof,
        no_eof(scan(input).tokens.drop_last()),
{
    lemma_scan_props(input);
}

/// For any input, every token starts no later than its resolved end
/// position under line/column ordering, and start positions never decrease
/// across the token list.
pub proof fn lemma_positions_ordered(input: Seq<char>)
    ensures
        tokens_well_placed(scan(input).tokens),
        starts_non_decreasing(scan(input).tokens),
{
    lemma_scan_props(input);
}

/// For any input, identifier interning is consistent: every identifier
/// token's id indexes the symbol list, recorded spellings are pairwise
/// distinct (so one spelling always resolves to one id, and distinct
/// spellings to distinct ids), every id is referenced, and ids are assigned
/// in order of first appearance.
pub proof fn lemma_interning_consistent(input: Seq<char>)
    ensures
        ident_ids_bounded(scan(input).tokens, scan(input).symbols.len() as int),
        distinct_spellings(scan(input).symbols),
        all_ids_used(scan(input).tokens, scan(input).symbols.len() as int),
        first_occurrences_ordered(scan(input).tokens),
{
    lemma_scan_props(input);
}

} // verus!
