use pl0_lexer::lang::{Bound, Lexeme, Position, Text};
use pl0_lexer::lexer::Lexer;

fn scan(source: &str) -> Text {
    let chars: Vec<char> = source.chars().collect();
    Lexer::parse(&chars)
}

fn lexemes(t: &Text) -> Vec<&Lexeme> {
    t.tokens.iter().map(|tok| &tok.lexeme).collect()
}

fn pos(line: usize, col: usize) -> Position {
    Position { col, line }
}

#[test]
fn empty_input_yields_single_eof() {
    let t = scan("");
    assert_eq!(t.tokens.len(), 1);
    assert_eq!(t.tokens[0].lexeme, Lexeme::Eof);
    assert_eq!(t.tokens[0].start, pos(1, 1));
    assert_eq!(t.tokens[0].end, Bound::Excluded(pos(1, 1)));
    assert!(t.symbols.is_empty());
}

#[test]
fn whitespace_only_yields_single_eof() {
    let t = scan("  \t\n ");
    assert_eq!(t.tokens.len(), 1);
    assert_eq!(t.tokens[0].lexeme, Lexeme::Eof);
}

#[test]
fn binary_number() {
    let t = scan("0b101");
    assert_eq!(t.tokens[0].lexeme, Lexeme::Number32(5));
    assert_eq!(t.tokens.len(), 2);
}

#[test]
fn octal_number() {
    let t = scan("0o17");
    assert_eq!(t.tokens[0].lexeme, Lexeme::Number32(15));
}

#[test]
fn hex_number() {
    let t = scan("0x1F");
    assert_eq!(t.tokens[0].lexeme, Lexeme::Number32(31));
}

#[test]
fn plain_number() {
    let t = scan("42");
    assert_eq!(t.tokens[0].lexeme, Lexeme::Number32(42));
}

#[test]
fn decimal_literal_keeps_spelling() {
    let t = scan("3.14");
    match &t.tokens[0].lexeme {
        Lexeme::Decimal64(s) => {
            assert_eq!(s, "3.14");
            assert_eq!(s.parse::<f64>().unwrap(), 3.14);
        },
        other => panic!("expected a decimal literal, got {:?}", other),
    }
}

#[test]
fn overflowing_number_is_error() {
    let t = scan("99999999999999999999");
    assert_eq!(t.tokens[0].lexeme, Lexeme::Error);
    assert_eq!(t.tokens.len(), 2);
}

#[test]
fn number_boundary_u32() {
    let t = scan("4294967295");
    assert_eq!(t.tokens[0].lexeme, Lexeme::Number32(4294967295));
    let t = scan("4294967296");
    assert_eq!(t.tokens[0].lexeme, Lexeme::Error);
}

#[test]
fn leading_zeros_read_as_decimal() {
    let t = scan("007");
    assert_eq!(t.tokens[0].lexeme, Lexeme::Number32(7));
}

#[test]
fn radix_prefix_without_digits_is_error() {
    let t = scan("0b");
    assert_eq!(t.tokens[0].lexeme, Lexeme::Error);
    assert_eq!(t.tokens.len(), 2);
}

#[test]
fn unterminated_block_comment_is_silent() {
    let t = scan("/* a /* nested comment");
    assert_eq!(t.tokens.len(), 1);
    assert_eq!(t.tokens[0].lexeme, Lexeme::Eof);
}

#[test]
fn block_comments_do_not_nest() {
    let t = scan("/* a /* nested */ comment");
    assert_eq!(lexemes(&t), vec![&Lexeme::Ident(0), &Lexeme::Eof]);
    assert_eq!(t.symbols, vec!["comment".to_string()]);
}

#[test]
fn unterminated_string_is_one_error() {
    let t = scan("\"abc");
    assert_eq!(t.tokens.len(), 2);
    assert_eq!(t.tokens[0].lexeme, Lexeme::Error);
    assert_eq!(t.tokens[0].start, pos(1, 1));
    assert_eq!(t.tokens[0].end, Bound::Excluded(pos(1, 5)));
    assert_eq!(t.tokens[1].lexeme, Lexeme::Eof);
}

#[test]
fn string_literal_with_escape() {
    let t = scan("\"a\\\"b\"");
    match &t.tokens[0].lexeme {
        Lexeme::StrLit(s) => assert_eq!(s, "a\\\"b"),
        other => panic!("expected a string literal, got {:?}", other),
    }
    assert_eq!(t.tokens[0].end, Bound::Included(pos(1, 6)));
}

#[test]
fn lone_colon_is_error() {
    let t = scan(":");
    assert_eq!(t.tokens.len(), 2);
    assert_eq!(t.tokens[0].lexeme, Lexeme::Error);
    assert_eq!(t.tokens[0].start, pos(1, 1));
    assert_eq!(t.tokens[1].lexeme, Lexeme::Eof);
}

#[test]
fn assign_operator() {
    let t = scan(":=");
    assert_eq!(t.tokens.len(), 2);
    assert_eq!(t.tokens[0].lexeme, Lexeme::OpAssign);
    assert_eq!(t.tokens[0].start, pos(1, 1));
    assert_eq!(t.tokens[0].end, Bound::Included(pos(1, 2)));
}

#[test]
fn comparison_operators() {
    let t = scan("< <= > >= /");
    assert_eq!(
        lexemes(&t),
        vec![
            &Lexeme::OpLess,
            &Lexeme::OpLessEqual,
            &Lexeme::OpGreater,
            &Lexeme::OpGreaterEqual,
            &Lexeme::OpSolidus,
            &Lexeme::Eof,
        ],
    );
}

#[test]
fn interning_reuses_ids_in_first_seen_order() {
    let t = scan("x y x");
    assert_eq!(
        lexemes(&t),
        vec![&Lexeme::Ident(0), &Lexeme::Ident(1), &Lexeme::Ident(0), &Lexeme::Eof],
    );
    assert_eq!(t.symbols, vec!["x".to_string(), "y".to_string()]);
}

#[test]
fn all_keywords() {
    let t = scan("begin call const do end if odd procedure then var while");
    assert_eq!(
        lexemes(&t),
        vec![
            &Lexeme::KwBegin,
            &Lexeme::KwCall,
            &Lexeme::KwConst,
            &Lexeme::KwDo,
            &Lexeme::KwEnd,
            &Lexeme::KwIf,
            &Lexeme::KwOdd,
            &Lexeme::KwProcedure,
            &Lexeme::KwThen,
            &Lexeme::KwVar,
            &Lexeme::KwWhile,
            &Lexeme::Eof,
        ],
    );
    assert!(t.symbols.is_empty());
}

#[test]
fn keyword_match_is_case_sensitive() {
    let t = scan("Begin");
    assert_eq!(t.tokens[0].lexeme, Lexeme::Ident(0));
    assert_eq!(t.symbols, vec!["Begin".to_string()]);
}

#[test]
fn punctuation_signs() {
    let t = scan("!#()*+,-.;=?");
    assert_eq!(
        lexemes(&t),
        vec![
            &Lexeme::SignExclamation,
            &Lexeme::SignNumber,
            &Lexeme::SignLParen,
            &Lexeme::SignRParen,
            &Lexeme::SignAsterisk,
            &Lexeme::SignPlus,
            &Lexeme::SignComma,
            &Lexeme::SignMinus,
            &Lexeme::SignFullStop,
            &Lexeme::SignSemicolon,
            &Lexeme::SignEquals,
            &Lexeme::SignQuestion,
            &Lexeme::Eof,
        ],
    );
}

#[test]
fn unrecognized_character_is_error() {
    let t = scan("@");
    assert_eq!(t.tokens[0].lexeme, Lexeme::Error);
    assert_eq!(t.tokens[0].end, Bound::Included(pos(1, 1)));
}

#[test]
fn line_comment_runs_to_newline() {
    let t = scan("// hi\n;");
    assert_eq!(t.tokens.len(), 2);
    assert_eq!(t.tokens[0].lexeme, Lexeme::SignSemicolon);
    assert_eq!(t.tokens[0].start, pos(2, 1));
}

#[test]
fn positions_advance_across_newlines() {
    let t = scan("a\nb");
    assert_eq!(t.tokens[0].start, pos(1, 1));
    assert_eq!(t.tokens[1].start, pos(2, 1));
    assert_eq!(lexemes(&t), vec![&Lexeme::Ident(0), &Lexeme::Ident(1), &Lexeme::Eof]);
}

#[test]
fn decimal_stops_at_second_dot() {
    let t = scan("1.2.3");
    match &t.tokens[0].lexeme {
        Lexeme::Decimal64(s) => assert_eq!(s, "1.2"),
        other => panic!("expected a decimal literal, got {:?}", other),
    }
    assert_eq!(t.tokens[1].lexeme, Lexeme::SignFullStop);
    assert_eq!(t.tokens[2].lexeme, Lexeme::Number32(3));
    assert_eq!(t.tokens[3].lexeme, Lexeme::Eof);
}

#[test]
fn identifier_spans_alphanumerics() {
    let t = scan("a1b2 ");
    assert_eq!(t.tokens[0].lexeme, Lexeme::Ident(0));
    assert_eq!(t.symbols, vec!["a1b2".to_string()]);
}

#[test]
fn identifier_may_be_unicode() {
    let t = scan("caf\u{e9}");
    assert_eq!(t.tokens[0].lexeme, Lexeme::Ident(0));
    assert_eq!(t.symbols, vec!["caf\u{e9}".to_string()]);
}

#[test]
fn solidus_between_identifiers() {
    let t = scan("a/b");
    assert_eq!(
        lexemes(&t),
        vec![&Lexeme::Ident(0), &Lexeme::OpSolidus, &Lexeme::Ident(1), &Lexeme::Eof],
    );
}

#[test]
fn every_scan_ends_with_one_eof() {
    for source in ["", "x", ":= := :", "/*", "\"", "0x", "1.2.3.4", "a b c a"] {
        let t = scan(source);
        let n = t.tokens.len();
        assert!(n >= 1);
        assert_eq!(t.tokens[n - 1].lexeme, Lexeme::Eof);
        for tok in &t.tokens[..n - 1] {
            assert_ne!(tok.lexeme, Lexeme::Eof);
        }
    }
}

#[test]
fn token_starts_never_decrease() {
    let t = scan("const answer := 42; /* c */ print(answer) // done\nx <= 3.5");
    let mut prev = (1usize, 1usize);
    for tok in &t.tokens {
        let cur = (tok.start.line, tok.start.col);
        assert!(prev <= cur);
        prev = cur;
    }
}

#[test]
fn constructors_keep_their_fields() {
    let tok = pl0_lexer::lang::Token::new(Lexeme::SignPlus, pos(1, 2), Bound::Included(pos(1, 2)));
    assert_eq!(tok.lexeme, Lexeme::SignPlus);
    assert_eq!(tok.start, pos(1, 2));
    assert_eq!(tok.end, Bound::Included(pos(1, 2)));
    let text = Text::new(vec![tok], vec!["x".to_string()]);
    assert_eq!(text.tokens.len(), 1);
    assert_eq!(text.symbols, vec!["x".to_string()]);
}

#[test]
fn mixed_program_scans_fully() {
    let t = scan("var x;\nbegin\n  x := 0x10 + 2.5;\n  call show(\"x=\", x)\nend.");
    assert!(t.tokens.iter().all(|tok| tok.lexeme != Lexeme::Error));
    assert_eq!(t.symbols, vec!["x".to_string(), "show".to_string()]);
    let n = t.tokens.len();
    assert_eq!(t.tokens[n - 1].lexeme, Lexeme::Eof);
}
