use lambda_lexer::LexingError;
use lambda_lexer::Scanner;
use lambda_lexer::Token;
use lambda_lexer::tokenize;

#[test]
fn grammatical_input_has_no_errors() {
    let src = "let x = 3\ndup y = (x + 2) * 4 // trailing words\n/* c /* d */ e */ @ z <= 3 ; \u{03BB}f";
    let tokens = tokenize(src);
    assert!(!tokens.is_empty());
    for t in tokens {
        assert!(!matches!(t, Token::Error(_)));
    }
}

#[test]
fn let_binding_tokens() {
    assert_eq!(
        tokenize("let x = 3"),
        vec![
            Token::Let,
            Token::Name("x".to_string()),
            Token::Equals,
            Token::Number(3),
        ]
    );
}

#[test]
fn dup_keyword_wins_over_name() {
    assert_eq!(tokenize("dup"), vec![Token::Dup]);
}

#[test]
fn let_keyword_wins_over_name() {
    assert_eq!(tokenize("let"), vec![Token::Let]);
}

#[test]
fn lte_is_one_token() {
    assert_eq!(tokenize("<="), vec![Token::Lte]);
}

#[test]
fn shifts_use_maximal_munch() {
    assert_eq!(
        tokenize("1<<2>>1"),
        vec![
            Token::Number(1),
            Token::Shl,
            Token::Number(2),
            Token::Shr,
            Token::Number(1),
        ]
    );
}

#[test]
fn nested_comment_lexes_to_nothing() {
    assert_eq!(tokenize("/* a /* b */ c */"), vec![]);
}

#[test]
fn adjacent_nested_comment_delimiters() {
    assert_eq!(tokenize("/*/**/*/"), vec![]);
}

#[test]
fn unclosed_comment_is_one_error_and_nothing_else() {
    assert_eq!(
        tokenize("/* unterminated"),
        vec![Token::Error(LexingError::UnclosedComment)]
    );
}

#[test]
fn slash_inside_unclosed_comment_stays_unclosed() {
    assert_eq!(
        tokenize("/*/"),
        vec![Token::Error(LexingError::UnclosedComment)]
    );
}

#[test]
fn stray_close_after_comment_is_relexed() {
    assert_eq!(tokenize("/*x*/*/"), vec![Token::Mul, Token::Div]);
}

#[test]
fn invalid_character_in_isolation() {
    assert_eq!(
        tokenize("#"),
        vec![Token::Error(LexingError::InvalidCharacter)]
    );
}

#[test]
fn scanning_continues_after_invalid_character() {
    assert_eq!(
        tokenize("# x"),
        vec![
            Token::Error(LexingError::InvalidCharacter),
            Token::Name("x".to_string()),
        ]
    );
}

#[test]
fn keyword_prefixes_are_plain_names() {
    assert_eq!(
        tokenize("letter dupped lets"),
        vec![
            Token::Name("letter".to_string()),
            Token::Name("dupped".to_string()),
            Token::Name("lets".to_string()),
        ]
    );
}

#[test]
fn identifier_forms() {
    assert_eq!(
        tokenize("_a A9 _9"),
        vec![
            Token::Name("_a".to_string()),
            Token::Name("A9".to_string()),
            Token::Name("_9".to_string()),
        ]
    );
}

#[test]
fn both_lambda_markers() {
    assert_eq!(tokenize("@ \u{03BB}"), vec![Token::Lambda, Token::Lambda]);
}

#[test]
fn single_character_operators() {
    assert_eq!(
        tokenize("+ - * / % & | ^ ; ( ) = < >"),
        vec![
            Token::Add,
            Token::Sub,
            Token::Mul,
            Token::Div,
            Token::Mod,
            Token::And,
            Token::Or,
            Token::Xor,
            Token::Semicolon,
            Token::LParen,
            Token::RParen,
            Token::Equals,
            Token::Ltn,
            Token::Gtn,
        ]
    );
}

#[test]
fn two_character_operators() {
    assert_eq!(
        tokenize("== != <= >= << >>"),
        vec![
            Token::EqualsEquals,
            Token::NotEquals,
            Token::Lte,
            Token::Gte,
            Token::Shl,
            Token::Shr,
        ]
    );
}

#[test]
fn bang_alone_is_invalid() {
    assert_eq!(
        tokenize("!"),
        vec![Token::Error(LexingError::InvalidCharacter)]
    );
}

#[test]
fn newline_is_a_significant_token() {
    assert_eq!(
        tokenize("a\nb"),
        vec![
            Token::Name("a".to_string()),
            Token::NewLine,
            Token::Name("b".to_string()),
        ]
    );
}

#[test]
fn line_comment_does_not_consume_newline() {
    assert_eq!(
        tokenize("a // c\nb"),
        vec![
            Token::Name("a".to_string()),
            Token::NewLine,
            Token::Name("b".to_string()),
        ]
    );
}

#[test]
fn line_comment_at_end_of_input() {
    assert_eq!(tokenize("// x"), vec![]);
}

#[test]
fn horizontal_whitespace_is_discarded() {
    assert_eq!(tokenize(" \t\r\u{000C}"), vec![]);
}

#[test]
fn number_values_parse_exactly() {
    assert_eq!(
        tokenize("0 007 18446744073709551615"),
        vec![
            Token::Number(0),
            Token::Number(7),
            Token::Number(18446744073709551615),
        ]
    );
}

#[test]
fn number_just_past_range_fails() {
    assert_eq!(
        tokenize("18446744073709551616"),
        vec![Token::Error(LexingError::InvalidCharacter)]
    );
}

#[test]
fn long_digit_run_fails_as_one_lexeme() {
    assert_eq!(
        tokenize("99999999999999999999999 7"),
        vec![
            Token::Error(LexingError::InvalidCharacter),
            Token::Number(7),
        ]
    );
}

#[test]
fn digits_then_letter_split() {
    assert_eq!(
        tokenize("3x"),
        vec![Token::Number(3), Token::Name("x".to_string())]
    );
}

#[test]
fn empty_input_lexes_to_nothing() {
    assert_eq!(tokenize(""), vec![]);
    let mut sc = Scanner::from_text("");
    assert_eq!(sc.next(), None);
}

#[test]
fn scanner_pulls_tokens_one_at_a_time() {
    let mut sc = Scanner::from_text("let x");
    assert_eq!(sc.next(), Some(Token::Let));
    assert_eq!(sc.next(), Some(Token::Name("x".to_string())));
    assert_eq!(sc.next(), None);
    assert_eq!(sc.next(), None);
}

#[test]
fn scanner_cursor_moves_forward_only() {
    let mut sc = Scanner::from_text("a /* c */ b");
    let mut last = sc.pos();
    while let Some(_) = sc.next() {
        assert!(sc.pos() > last);
        last = sc.pos();
    }
    assert_eq!(sc.pos(), 11);
}

#[test]
fn scanner_from_char_vector() {
    let chars: Vec<char> = "dup q".chars().collect();
    let mut sc = Scanner::new(chars);
    assert_eq!(sc.next(), Some(Token::Dup));
    assert_eq!(sc.next(), Some(Token::Name("q".to_string())));
    assert_eq!(sc.next(), None);
}

#[test]
fn spans_cover_the_emitting_lexeme() {
    let mut sc = Scanner::from_text("  let x");
    assert_eq!(sc.next_spanned(), Some((Token::Let, 2, 5)));
    assert_eq!(sc.next_spanned(), Some((Token::Name("x".to_string()), 6, 7)));
    assert_eq!(sc.next_spanned(), None);
}

#[test]
fn span_of_invalid_character_is_its_offset() {
    let mut sc = Scanner::from_text("a #");
    assert_eq!(sc.next_spanned(), Some((Token::Name("a".to_string()), 0, 1)));
    assert_eq!(
        sc.next_spanned(),
        Some((Token::Error(LexingError::InvalidCharacter), 2, 3))
    );
}

#[test]
fn render_fixed_tokens() {
    assert_eq!(Token::Let.render(), "let");
    assert_eq!(Token::Dup.render(), "dup");
    assert_eq!(Token::Lambda.render(), "\u{03BB}");
    assert_eq!(Token::Shl.render(), "<<");
    assert_eq!(Token::Lte.render(), "<=");
    assert_eq!(Token::Equals.render(), "=");
    assert_eq!(Token::Semicolon.render(), ";");
}

#[test]
fn render_placeholder_labels() {
    assert_eq!(Token::NewLine.render(), "<NewLine>");
    assert_eq!(Token::SingleLineComment.render(), "<SingleLineComment>");
    assert_eq!(Token::MultiLineComment.render(), "<MultiLineComment>");
    assert_eq!(Token::Whitespace.render(), "<Whitespace>");
    assert_eq!(
        Token::Error(LexingError::InvalidCharacter).render(),
        "<InvalidCharacter>"
    );
    assert_eq!(
        Token::Error(LexingError::UnclosedComment).render(),
        "<UnclosedComment>"
    );
}

#[test]
fn render_payload_tokens() {
    assert_eq!(Token::Name("foo".to_string()).render(), "foo");
    assert_eq!(Token::Number(0).render(), "0");
    assert_eq!(Token::Number(123).render(), "123");
    assert_eq!(Token::Number(18446744073709551615).render(), "18446744073709551615");
}

#[test]
fn invalid_character_error_is_the_default() {
    assert_eq!(LexingError::default(), LexingError::InvalidCharacter);
}

#[test]
fn deep_comment_nesting() {
    let mut src = String::new();
    for _ in 0..2000 {
        src.push_str("/*");
    }
    src.push_str("body");
    for _ in 0..2000 {
        src.push_str("*/");
    }
    assert_eq!(tokenize(&src), vec![]);
    src.push_str("ok");
    assert_eq!(tokenize(&src), vec![Token::Name("ok".to_string())]);
}

#[test]
fn comment_spanning_lines() {
    assert_eq!(
        tokenize("a /* one\ntwo\nthree */ b"),
        vec![Token::Name("a".to_string()), Token::Name("b".to_string())]
    );
}
