use mini_rustc::{at_eof, expect_number, expect_token, tokenize, TokenKind};

#[test]
fn test_tokenize_empty_or_whitespace_only() {
    let kinds: Vec<TokenKind> = tokenize("   ")
        .unwrap()
        .into_iter()
        .map(|tok| tok.kind)
        .collect();
    assert_eq!(kinds, vec![TokenKind::Eof]);
}

#[test]
fn test_tokenize_panic_on_invalid_char() {
    let err = tokenize("?").unwrap_err();
    assert_eq!(err.msg, "invalid character");
    assert_eq!(err.pos, 0);
}

#[test]
fn test_tokenize_numbers_and_arithmetic() {
    let tokens = tokenize("12 + 34 -5").unwrap();
    let mut kinds: Vec<&TokenKind> = Vec::new();
    for t in tokens.iter() {
        kinds.push(&t.kind);
    }
    assert_eq!(
        kinds,
        vec![
            &TokenKind::Number { num: 12 },
            &TokenKind::Plus,
            &TokenKind::Number { num: 34 },
            &TokenKind::Minus,
            &TokenKind::Number { num: 5 },
            &TokenKind::Eof,
        ]
    );
}

#[test]
fn test_into_iterator() {
    let kinds: Vec<TokenKind> = tokenize("12 + 34 -5")
        .unwrap()
        .into_iter()
        .map(|tok| tok.kind)
        .collect();
    assert_eq!(
        kinds,
        vec![
            TokenKind::Number { num: 12 },
            TokenKind::Plus,
            TokenKind::Number { num: 34 },
            TokenKind::Minus,
            TokenKind::Number { num: 5 },
            TokenKind::Eof,
        ]
    );
}

#[test]
fn test_tokenize_ident() {
    let kinds: Vec<TokenKind> = tokenize("foo bar")
        .unwrap()
        .into_iter()
        .map(|tok| tok.kind)
        .collect();
    assert_eq!(
        kinds,
        vec![
            TokenKind::Ident {
                name: "foo".to_string()
            },
            TokenKind::Ident {
                name: "bar".to_string()
            },
            TokenKind::Eof,
        ]
    );
}

#[test]
fn test_tokenize_alphanumeric_ident() {
    let kinds: Vec<TokenKind> = tokenize("foo123 bar456")
        .unwrap()
        .into_iter()
        .map(|tok| tok.kind)
        .collect();
    assert_eq!(
        kinds,
        vec![
            TokenKind::Ident {
                name: "foo123".into()
            },
            TokenKind::Ident {
                name: "bar456".into()
            },
            TokenKind::Eof,
        ]
    );
}

#[test]
fn test_tokenize_i32_keyword_and_ident_mix() {
    let kinds: Vec<TokenKind> = tokenize("i32 i32foo fooi32")
        .unwrap()
        .into_iter()
        .map(|tok| tok.kind)
        .collect();
    assert_eq!(
        kinds,
        vec![
            TokenKind::I32,
            TokenKind::Ident {
                name: "i32foo".into()
            },
            TokenKind::Ident {
                name: "fooi32".into()
            },
            TokenKind::Eof,
        ]
    );
}

#[test]
fn test_tokenize_control_flow_keywords() {
    let keywords = ["return", "if", "else", "while", "for", "let"];
    let expected = [
        TokenKind::Return,
        TokenKind::If,
        TokenKind::Else,
        TokenKind::While,
        TokenKind::For,
        TokenKind::Let,
    ];
    for (i, &kw) in keywords.iter().enumerate() {
        let kinds: Vec<TokenKind> = tokenize(kw)
            .unwrap()
            .into_iter()
            .map(|tok| tok.kind)
            .collect();
        assert_eq!(kinds, vec![expected[i].clone(), TokenKind::Eof]);
    }
}

#[test]
fn test_tokenize_fn_keyword() {
    let kinds: Vec<TokenKind> = tokenize("fn")
        .unwrap()
        .into_iter()
        .map(|tok| tok.kind)
        .collect();
    assert_eq!(kinds, vec![TokenKind::Fn, TokenKind::Eof]);
}

#[test]
fn test_tokenize_fn_declaration() {
    let kinds: Vec<TokenKind> = tokenize("fn foo() { return 42; }")
        .unwrap()
        .into_iter()
        .map(|tok| tok.kind)
        .collect();
    assert_eq!(
        kinds,
        vec![
            TokenKind::Fn,
            TokenKind::Ident {
                name: "foo".to_string()
            },
            TokenKind::LParen,
            TokenKind::RParen,
            TokenKind::LBrace,
            TokenKind::Return,
            TokenKind::Number { num: 42 },
            TokenKind::Semicolon,
            TokenKind::RBrace,
            TokenKind::Eof,
        ]
    );
}

#[test]
fn test_tokenize_parens() {
    let kinds: Vec<TokenKind> = tokenize("(1+2)*3")
        .unwrap()
        .into_iter()
        .map(|tok| tok.kind)
        .collect();
    assert_eq!(
        kinds,
        vec![
            TokenKind::LParen,
            TokenKind::Number { num: 1 },
            TokenKind::Plus,
            TokenKind::Number { num: 2 },
            TokenKind::RParen,
            TokenKind::Star,
            TokenKind::Number { num: 3 },
            TokenKind::Eof,
        ]
    );
}

#[test]
fn test_tokenize_call_tokens() {
    let kinds: Vec<TokenKind> = tokenize("foo(1,2)")
        .unwrap()
        .into_iter()
        .map(|tok| tok.kind)
        .collect();
    assert_eq!(
        kinds,
        vec![
            TokenKind::Ident {
                name: "foo".to_string()
            },
            TokenKind::LParen,
            TokenKind::Number { num: 1 },
            TokenKind::Comma,
            TokenKind::Number { num: 2 },
            TokenKind::RParen,
            TokenKind::Eof,
        ]
    );
}

#[test]
fn test_tokenize_ampersand_delimiter() {
    let kinds: Vec<TokenKind> = tokenize("&")
        .unwrap()
        .into_iter()
        .map(|tok| tok.kind)
        .collect();
    assert_eq!(kinds, vec![TokenKind::Amp, TokenKind::Eof]);
}

#[test]
fn test_tokenize_arrow_delimiter() {
    let kinds: Vec<TokenKind> = tokenize("->")
        .unwrap()
        .into_iter()
        .map(|tok| tok.kind)
        .collect();
    assert_eq!(kinds, vec![TokenKind::Arrow, TokenKind::Eof]);
}

#[test]
fn test_tokenize_arithmetic_operators() {
    let kinds: Vec<TokenKind> = tokenize("+ - * /")
        .unwrap()
        .into_iter()
        .map(|tok| tok.kind)
        .collect();
    assert_eq!(
        kinds,
        vec![
            TokenKind::Plus,
            TokenKind::Minus,
            TokenKind::Star,
            TokenKind::Slash,
            TokenKind::Eof,
        ]
    );
}

#[test]
fn test_tokenize_comparison_operators() {
    let kinds: Vec<TokenKind> = tokenize("== != < <= > >=")
        .unwrap()
        .into_iter()
        .map(|tok| tok.kind)
        .collect();
    assert_eq!(
        kinds,
        vec![
            TokenKind::EqEq,
            TokenKind::Ne,
            TokenKind::Lt,
            TokenKind::Le,
            TokenKind::Gt,
            TokenKind::Ge,
            TokenKind::Eof,
        ]
    );
}

#[test]
fn test_tokenize_assignment_and_punctuation() {
    let kinds: Vec<TokenKind> = tokenize("= ; , :")
        .unwrap()
        .into_iter()
        .map(|tok| tok.kind)
        .collect();
    assert_eq!(
        kinds,
        vec![
            TokenKind::Assign,
            TokenKind::Semicolon,
            TokenKind::Comma,
            TokenKind::Colon,
            TokenKind::Eof,
        ]
    );
}

#[test]
fn test_tokenize_grouping_and_brackets_delimiters() {
    let kinds: Vec<TokenKind> = tokenize("( ) { } [ ]")
        .unwrap()
        .into_iter()
        .map(|tok| tok.kind)
        .collect();
    assert_eq!(
        kinds,
        vec![
            TokenKind::LParen,
            TokenKind::RParen,
            TokenKind::LBrace,
            TokenKind::RBrace,
            TokenKind::LBracket,
            TokenKind::RBracket,
            TokenKind::Eof,
        ]
    );
}

#[test]
fn test_tokenize_string() {
    let kinds: Vec<TokenKind> = tokenize(r#""Hello, world!""#)
        .unwrap()
        .into_iter()
        .map(|tok| tok.kind)
        .collect();
    assert_eq!(
        kinds,
        vec![
            TokenKind::String {
                value: "Hello, world!".to_string()
            },
            TokenKind::Eof,
        ]
    );
}

#[test]
fn test_tokenize_unclosed_string() {
    let err = tokenize(r#""Hello, world!"#).unwrap_err();
    assert_eq!(err.msg, "文字列が閉じられていません");
    assert_eq!(err.pos, 0);
}

#[test]
fn test_tokenize_indexing_syntax() {
    let kinds: Vec<TokenKind> = tokenize("arr[123]")
        .unwrap()
        .into_iter()
        .map(|tok| tok.kind)
        .collect();
    assert_eq!(
        kinds,
        vec![
            TokenKind::Ident {
                name: "arr".to_string()
            },
            TokenKind::LBracket,
            TokenKind::Number { num: 123 },
            TokenKind::RBracket,
            TokenKind::Eof,
        ]
    );
}

#[test]
fn tokenize_is_deterministic() {
    let src = "fn main() { let a = [1, 2]; return a[1] >= 2; } // done";
    assert_eq!(tokenize(src).unwrap(), tokenize(src).unwrap());
}

#[test]
fn unterminated_string_points_at_opening_quote() {
    let err = tokenize("\"abc").unwrap_err();
    assert_eq!(err.pos, 0);
    assert_eq!(err.msg, "文字列が閉じられていません");
    let err = tokenize("x = \"abc").unwrap_err();
    assert_eq!(err.pos, 4);
}

#[test]
fn token_positions_are_byte_offsets() {
    let tokens = tokenize("ab  <= 7").unwrap();
    let pos: Vec<usize> = tokens.iter().map(|t| t.pos).collect();
    assert_eq!(pos, vec![0, 4, 7, 8]);
    assert_eq!(tokens[3].kind, TokenKind::Eof);
}

#[test]
fn comments_are_skipped() {
    let kinds: Vec<TokenKind> = tokenize("1 // one\n/* two\n */ 2")
        .unwrap()
        .into_iter()
        .map(|tok| tok.kind)
        .collect();
    assert_eq!(
        kinds,
        vec![TokenKind::Number { num: 1 }, TokenKind::Number { num: 2 }, TokenKind::Eof]
    );
}

#[test]
fn unterminated_block_comment_is_an_error() {
    let err = tokenize("1 /* open").unwrap_err();
    assert_eq!(err.msg, "コメントの閉じタグ */ が見つかりませんでした");
    assert_eq!(err.pos, 2);
}

#[test]
fn largest_number_and_overflow() {
    let kinds: Vec<TokenKind> = tokenize("18446744073709551615")
        .unwrap()
        .into_iter()
        .map(|tok| tok.kind)
        .collect();
    assert_eq!(kinds, vec![TokenKind::Number { num: u64::MAX }, TokenKind::Eof]);
    let err = tokenize("x 18446744073709551616").unwrap_err();
    assert_eq!(err.msg, "number too large");
    assert_eq!(err.pos, 2);
}

#[test]
fn arrow_is_matched_before_minus() {
    let kinds: Vec<TokenKind> = tokenize("a->b - >")
        .unwrap()
        .into_iter()
        .map(|tok| tok.kind)
        .collect();
    assert_eq!(
        kinds,
        vec![
            TokenKind::Ident { name: "a".to_string() },
            TokenKind::Arrow,
            TokenKind::Ident { name: "b".to_string() },
            TokenKind::Minus,
            TokenKind::Gt,
            TokenKind::Eof,
        ]
    );
}

#[test]
fn string_literal_keeps_non_ascii_text() {
    let tokens = tokenize("\"h\u{e9}llo\" 1").unwrap();
    assert_eq!(tokens[0].kind, TokenKind::String { value: "h\u{e9}llo".to_string() });
    assert_eq!(tokens[1].pos, 9);
}

#[test]
fn expect_token_checks_kind() {
    let tokens = tokenize("; x").unwrap();
    assert!(expect_token(&tokens[0], &TokenKind::Semicolon).is_ok());
    let err = expect_token(&tokens[1], &TokenKind::Semicolon).unwrap_err();
    assert_eq!(err.msg, "expected Semicolon");
    assert_eq!(err.pos, 2);
    assert!(expect_token(&tokens[1], &TokenKind::Ident { name: "x".to_string() }).is_ok());
    assert!(expect_token(&tokens[1], &TokenKind::Ident { name: "y".to_string() }).is_err());
}

#[test]
fn number_and_eof_helpers() {
    let tokens = tokenize("7 x").unwrap();
    assert_eq!(expect_number(&tokens[0]).unwrap(), 7);
    assert_eq!(expect_number(&tokens[1]).unwrap_err().msg, "expected a number");
    assert!(!at_eof(&tokens[0]));
    assert!(at_eof(&tokens[2]));
}

#[test]
fn unicode_whitespace_is_skipped() {
    let tokens = tokenize("1\u{a0}2\u{3000}3\u{2028}").unwrap();
    let kinds: Vec<TokenKind> = tokens.iter().map(|t| t.kind.clone()).collect();
    assert_eq!(
        kinds,
        vec![
            TokenKind::Number { num: 1 },
            TokenKind::Number { num: 2 },
            TokenKind::Number { num: 3 },
            TokenKind::Eof,
        ]
    );
    let pos: Vec<usize> = tokens.iter().map(|t| t.pos).collect();
    assert_eq!(pos, vec![0, 3, 7, 11]);
    assert_eq!(tokenize("\u{e9}").unwrap_err().msg, "invalid character");
}

#[test]
fn expect_token_shows_the_missing_value() {
    let tokens = tokenize("x").unwrap();
    let err = expect_token(&tokens[1], &TokenKind::Number { num: 1 }).unwrap_err();
    assert_eq!(err.msg, "expected Number { num: 1 }");
    let err = expect_token(&tokens[0], &TokenKind::Ident { name: "y".to_string() }).unwrap_err();
    assert_eq!(err.msg, "expected Ident { name: \"y\" }");
    let err = expect_token(&tokens[0], &TokenKind::String { value: "a\"b".to_string() }).unwrap_err();
    assert_eq!(err.msg, format!("expected {:?}", TokenKind::String { value: "a\"b".to_string() }));
    assert_eq!(err.pos, 0);
}
