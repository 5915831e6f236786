use arith_ast::lexer::{tokenize, Lexer, TextSpan, Token, TokenKind};

#[test]
fn test_lexer_number_token() {
    let mut lexer = Lexer::new("123");
    let token = lexer.next_token().unwrap();
    match token.kind {
        TokenKind::Number(n) => assert_eq!(n, 123),
        _ => panic!("Expected number token"),
    }
}

#[test]
fn test_lexer_eof_token() {
    let mut lexer = Lexer::new("");
    let token = lexer.next_token().unwrap();
    match token.kind {
        TokenKind::Eof => assert!(true),
        _ => panic!("Expected EOF token"),
    }
}

#[test]
fn test_textspan_length() {
    let span = TextSpan::new(0, 5, "12345".to_string());
    assert_eq!(span.length(), 5);
}

#[test]
fn test_token_creation() {
    let span = TextSpan::new(0, 3, "123".to_string());
    let token = Token::new(TokenKind::Number(123), span);
    match token.kind {
        TokenKind::Number(n) => assert_eq!(n, 123),
        _ => panic!("Expected number token"),
    }
}

#[test]
fn test_consume_number() {
    let mut lexer = Lexer::new("12345");
    assert_eq!(lexer.consume_number(), 12345);

    let mut lexer = Lexer::new("67890");
    assert_eq!(lexer.consume_number(), 67890);

    let mut lexer = Lexer::new("123abc");
    assert_eq!(lexer.consume_number(), 123);

    let mut lexer = Lexer::new("");
    assert_eq!(lexer.consume_number(), 0);
}

#[test]
fn numeral_scans_to_one_number_token() {
    let tokens = tokenize("9876543210");
    assert_eq!(tokens.len(), 2);
    assert_eq!(tokens[0].kind, TokenKind::Number(9876543210));
    assert_eq!(tokens[0].span.start, 0);
    assert_eq!(tokens[0].span.end, 10);
    assert_eq!(tokens[0].span.literal, "9876543210");
    assert_eq!(tokens[1].kind, TokenKind::Eof);
}

#[test]
fn empty_text_scans_to_eof_only() {
    let tokens = tokenize("");
    assert_eq!(tokens.len(), 1);
    assert_eq!(tokens[0].kind, TokenKind::Eof);
    assert_eq!(tokens[0].span.start, 0);
    assert_eq!(tokens[0].span.end, 0);
    assert_eq!(tokens[0].span.literal, "\0");
}

#[test]
fn literals_join_back_to_input() {
    let input = "7 - (30 + é7) * 8 / 2 ?";
    let tokens = tokenize(input);
    let mut joined = String::new();
    for token in &tokens[..tokens.len() - 1] {
        joined.push_str(&token.span.literal);
    }
    assert_eq!(joined, input);
    assert_eq!(tokens.last().unwrap().kind, TokenKind::Eof);
}

#[test]
fn spans_count_characters_not_bytes() {
    let tokens = tokenize("é12");
    assert_eq!(tokens[0].kind, TokenKind::Bad);
    assert_eq!(tokens[0].span.literal, "é");
    assert_eq!(tokens[1].kind, TokenKind::Number(12));
    assert_eq!(tokens[1].span.start, 1);
    assert_eq!(tokens[1].span.end, 3);
}

#[test]
fn whitespace_run_gives_one_token_per_character() {
    let tokens = tokenize(" \t\n\u{3000}");
    assert_eq!(tokens.len(), 5);
    for (i, token) in tokens[..4].iter().enumerate() {
        assert_eq!(token.kind, TokenKind::Whitespace);
        assert_eq!(token.span.start, i);
        assert_eq!(token.span.end, i + 1);
    }
    assert_eq!(tokens[4].kind, TokenKind::Eof);
}

#[test]
fn punctuation_and_bad_characters() {
    let tokens = tokenize("+-*/()x");
    let kinds: Vec<TokenKind> = tokens.iter().map(|t| t.kind).collect();
    assert_eq!(
        kinds,
        vec![
            TokenKind::Plus,
            TokenKind::Minus,
            TokenKind::Asterisk,
            TokenKind::Slash,
            TokenKind::LeftParen,
            TokenKind::RightParen,
            TokenKind::Bad,
            TokenKind::Eof,
        ]
    );
}

#[test]
fn too_large_number_is_held_at_max() {
    let tokens = tokenize("99999999999999999999");
    assert_eq!(tokens[0].kind, TokenKind::Number(i64::MAX));
    assert_eq!(tokens[0].span.end, 20);
}

#[test]
fn nothing_after_eof() {
    let mut lexer = Lexer::new("1");
    assert_eq!(lexer.next_token().unwrap().kind, TokenKind::Number(1));
    assert_eq!(lexer.next_token().unwrap().kind, TokenKind::Eof);
    assert!(lexer.next_token().is_none());
}
