use dena::scanner::LiteralValue;
use dena::scanner::Scanner;
use dena::scanner::Token;
use dena::scanner::TokenType;

#[test]
fn handle_one_char_tokens() {
    let source = "(( )) }{";
    let mut scanner = Scanner::new(source);
    scanner.scan_tokens().unwrap();

    assert_eq!(scanner.tokens.len(), 7);
    assert_eq!(scanner.tokens[0].token_type, TokenType::LeftParen);
    assert_eq!(scanner.tokens[1].token_type, TokenType::LeftParen);
    assert_eq!(scanner.tokens[2].token_type, TokenType::RightParen);
    assert_eq!(scanner.tokens[3].token_type, TokenType::RightParen);
    assert_eq!(scanner.tokens[4].token_type, TokenType::RightBrace);
    assert_eq!(scanner.tokens[5].token_type, TokenType::LeftBrace);
    assert_eq!(scanner.tokens[6].token_type, TokenType::Eof);
}

#[test]
fn handle_two_char_tokens() {
    let source = "! != == >=";
    let mut scanner = Scanner::new(source);
    scanner.scan_tokens().unwrap();

    assert_eq!(scanner.tokens.len(), 5);
    assert_eq!(scanner.tokens[0].token_type, TokenType::Bang);
    assert_eq!(scanner.tokens[1].token_type, TokenType::BangEqual);
    assert_eq!(scanner.tokens[2].token_type, TokenType::EqualEqual);
    assert_eq!(scanner.tokens[3].token_type, TokenType::GreaterEqual);
    assert_eq!(scanner.tokens[4].token_type, TokenType::Eof);
}

#[test]
fn handle_string_lit() {
    let source = r#""ABC""#;
    let mut scanner = Scanner::new(source);
    scanner.scan_tokens().unwrap();

    assert_eq!(scanner.tokens.len(), 2);
    assert_eq!(scanner.tokens[0].token_type, TokenType::StringLit);
    match scanner.tokens[0].literal.as_ref().unwrap() {
        LiteralValue::StringValue(val) => assert_eq!(val, "ABC"),
        _ => panic!("Incorrect literal type"),
    }
}

#[test]
fn handle_string_lit_unterminated() {
    let source = r#""ABC"#;
    let mut scanner = Scanner::new(source);
    let result = scanner.scan_tokens();
    match result {
        Err(_) => (),
        _ => panic!("Should have failed"),
    }
}

#[test]
fn handle_string_lit_multiline() {
    let source = "\"ABC\ndef\"";
    let mut scanner = Scanner::new(source);
    scanner.scan_tokens().unwrap();

    assert_eq!(scanner.tokens.len(), 2);
    assert_eq!(scanner.tokens[0].token_type, TokenType::StringLit);
    match scanner.tokens[0].literal.as_ref().unwrap() {
        LiteralValue::StringValue(val) => assert_eq!(val, "ABC\ndef"),
        _ => panic!("Incorrect literal type"),
    }
}

#[test]
fn handle_number_literal() {
    let mut scanner = Scanner::new("123 45 0");
    let tokens = scanner.scan_tokens().unwrap();
    assert_eq!(tokens.len(), 4);
    assert_eq!(tokens[0].token_type, TokenType::Number);
    match tokens[0].literal.as_ref().unwrap() {
        LiteralValue::IntValue(n) => assert_eq!(*n, 123),
        _ => panic!("Incorrect literal type"),
    }
    match tokens[1].literal.as_ref().unwrap() {
        LiteralValue::IntValue(n) => assert_eq!(*n, 45),
        _ => panic!("Incorrect literal type"),
    }
    assert_eq!(tokens[0].lexeme, "123");
}

#[test]
fn handle_number_too_large() {
    // One past the largest machine integer: a lexical error, collected
    // with its lexeme.
    let mut scanner = Scanner::new("9223372036854775808");
    let result = scanner.scan_tokens();
    match result {
        Err(m) => assert_eq!(m, "Could not parse number: 9223372036854775808\n"),
        _ => panic!("Should have failed"),
    }
}

#[test]
fn handle_number_max() {
    let mut scanner = Scanner::new("9223372036854775807");
    let tokens = scanner.scan_tokens().unwrap();
    match tokens[0].literal.as_ref().unwrap() {
        LiteralValue::IntValue(n) => assert_eq!(*n, 9223372036854775807i64),
        _ => panic!("Incorrect literal type"),
    }
}

#[test]
fn handle_keywords_and_identifiers() {
    let mut scanner = Scanner::new("var x = while_y and fun");
    let tokens = scanner.scan_tokens().unwrap();
    assert_eq!(tokens[0].token_type, TokenType::Var);
    assert_eq!(tokens[1].token_type, TokenType::Identifier);
    assert_eq!(tokens[1].lexeme, "x");
    assert_eq!(tokens[2].token_type, TokenType::Equal);
    assert_eq!(tokens[3].token_type, TokenType::Identifier);
    assert_eq!(tokens[3].lexeme, "while_y");
    assert_eq!(tokens[4].token_type, TokenType::And);
    assert_eq!(tokens[5].token_type, TokenType::Fun);
    assert_eq!(tokens[6].token_type, TokenType::Eof);
}

#[test]
fn handle_comment_and_lines() {
    let mut scanner = Scanner::new("1 // comment\n2");
    let tokens = scanner.scan_tokens().unwrap();
    assert_eq!(tokens.len(), 3);
    assert_eq!(tokens[0].line_number, 1);
    assert_eq!(tokens[1].line_number, 2);
}

#[test]
fn handle_unrecognized_char() {
    let mut scanner = Scanner::new("@");
    let result = scanner.scan_tokens();
    match result {
        Err(m) => assert_eq!(m, "Unrecognized char at line: 1: @\n"),
        _ => panic!("Should have failed"),
    }
}

#[test]
fn token_display_form() {
    let t = Token::new(
        TokenType::Number,
        "7".to_string(),
        Some(LiteralValue::IntValue(7)),
        3,
    );
    assert_eq!(t.to_string(), " Number 7 IntValue(7)");
    let t2 = Token::new(TokenType::Plus, "+".to_string(), None, 1);
    assert_eq!(t2.to_string(), " Plus + None");
}

#[test]
fn unterminated_string_reports_line() {
    let mut scanner = Scanner::new("1\n2\n\"abc");
    match scanner.scan_tokens() {
        Err(m) => assert_eq!(m, "Unterminated string at line: 3\n"),
        _ => panic!("Should have failed"),
    }
}
