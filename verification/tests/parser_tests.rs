use dena::parser::Parser;
use dena::stmt::Stmt;
use dena::scanner::LiteralValue;
use dena::scanner::Scanner;
use dena::scanner::Token;
use dena::scanner::TokenType;

#[test]
fn test_addition() {
    let one = Token {
        token_type: TokenType::Number,
        lexeme: "1".to_string(),
        literal: Some(LiteralValue::IntValue(1)),
        line_number: 0,
    };
    let plus = Token {
        token_type: TokenType::Plus,
        lexeme: "+".to_string(),
        literal: None,
        line_number: 0,
    };
    let two = Token {
        token_type: TokenType::Number,
        lexeme: "2".to_string(),
        literal: Some(LiteralValue::IntValue(2)),
        line_number: 0,
    };
    let semicol = Token {
        token_type: TokenType::Semicolon,
        lexeme: ";".to_string(),
        literal: None,
        line_number: 0,
    };
    let eof = Token {
        token_type: TokenType::Eof,
        lexeme: "".to_string(),
        literal: None,
        line_number: 0,
    };

    let tokens = vec![one, plus, two, semicol, eof];
    let mut parser = Parser::new(tokens);

    let parsed_expr = parser.parse().unwrap();
    let string_expr = parsed_expr[0].to_string();

    assert_eq!(string_expr, "(+ 1 2)");
}

#[test]
fn test_comparison() {
    let source = "1 + 2 == 5 + 7;";
    let mut scanner = Scanner::new(source);
    let tokens = scanner.scan_tokens().unwrap();
    let mut parser = Parser::new(tokens);
    let parsed_expr = parser.parse().unwrap();
    let string_expr = parsed_expr[0].to_string();

    assert_eq!(string_expr, "(== (+ 1 2) (+ 5 7))");
}

#[test]
fn test_eq_with_paren() {
    let source = "1 == (2 + 2);";
    let mut scanner = Scanner::new(source);
    let tokens = scanner.scan_tokens().unwrap();
    let mut parser = Parser::new(tokens);
    let parsed_expr = parser.parse().unwrap();
    let string_expr = parsed_expr[0].to_string();

    assert_eq!(string_expr, "(== 1 (group (+ 2 2)))");
}

#[test]
fn pretty_print_unary_product() {
    // The display form of a small tree: a negation times a grouping.
    let source = "-123 * (45);";
    let mut scanner = Scanner::new(source);
    let tokens = scanner.scan_tokens().unwrap();
    let mut parser = Parser::new(tokens);
    let parsed = parser.parse().unwrap();
    assert_eq!(parsed[0].to_string(), "(* (- 123) (group 45))");
}

#[test]
fn parse_variable_and_call() {
    let source = "f(x, 1);";
    let mut scanner = Scanner::new(source);
    let tokens = scanner.scan_tokens().unwrap();
    let mut parser = Parser::new(tokens);
    let parsed = parser.parse().unwrap();
    assert_eq!(parsed[0].to_string(), "(call (var f) (var x) 1)");
}

#[test]
fn parse_error_is_reported() {
    let source = "1 + ;";
    let mut scanner = Scanner::new(source);
    let tokens = scanner.scan_tokens().unwrap();
    let mut parser = Parser::new(tokens);
    let result = parser.parse();
    match result {
        Err(m) => assert_eq!(m, "Expected expression"),
        _ => panic!("Should have failed"),
    }
}

#[test]
fn parse_errors_are_collected() {
    // Two malformed statements: synchronization recovers at the `;`
    // and both errors are reported together.
    let source = "1 + ;\n2 * ;";
    let mut scanner = Scanner::new(source);
    let tokens = scanner.scan_tokens().unwrap();
    let mut parser = Parser::new(tokens);
    let result = parser.parse();
    match result {
        Err(m) => assert_eq!(m, "Expected expression\nExpected expression"),
        _ => panic!("Should have failed"),
    }
}

#[test]
fn parse_for_desugars_to_while() {
    let source = "for (var i = 0; i < 3; i = i + 1) print i;";
    let mut scanner = Scanner::new(source);
    let tokens = scanner.scan_tokens().unwrap();
    let mut parser = Parser::new(tokens);
    let parsed = parser.parse().unwrap();
    assert_eq!(parsed.len(), 1);
    match &parsed[0] {
        Stmt::Block { statements } => {
            assert_eq!(statements.len(), 2);
            assert!(matches!(statements[0], Stmt::Var { .. }));
            assert!(matches!(statements[1], Stmt::WhileStmt { .. }));
        },
        _ => panic!("for should desugar into a block"),
    }
}

#[test]
fn parse_for_defaults_condition_to_true() {
    // No initializer: the desugar is a bare while; the empty condition
    // slot becomes the literal `true`.
    let source = "for (;;) print 1;";
    let mut scanner = Scanner::new(source);
    let tokens = scanner.scan_tokens().unwrap();
    let mut parser = Parser::new(tokens);
    let parsed = parser.parse().unwrap();
    assert_eq!(parsed.len(), 1);
    match &parsed[0] {
        Stmt::WhileStmt { condition, body } => {
            assert!(matches!(
                condition,
                dena::expr::Expr::Literal { id: _, value: dena::expr::LiteralValue::True }
            ));
            assert!(matches!(**body, Stmt::Print { .. }));
        },
        _ => panic!("for without initializer should desugar to a bare while"),
    }
}

#[test]
fn parse_for_without_increment_keeps_bare_body() {
    // With no increment the loop body is the parsed statement itself,
    // not a wrapping block.
    let source = "for (var i = 0; i < 1;) print i;";
    let mut scanner = Scanner::new(source);
    let tokens = scanner.scan_tokens().unwrap();
    let mut parser = Parser::new(tokens);
    let parsed = parser.parse().unwrap();
    match &parsed[0] {
        Stmt::Block { statements } => {
            assert!(matches!(statements[0], Stmt::Var { .. }));
            match &statements[1] {
                Stmt::WhileStmt { condition: _, body } => {
                    assert!(matches!(**body, Stmt::Print { .. }));
                },
                _ => panic!("second statement should be the while"),
            }
        },
        _ => panic!("for with initializer should desugar into a block"),
    }
}

#[test]
fn parse_for_appends_increment_to_body() {
    let source = "for (var i = 0; i < 3; i = i + 1) print i;";
    let mut scanner = Scanner::new(source);
    let tokens = scanner.scan_tokens().unwrap();
    let mut parser = Parser::new(tokens);
    let parsed = parser.parse().unwrap();
    match &parsed[0] {
        Stmt::Block { statements } => match &statements[1] {
            Stmt::WhileStmt { condition: _, body } => match &**body {
                Stmt::Block { statements: inner } => {
                    assert_eq!(inner.len(), 2);
                    assert!(matches!(inner[0], Stmt::Print { .. }));
                    assert!(matches!(inner[1], Stmt::Expression { .. }));
                },
                _ => panic!("loop body should be a block ending in the increment"),
            },
            _ => panic!("second statement should be the while"),
        },
        _ => panic!("for with initializer should desugar into a block"),
    }
}
