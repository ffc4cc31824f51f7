use dena::environment::Environment;
use dena::environment::LookupResult;
use dena::expr::Expr;
use dena::expr::FunKind;
use dena::interpreter::Interpreter;
use std::rc::Rc;
use dena::expr::unwrap_as_string;
use dena::expr::LiteralValue;
use dena::numfmt::i64_to_string;
use dena::numfmt::u64_to_string;
use dena::scanner::is_digit;
use dena::scanner::LiteralValue as TokenLiteral;
use dena::scanner::Token;
use dena::scanner::TokenType;

#[test]
fn try_init() {
    let _environment = Environment::new();
}

#[test]
fn environment_define_get_assign() {
    let mut env = Environment::new();
    env.define(0, "a".to_string(), LiteralValue::Number(1));
    match env.get(0, &"a".to_string(), Some(0)) {
        LookupResult::Found(LiteralValue::Number(n)) => assert_eq!(n, 1),
        _ => panic!("binding not found"),
    }
    // A child frame shadows without touching the global binding.
    let child = env.push_frame(0);
    env.define(child, "a".to_string(), LiteralValue::Number(2));
    match env.get(child, &"a".to_string(), Some(0)) {
        LookupResult::Found(LiteralValue::Number(n)) => assert_eq!(n, 2),
        _ => panic!("binding not found"),
    }
    match env.get(child, &"a".to_string(), None) {
        LookupResult::Found(LiteralValue::Number(n)) => assert_eq!(n, 1),
        _ => panic!("global binding not found"),
    }
    // Assignment reports whether the name was already bound there.
    let existed = env.assign(child, &"a".to_string(), LiteralValue::Number(3), Some(0));
    assert_eq!(existed, Some(true));
    let fresh = env.assign(child, &"b".to_string(), LiteralValue::Number(4), None);
    assert_eq!(fresh, Some(false));
    // A hop past the root is the fatal desynchronization signal.
    assert!(matches!(
        env.get(child, &"a".to_string(), Some(5)),
        LookupResult::BadDistance
    ));
}

#[test]
fn value_to_string() {
    assert_eq!(LiteralValue::Number(10).to_string(), "10");
    assert_eq!(LiteralValue::Number(-7).to_string(), "-7");
    assert_eq!(LiteralValue::StringValue("hi".to_string()).to_string(), "\"hi\"");
    assert_eq!(LiteralValue::True.to_string(), "true");
    assert_eq!(LiteralValue::False.to_string(), "false");
    assert_eq!(LiteralValue::Nil.to_string(), "nil");
}

#[test]
fn value_to_type() {
    assert_eq!(LiteralValue::Number(1).to_type(), "Number");
    assert_eq!(LiteralValue::StringValue("s".to_string()).to_type(), "String");
    assert_eq!(LiteralValue::True.to_type(), "Boolean");
    assert_eq!(LiteralValue::False.to_type(), "Boolean");
    assert_eq!(LiteralValue::Nil.to_type(), "nil");
}

#[test]
fn value_from_bool() {
    assert!(matches!(LiteralValue::from_bool(true), LiteralValue::True));
    assert!(matches!(LiteralValue::from_bool(false), LiteralValue::False));
}

#[test]
fn value_truthiness() {
    assert!(matches!(LiteralValue::Number(0).is_truthy(), LiteralValue::False));
    assert!(matches!(LiteralValue::Number(3).is_truthy(), LiteralValue::True));
    assert!(matches!(
        LiteralValue::StringValue("".to_string()).is_truthy(),
        LiteralValue::False
    ));
    assert!(matches!(
        LiteralValue::StringValue("x".to_string()).is_truthy(),
        LiteralValue::True
    ));
    assert!(matches!(LiteralValue::Nil.is_truthy(), LiteralValue::False));
    assert!(matches!(LiteralValue::True.is_falsy(), LiteralValue::False));
    assert!(matches!(LiteralValue::Number(0).is_falsy(), LiteralValue::True));
}

#[test]
fn value_equality_is_weak_on_callables() {
    // Two callables are equal exactly when name and arity match; their
    // bodies and captured frames are deliberately ignored.
    let a = LiteralValue::Callable {
        name: "f".to_string(),
        arity: 2,
        fun: dena::expr::FunKind::Clock,
    };
    let b = LiteralValue::Callable {
        name: "f".to_string(),
        arity: 2,
        fun: dena::expr::FunKind::Clock,
    };
    let c = LiteralValue::Callable {
        name: "f".to_string(),
        arity: 1,
        fun: dena::expr::FunKind::Clock,
    };
    assert!(a == b);
    assert!(!(a == c));
    assert!(!(LiteralValue::Number(1) == LiteralValue::StringValue("1".to_string())));
    assert!(LiteralValue::Nil == LiteralValue::Nil);
}

#[test]
fn value_from_token() {
    let t = Token::new(
        TokenType::Number,
        "5".to_string(),
        Some(TokenLiteral::IntValue(5)),
        1,
    );
    assert!(matches!(LiteralValue::from_token(t), LiteralValue::Number(5)));
    let s = Token::new(
        TokenType::StringLit,
        "\"ab\"".to_string(),
        Some(TokenLiteral::StringValue("ab".to_string())),
        1,
    );
    match LiteralValue::from_token(s) {
        LiteralValue::StringValue(v) => assert_eq!(v, "ab"),
        _ => panic!("wrong value"),
    }
}

#[test]
fn unwrap_as_string_extracts() {
    let lit = Some(TokenLiteral::StringValue("abc".to_string()));
    assert_eq!(unwrap_as_string(lit), "abc");
}

#[test]
fn digits_and_decimals() {
    assert!(is_digit('0'));
    assert!(is_digit('9'));
    assert!(!is_digit('a'));
    assert_eq!(u64_to_string(0), "0");
    assert_eq!(u64_to_string(3628800), "3628800");
    assert_eq!(i64_to_string(-1), "-1");
    assert_eq!(i64_to_string(i64::MIN), "-9223372036854775808");
    assert_eq!(i64_to_string(i64::MAX), "9223372036854775807");
}

#[test]
fn evaluate_expression_directly() {
    let mut interpreter = Interpreter::new();
    let e = Expr::Literal { id: 0, value: LiteralValue::Number(7) };
    match e.evaluate(&mut interpreter, 0, 10) {
        Ok(LiteralValue::Number(n)) => assert_eq!(n, 7),
        _ => panic!("wrong value"),
    }
}

#[test]
fn resolve_registers_a_distance() {
    let mut interpreter = Interpreter::new();
    interpreter.resolve(3, 1).unwrap();
    interpreter.resolve(9, 0).unwrap();
    assert_eq!(interpreter.locals.ids, vec![3, 9]);
    assert_eq!(interpreter.locals.dists, vec![1, 0]);
}

#[test]
fn desynchronized_distance_is_fatal() {
    // A recorded distance deeper than the live frame chain is a
    // programming-logic fatal, not a user error.
    let mut interpreter = Interpreter::new();
    interpreter.resolve(0, 5).unwrap();
    let name = Token::new(TokenType::Identifier, "x".to_string(), None, 1);
    let e = Expr::Variable { id: 0, name };
    match e.evaluate(&mut interpreter, 0, 10) {
        Err(err) => assert_eq!(
            err.message(),
            "Internal error: resolved distance exceeds environment depth"
        ),
        _ => panic!("should be fatal"),
    }
}

#[test]
fn exhausted_budget_is_fatal() {
    let mut interpreter = Interpreter::new();
    let f = LiteralValue::Callable {
        name: "f".to_string(),
        arity: 0,
        fun: FunKind::Declared { params: Rc::new(vec![]), body: Rc::new(vec![]), closure: 0 },
    };
    interpreter.environment.define(0, "f".to_string(), f);
    let callee = Expr::Variable {
        id: 0,
        name: Token::new(TokenType::Identifier, "f".to_string(), None, 1),
    };
    let call = Expr::Call {
        id: 1,
        callee: Box::new(callee),
        paren: Token::new(TokenType::RightParen, ")".to_string(), None, 1),
        arguments: vec![],
    };
    match call.evaluate(&mut interpreter, 0, 0) {
        Err(err) => assert_eq!(err.message(), "Evaluation budget exhausted"),
        _ => panic!("should run out of budget"),
    }
}
