//! Runtime values and expression nodes.
//!
//! [`LiteralValue`] is the runtime value type: the only values an
//! expression can evaluate to. Its mathematical shape is [`ValueM`],
//! reached through the view operator; contracts all speak of that
//! model. [`Expr`] is the expression tree produced by the parser; every
//! node carries a process-unique integer id assigned at parse time,
//! which keys the resolver's distance table.

use crate::numfmt::{dec_i64, dec_u64, i64_to_string, usize_to_string};
use crate::scanner;
use crate::scanner::{Token, TokenType};
use crate::stmt::Stmt;
use std::rc::Rc;
use vstd::prelude::*;

verus! {

/// The mathematical model of a callable's implementation: either the
/// built-in clock or a declared function with parameters, a body and
/// the frame captured at its definition.
pub enum FunM {
    Clock,
    Declared { params: Seq<Token>, body: Seq<Stmt>, closure: int },
}

/// The mathematical model of a runtime value.
pub enum ValueM {
    Num(i64),
    Str(Seq<char>),
    True,
    False,
    Nil,
    Callable { name: Seq<char>, arity: nat, fun: FunM },
}

/// A callable's implementation: the built-in clock, or a declared
/// function body bundled with the frame handle captured at definition.
#[derive(Debug)]
pub enum FunKind {
    Clock,
    Declared { params: Rc<Vec<Token>>, body: Rc<Vec<Stmt>>, closure: usize },
}

impl View for FunKind {
    type V = FunM;

    open spec fn view(&self) -> FunM {
        match self {
            FunKind::Clock => FunM::Clock,
            FunKind::Declared { params, body, closure } => FunM::Declared {
                params: params@,
                body: body@,
                closure: *closure as int,
            },
        }
    }
}

/// A runtime value: the only values expressions evaluate to.
#[derive(Debug)]
pub enum LiteralValue {
    Number(i64),
    StringValue(String),
    True,
    False,
    Nil,
    Callable { name: String, arity: usize, fun: FunKind },
}

impl View for LiteralValue {
    type V = ValueM;

    open spec fn view(&self) -> ValueM {
        match self {
            LiteralValue::Number(n) => ValueM::Num(*n),
            LiteralValue::StringValue(s) => ValueM::Str(s@),
            LiteralValue::True => ValueM::True,
            LiteralValue::False => ValueM::False,
            LiteralValue::Nil => ValueM::Nil,
            LiteralValue::Callable { name, arity, fun } => ValueM::Callable {
                name: name@,
                arity: *arity as nat,
                fun: fun@,
            },
        }
    }
}

impl Clone for FunKind {
    fn clone(&self) -> (res: Self)
        ensures
            res == *self,
    {
        match self {
            FunKind::Clock => FunKind::Clock,
            FunKind::Declared { params, body, closure } => FunKind::Declared {
                params: params.clone(),
                body: body.clone(),
                closure: *closure,
            },
        }
    }
}

impl Clone for LiteralValue {
    fn clone(&self) -> (res: Self)
        ensures
            res == *self,
    {
        match self {
            LiteralValue::Number(n) => LiteralValue::Number(*n),
            LiteralValue::StringValue(s) => LiteralValue::StringValue(s.clone()),
            LiteralValue::True => LiteralValue::True,
            LiteralValue::False => LiteralValue::False,
            LiteralValue::Nil => LiteralValue::Nil,
            LiteralValue::Callable { name, arity, fun } => LiteralValue::Callable {
                name: name.clone(),
                arity: *arity,
                fun: fun.clone(),
            },
        }
    }
}

/// Equality of the scripting language: numbers by value, strings by
/// contents, booleans and nil by kind, and two callables are equal
/// exactly when their names and arities match — their bodies and
/// captured frames are deliberately ignored. Values of different
/// shapes are simply unequal.
pub open spec fn val_eq(a: ValueM, b: ValueM) -> bool {
    match (a, b) {
        (ValueM::Num(x), ValueM::Num(y)) => x == y,
        (ValueM::Str(x), ValueM::Str(y)) => x == y,
        (ValueM::True, ValueM::True) => true,
        (ValueM::False, ValueM::False) => true,
        (ValueM::Nil, ValueM::Nil) => true,
        (
            ValueM::Callable { name: n1, arity: a1, fun: _ },
            ValueM::Callable { name: n2, arity: a2, fun: _ },
        ) => n1 == n2 && a1 == a2,
        _ => false,
    }
}

impl PartialEq for LiteralValue {
    fn eq(&self, other: &Self) -> (r: bool) {
        match (self, other) {
            (LiteralValue::Number(x), LiteralValue::Number(y)) => *x == *y,
            (LiteralValue::StringValue(x), LiteralValue::StringValue(y)) => *x == *y,
            (LiteralValue::True, LiteralValue::True) => true,
            (LiteralValue::False, LiteralValue::False) => true,
            (LiteralValue::Nil, LiteralValue::Nil) => true,
            (
                LiteralValue::Callable { name, arity, fun: _ },
                LiteralValue::Callable { name: name2, arity: arity2, fun: _ },
            ) => *name == *name2 && *arity == *arity2,
            _ => false,
        }
    }
}

impl vstd::std_specs::cmp::PartialEqSpecImpl for LiteralValue {
    open spec fn obeys_eq_spec() -> bool {
        true
    }

    open spec fn eq_spec(&self, other: &Self) -> bool {
        val_eq(self@, other@)
    }
}

/// The truth value a runtime value stands for in a boolean context:
/// zero, the empty string, `false` and `nil` are falsy, every other
/// number, string and `true` are truthy, and a callable has no truth
/// value at all.
pub open spec fn truthy(v: ValueM) -> Option<bool> {
    match v {
        ValueM::Num(n) => Option::Some(n != 0),
        ValueM::Str(s) => Option::Some(s.len() != 0),
        ValueM::True => Option::Some(true),
        ValueM::False => Option::Some(false),
        ValueM::Nil => Option::Some(false),
        ValueM::Callable { .. } => Option::None,
    }
}

/// The display name of a value's type.
pub open spec fn type_str(v: ValueM) -> Seq<char> {
    match v {
        ValueM::Num(_) => "Number"@,
        ValueM::Str(_) => "String"@,
        ValueM::True => "Boolean"@,
        ValueM::False => "Boolean"@,
        ValueM::Nil => "nil"@,
        ValueM::Callable { .. } => "Callable"@,
    }
}

/// The display form of a value: numbers in decimal, strings quoted,
/// `true`/`false`/`nil` as keywords and a callable as `name/arity`.
pub open spec fn val_str(v: ValueM) -> Seq<char> {
    match v {
        ValueM::Num(n) => dec_i64(n as int),
        ValueM::Str(s) => "\""@ + s + "\""@,
        ValueM::True => "true"@,
        ValueM::False => "false"@,
        ValueM::Nil => "nil"@,
        ValueM::Callable { name, arity, fun: _ } => name + "/"@ + dec_u64(arity),
    }
}

/// The runtime value a literal-carrying token stands for.
pub open spec fn value_of_token(t: Token) -> ValueM {
    match t.token_type {
        TokenType::Number => match t.literal {
            Option::Some(scanner::LiteralValue::IntValue(n)) => ValueM::Num(n),
            _ => ValueM::Nil,
        },
        TokenType::StringLit => match t.literal {
            Option::Some(scanner::LiteralValue::StringValue(s)) => ValueM::Str(s@),
            _ => ValueM::Nil,
        },
        TokenType::False => ValueM::False,
        TokenType::True => ValueM::True,
        _ => ValueM::Nil,
    }
}

/// Extracts the string payload of a token literal.
pub fn unwrap_as_string(literal: Option<scanner::LiteralValue>) -> (r: String)
    requires
        literal matches Option::Some(scanner::LiteralValue::StringValue(_)),
    ensures
        literal matches Option::Some(scanner::LiteralValue::StringValue(s)) && s == r,
{
    match literal {
        Option::Some(scanner::LiteralValue::StringValue(s)) => s,
        _ => unreached(),
    }
}

impl LiteralValue {
    /// The display form of this value.
    pub fn to_string(&self) -> (r: String)
        ensures
            r@ == val_str(self@),
    {
        match self {
            LiteralValue::Number(x) => i64_to_string(*x),
            LiteralValue::StringValue(x) => {
                let mut r = "\"".to_owned();
                r.append(x.as_str());
                r.append("\"");
                proof {
                    assert(r@ =~= val_str(self@));
                }
                r
            },
            LiteralValue::True => "true".to_owned(),
            LiteralValue::False => "false".to_owned(),
            LiteralValue::Nil => "nil".to_owned(),
            LiteralValue::Callable { name, arity, fun: _ } => {
                let mut r = name.clone();
                r.append("/");
                r.append(usize_to_string(*arity).as_str());
                proof {
                    assert(r@ =~= val_str(self@));
                }
                r
            },
        }
    }

    /// The display name of this value's type.
    pub fn to_type(&self) -> (r: &'static str)
        ensures
            r@ == type_str(self@),
    {
        match self {
            LiteralValue::Number(_) => "Number",
            LiteralValue::StringValue(_) => "String",
            LiteralValue::True => "Boolean",
            LiteralValue::False => "Boolean",
            LiteralValue::Nil => "nil",
            LiteralValue::Callable { .. } => "Callable",
        }
    }

    /// Builds the runtime value a literal token stands for.
    pub fn from_token(token: Token) -> (r: Self)
        requires
            match token.token_type {
                TokenType::Number => token.literal matches Option::Some(
                    scanner::LiteralValue::IntValue(_),
                ),
                TokenType::StringLit => token.literal matches Option::Some(
                    scanner::LiteralValue::StringValue(_),
                ),
                TokenType::False | TokenType::True | TokenType::Nil => true,
                _ => false,
            },
        ensures
            r@ == value_of_token(token),
    {
        match token.token_type {
            TokenType::Number => match token.literal {
                Option::Some(scanner::LiteralValue::IntValue(n)) => LiteralValue::Number(n),
                _ => unreached(),
            },
            TokenType::StringLit => LiteralValue::StringValue(
                unwrap_as_string(token.literal),
            ),
            TokenType::False => LiteralValue::False,
            TokenType::True => LiteralValue::True,
            TokenType::Nil => LiteralValue::Nil,
            _ => unreached(),
        }
    }

    /// The boolean value standing for `b`.
    pub fn from_bool(b: bool) -> (r: Self)
        ensures
            r@ == (if b {
                ValueM::True
            } else {
                ValueM::False
            }),
    {
        if b {
            LiteralValue::True
        } else {
            LiteralValue::False
        }
    }

    /// The complement of this value's truth value, as a boolean value.
    /// A callable has no truth value, so it is excluded.
    pub fn is_falsy(&self) -> (r: LiteralValue)
        requires
            !(self@ matches ValueM::Callable { .. }),
        ensures
            r@ == (if truthy(self@) == Option::Some(false) {
                ValueM::True
            } else {
                ValueM::False
            }),
    {
        match self {
            LiteralValue::Number(x) => {
                if *x == 0 {
                    LiteralValue::True
                } else {
                    LiteralValue::False
                }
            },
            LiteralValue::StringValue(s) => {
                if s.as_str().unicode_len() == 0 {
                    LiteralValue::True
                } else {
                    LiteralValue::False
                }
            },
            LiteralValue::True => LiteralValue::False,
            LiteralValue::False => LiteralValue::True,
            LiteralValue::Nil => LiteralValue::True,
            LiteralValue::Callable { .. } => unreached(),
        }
    }

    /// This value's truth value, as a boolean value. A callable has no
    /// truth value, so it is excluded.
    pub fn is_truthy(&self) -> (r: LiteralValue)
        requires
            !(self@ matches ValueM::Callable { .. }),
        ensures
            r@ == (if truthy(self@) == Option::Some(true) {
                ValueM::True
            } else {
                ValueM::False
            }),
    {
        match self {
            LiteralValue::Number(x) => {
                if *x == 0 {
                    LiteralValue::False
                } else {
                    LiteralValue::True
                }
            },
            LiteralValue::StringValue(s) => {
                if s.as_str().unicode_len() == 0 {
                    LiteralValue::False
                } else {
                    LiteralValue::True
                }
            },
            LiteralValue::True => LiteralValue::True,
            LiteralValue::False => LiteralValue::False,
            LiteralValue::Nil => LiteralValue::False,
            LiteralValue::Callable { .. } => unreached(),
        }
    }
}

/// Strict lexicographic order on character sequences, by code point.
pub open spec fn lex_lt(a: Seq<char>, b: Seq<char>) -> bool
    decreases a.len(),
{
    if b.len() == 0 {
        false
    } else if a.len() == 0 {
        true
    } else if (a[0] as u32) < (b[0] as u32) {
        true
    } else if (a[0] as u32) > (b[0] as u32) {
        false
    } else {
        lex_lt(a.drop_first(), b.drop_first())
    }
}

fn str_lt_from(a: &str, b: &str, i: usize) -> (r: bool)
    requires
        i <= a@.len(),
        i <= b@.len(),
    ensures
        r == lex_lt(a@.skip(i as int), b@.skip(i as int)),
    decreases a@.len() - i,
{
    let alen = a.unicode_len();
    let blen = b.unicode_len();
    if i >= blen {
        false
    } else if i >= alen {
        true
    } else {
        let ca = a.get_char(i);
        let cb = b.get_char(i);
        if (ca as u32) < (cb as u32) {
            true
        } else if (ca as u32) > (cb as u32) {
            false
        } else {
            let r = str_lt_from(a, b, i + 1);
            proof {
                assert(a@.skip(i as int).drop_first() =~= a@.skip(i + 1));
                assert(b@.skip(i as int).drop_first() =~= b@.skip(i + 1));
            }
            r
        }
    }
}

/// Compares two strings in strict lexicographic order by code point.
pub fn str_lt(a: &String, b: &String) -> (r: bool)
    ensures
        r == lex_lt(a@, b@),
{
    let r = str_lt_from(a.as_str(), b.as_str(), 0);
    proof {
        assert(a@.skip(0) =~= a@);
        assert(b@.skip(0) =~= b@);
    }
    r
}

/// An expression node. Each node carries a process-unique id assigned
/// at parse time; the resolver records lexical distances against these
/// ids, and the interpreter looks them up again.
#[derive(Debug)]
#[allow(inconsistent_fields)]
pub enum Expr {
    AnonFunction { id: usize, paren: Token, arguments: Rc<Vec<Token>>, body: Rc<Vec<Stmt>> },
    Assign { id: usize, name: Token, value: Box<Expr> },
    Binary { id: usize, left: Box<Expr>, operator: Token, right: Box<Expr> },
    Call { id: usize, callee: Box<Expr>, paren: Token, arguments: Vec<Expr> },
    Grouping { id: usize, expression: Box<Expr> },
    Literal { id: usize, value: LiteralValue },
    Logical { id: usize, left: Box<Expr>, operator: Token, right: Box<Expr> },
    Unary { id: usize, operator: Token, right: Box<Expr> },
    Variable { id: usize, name: Token },
}

impl Expr {
    /// The id carried by this node.
    pub open spec fn id(&self) -> usize {
        match self {
            Expr::AnonFunction { id, .. } => *id,
            Expr::Assign { id, .. } => *id,
            Expr::Binary { id, .. } => *id,
            Expr::Call { id, .. } => *id,
            Expr::Grouping { id, .. } => *id,
            Expr::Literal { id, .. } => *id,
            Expr::Logical { id, .. } => *id,
            Expr::Unary { id, .. } => *id,
            Expr::Variable { id, .. } => *id,
        }
    }

    /// Reads the id carried by this node.
    pub fn get_id(&self) -> (r: usize)
        ensures
            r == self.id(),
    {
        match self {
            Expr::AnonFunction { id, .. } => *id,
            Expr::Assign { id, .. } => *id,
            Expr::Binary { id, .. } => *id,
            Expr::Call { id, .. } => *id,
            Expr::Grouping { id, .. } => *id,
            Expr::Literal { id, .. } => *id,
            Expr::Logical { id, .. } => *id,
            Expr::Unary { id, .. } => *id,
            Expr::Variable { id, .. } => *id,
        }
    }
}

/// The display form of an expression, in prefix notation.
pub open spec fn expr_str(e: Expr) -> Seq<char>
    decreases e, 0int,
{
    match e {
        Expr::AnonFunction { id, paren, arguments, body } => "anon/"@ + dec_u64(
            arguments@.len(),
        ),
        Expr::Assign { id, name, value } => "(= "@ + name.lexeme@ + " "@ + expr_str(*value)
            + ")"@,
        Expr::Binary { id, left, operator, right } => "("@ + operator.lexeme@ + " "@ + expr_str(
            *left,
        ) + " "@ + expr_str(*right) + ")"@,
        Expr::Call { id, callee, paren, arguments } => "(call "@ + expr_str(*callee) + args_str_from(
            arguments@,
            0,
        ) + ")"@,
        Expr::Grouping { id, expression } => "(group "@ + expr_str(*expression) + ")"@,
        Expr::Literal { id, value } => val_str(value@),
        Expr::Logical { id, left, operator, right } => "("@ + operator.lexeme@ + " "@ + expr_str(
            *left,
        ) + " "@ + expr_str(*right) + ")"@,
        Expr::Unary { id, operator, right } => "("@ + operator.lexeme@ + " "@ + expr_str(*right)
            + ")"@,
        Expr::Variable { id, name } => "(var "@ + name.lexeme@ + ")"@,
    }
}

/// The display forms of the expressions of `args` from index `i` on,
/// each preceded by a space.
pub open spec fn args_str_from(args: Seq<Expr>, i: int) -> Seq<char>
    decreases args, args.len() - i,
{
    if i < 0 || i >= args.len() {
        Seq::<char>::empty()
    } else {
        " "@ + expr_str(args[i]) + args_str_from(args, i + 1)
    }
}

fn args_to_string_from(args: &Vec<Expr>, i: usize) -> (r: String)
    ensures
        r@ == args_str_from(args@, i as int),
    decreases args@, args@.len() - i,
{
    if i >= args.len() {
        let r = String::new();
        proof {
            assert(r@ =~= args_str_from(args@, i as int));
        }
        r
    } else {
        let mut r = " ".to_owned();
        r.append(args[i].to_string().as_str());
        let rest = args_to_string_from(args, i + 1);
        r.append(rest.as_str());
        proof {
            assert(r@ =~= args_str_from(args@, i as int));
        }
        r
    }
}

impl Expr {
    /// The display form of this expression, in prefix notation.
    pub fn to_string(&self) -> (r: String)
        ensures
            r@ == expr_str(*self),
        decreases *self, 0int,
    {
        match self {
            Expr::AnonFunction { id, paren, arguments, body } => {
                let mut r = "anon/".to_owned();
                r.append(usize_to_string(arguments.len()).as_str());
                proof {
                    assert(r@ =~= expr_str(*self));
                }
                r
            },
            Expr::Assign { id, name, value } => {
                let mut r = "(= ".to_owned();
                r.append(name.lexeme.as_str());
                r.append(" ");
                r.append(value.to_string().as_str());
                r.append(")");
                proof {
                    assert(r@ =~= expr_str(*self));
                }
                r
            },
            Expr::Binary { id, left, operator, right } => {
                let mut r = "(".to_owned();
                r.append(operator.lexeme.as_str());
                r.append(" ");
                r.append(left.to_string().as_str());
                r.append(" ");
                r.append(right.to_string().as_str());
                r.append(")");
                proof {
                    assert(r@ =~= expr_str(*self));
                }
                r
            },
            Expr::Call { id, callee, paren, arguments } => {
                let mut r = "(call ".to_owned();
                r.append(callee.to_string().as_str());
                r.append(args_to_string_from(arguments, 0).as_str());
                r.append(")");
                proof {
                    assert(r@ =~= expr_str(*self));
                }
                r
            },
            Expr::Grouping { id, expression } => {
                let mut r = "(group ".to_owned();
                r.append(expression.to_string().as_str());
                r.append(")");
                proof {
                    assert(r@ =~= expr_str(*self));
                }
                r
            },
            Expr::Literal { id, value } => value.to_string(),
            Expr::Logical { id, left, operator, right } => {
                let mut r = "(".to_owned();
                r.append(operator.lexeme.as_str());
                r.append(" ");
                r.append(left.to_string().as_str());
                r.append(" ");
                r.append(right.to_string().as_str());
                r.append(")");
                proof {
                    assert(r@ =~= expr_str(*self));
                }
                r
            },
            Expr::Unary { id, operator, right } => {
                let mut r = "(".to_owned();
                r.append(operator.lexeme.as_str());
                r.append(" ");
                r.append(right.to_string().as_str());
                r.append(")");
                proof {
                    assert(r@ =~= expr_str(*self));
                }
                r
            },
            Expr::Variable { id, name } => {
                let mut r = "(var ".to_owned();
                r.append(name.lexeme.as_str());
                r.append(")");
                proof {
                    assert(r@ =~= expr_str(*self));
                }
                r
            },
        }
    }
}

} // verus!
