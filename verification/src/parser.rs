//! The recursive-descent parser: token sequence to statement sequence.
//!
//! The parser is specified by the statement and expression shapes it
//! produces; `for` is not a statement kind of its own, the parser
//! desugars it into a block holding the initializer and an equivalent
//! `while` loop. On a malformed construct it records a parse error and
//! recovers by synchronization: it discards tokens up to the next
//! statement boundary and goes on, so one parse reports every error it
//! finds. Every expression node is handed a process-unique id, counted
//! up from zero, left to right.
//!
//! What is verified here: the parser never runs off the token sequence
//! (the end-of-input token is never consumed); it always makes
//! progress (a parsed statement consumes at least one token, so
//! parsing terminates); a parse that succeeds consumed the whole
//! sequence; every production yields the node shape its leading token
//! demands (a `print` statement comes back as a `Print` node, a
//! literal token as the matching `Literal` carrying that token's
//! value, an identifier as a `Variable` holding that token, and so
//! on); and a `for` statement always comes back desugared. A full
//! functional description of the produced tree — precedence,
//! associativity, the exact recovery points — is not stated as a
//! contract; it is fixed by the code and exercised by the tests.

use crate::expr::{Expr, LiteralValue};
use crate::scanner::{Token, TokenType};
use crate::stmt::Stmt;
use std::rc::Rc;
use vstd::prelude::*;

verus! {

/// The desugared shape of a `for` statement: no `for` node exists at
/// run time. The result is a bare `while` loop, or — when the head
/// held an initializer — a block of exactly two statements: the
/// initializer (a variable declaration or an expression statement)
/// followed by the `while` loop.
pub open spec fn for_desugar_shape(s: Stmt) -> bool {
    ||| s matches Stmt::WhileStmt { .. }
    ||| (s matches Stmt::Block { statements } && statements@.len() == 2 && (statements@[0] matches
        Stmt::Var { .. } || statements@[0] matches Stmt::Expression { .. }) && statements@[1] matches
        Stmt::WhileStmt { .. })
}

/// Whether `t` is one of the binary operators the grammar produces.
pub open spec fn is_binary_op(t: TokenType) -> bool {
    ||| t == TokenType::Plus
    ||| t == TokenType::Minus
    ||| t == TokenType::Star
    ||| t == TokenType::Slash
    ||| t == TokenType::Greater
    ||| t == TokenType::GreaterEqual
    ||| t == TokenType::Less
    ||| t == TokenType::LessEqual
    ||| t == TokenType::BangEqual
    ||| t == TokenType::EqualEqual
}

/// Every operator a parsed expression holds is one the grammar can
/// produce — binary nodes carry arithmetic, comparison or equality
/// operators, logical nodes `and`/`or`, unary nodes `!`/`-` — and a
/// literal node never holds a callable: the operator and literal
/// shapes the evaluator rejects as invalid never occur in a parsed
/// tree.
pub open spec fn wf_parsed_expr(e: Expr) -> bool
    decreases e, 1int,
{
    match e {
        Expr::Literal { id, value } => !(value matches LiteralValue::Callable { .. }),
        Expr::Grouping { id, expression } => wf_parsed_expr(*expression),
        Expr::Unary { id, operator, right } => (operator.token_type == TokenType::Bang
            || operator.token_type == TokenType::Minus) && wf_parsed_expr(*right),
        Expr::Binary { id, left, operator, right } => is_binary_op(operator.token_type)
            && wf_parsed_expr(*left) && wf_parsed_expr(*right),
        Expr::Logical { id, left, operator, right } => (operator.token_type == TokenType::And
            || operator.token_type == TokenType::Or) && wf_parsed_expr(*left) && wf_parsed_expr(
            *right,
        ),
        Expr::Variable { id, name } => true,
        Expr::Assign { id, name, value } => wf_parsed_expr(*value),
        Expr::Call { id, callee, paren, arguments } => wf_parsed_expr(*callee) && wf_parsed_exprs(
            arguments@,
        ),
        Expr::AnonFunction { id, paren, arguments, body } => wf_parsed_stmts(body@),
    }
}

/// See [`wf_parsed_expr`], over every expression of a sequence.
pub open spec fn wf_parsed_exprs(es: Seq<Expr>) -> bool
    decreases es, 0int,
{
    forall|i: int| 0 <= i < es.len() ==> wf_parsed_expr(#[trigger] es[i])
}

/// See [`wf_parsed_expr`], over every expression a statement holds.
pub open spec fn wf_parsed_stmt(s: Stmt) -> bool
    decreases s, 1int,
{
    match s {
        Stmt::Expression { expression } => wf_parsed_expr(expression),
        Stmt::Print { expression } => wf_parsed_expr(expression),
        Stmt::Var { name, initializer } => wf_parsed_expr(initializer),
        Stmt::Block { statements } => wf_parsed_stmts(statements@),
        Stmt::IfStmt { predicate, then_branch, els } => wf_parsed_expr(predicate)
            && wf_parsed_stmt(*then_branch) && match els {
            Option::Some(e) => wf_parsed_stmt(*e),
            Option::None => true,
        },
        Stmt::WhileStmt { condition, body } => wf_parsed_expr(condition) && wf_parsed_stmt(*body),
        Stmt::Function { name, params, body } => wf_parsed_stmts(body@),
        Stmt::ReturnStmt { keyword, value } => match value {
            Option::Some(e) => wf_parsed_expr(e),
            Option::None => true,
        },
    }
}

/// See [`wf_parsed_expr`], over every statement of a sequence.
pub open spec fn wf_parsed_stmts(ss: Seq<Stmt>) -> bool
    decreases ss, 0int,
{
    forall|i: int| 0 <= i < ss.len() ==> wf_parsed_stmt(#[trigger] ss[i])
}

/// The pieces a `for` head parses into: the optional initializer, the
/// optional condition, the optional increment, and the loop body.
pub struct ForHead {
    pub initializer: Option<Stmt>,
    pub condition: Option<Expr>,
    pub increment: Option<Expr>,
    pub body: Stmt,
}

/// The condition of the produced `while` loop: exactly the parsed
/// condition, or the literal `true` when the head's condition slot was
/// empty.
pub open spec fn for_cond_of(h: ForHead, c: Expr) -> bool {
    match h.condition {
        Option::Some(hc) => c == hc,
        Option::None => c matches Expr::Literal { id: _, value } && value == LiteralValue::True,
    }
}

/// The body of the produced `while` loop: exactly the parsed body, or,
/// when an increment was parsed, a two-statement block of the parsed
/// body followed by the increment as an expression statement.
pub open spec fn for_body_of(h: ForHead, b: Stmt) -> bool {
    match h.increment {
        Option::None => b == h.body,
        Option::Some(inc) => b matches Stmt::Block { statements } && statements@.len() == 2
            && statements@[0] == h.body && (statements@[1] matches Stmt::Expression { expression }
            && expression == inc),
    }
}

/// The produced `while` loop, assembled from the parsed pieces.
pub open spec fn for_while_of(h: ForHead, w: Stmt) -> bool {
    w matches Stmt::WhileStmt { condition, body } && for_cond_of(h, condition) && for_body_of(
        h,
        *body,
    )
}

/// The exact desugaring of a `for` statement from its parsed pieces:
/// the `while` loop assembled by [`for_while_of`], preceded by the
/// parsed initializer in a two-statement block when one was parsed —
/// omitted pieces contribute no node, and no `for` node exists at run
/// time.
pub open spec fn for_desugars_to(h: ForHead, s: Stmt) -> bool {
    match h.initializer {
        Option::None => for_while_of(h, s),
        Option::Some(init) => s matches Stmt::Block { statements } && statements@.len() == 2
            && statements@[0] == init && for_while_of(h, statements@[1]),
    }
}

/// The parser over one token sequence.
pub struct Parser {
    pub tokens: Vec<Token>,
    pub current: usize,
    pub next_id: usize,
}

impl Parser {
    /// Well-formed: the cursor never passes the end-of-input token
    /// that closes the sequence.
    pub open spec fn wf(&self) -> bool {
        &&& self.tokens@.len() >= 1
        &&& self.current < self.tokens@.len()
        &&& self.tokens@.last().token_type == TokenType::Eof
    }

    /// A fresh parser at the head of `tokens`, which must end in the
    /// end-of-input token the scanner always provides.
    pub fn new(tokens: Vec<Token>) -> (p: Parser)
        requires
            tokens@.len() >= 1,
            tokens@.last().token_type == TokenType::Eof,
        ensures
            p.wf(),
            p.tokens == tokens,
            p.current == 0,
            p.next_id == 0,
    {
        Parser { tokens, current: 0, next_id: 0 }
    }

    /// A fresh expression id: exactly the counter's current value; the
    /// counter then advances, so later nodes get larger ids — in the
    /// unreachable extreme it saturates at the machine word.
    fn fresh_id(&mut self) -> (id: usize)
        ensures
            final(self).tokens == old(self).tokens,
            final(self).current == old(self).current,
            id == old(self).next_id,
            final(self).next_id >= old(self).next_id,
            old(self).next_id < usize::MAX ==> final(self).next_id == old(self).next_id + 1,
    {
        let id = self.next_id;
        if self.next_id < usize::MAX {
            self.next_id = self.next_id + 1;
        }
        id
    }

    fn peek(&self) -> (t: Token)
        requires
            self.wf(),
        ensures
            t == self.tokens@[self.current as int],
    {
        self.tokens[self.current].clone()
    }

    fn previous(&self) -> (t: Token)
        requires
            self.wf(),
            self.current >= 1,
        ensures
            t == self.tokens@[self.current - 1],
    {
        self.tokens[self.current - 1].clone()
    }

    fn is_at_end(&self) -> (r: bool)
        requires
            self.wf(),
        ensures
            r == (self.tokens@[self.current as int].token_type == TokenType::Eof),
    {
        self.peek().token_type == TokenType::Eof
    }

    fn check(&self, typ: TokenType) -> (r: bool)
        requires
            self.wf(),
        ensures
            r == (self.tokens@[self.current as int].token_type == typ),
    {
        self.peek().token_type == typ
    }

    fn advance(&mut self) -> (t: Token)
        requires
            old(self).wf(),
        ensures
            final(self).wf(),
            final(self).tokens == old(self).tokens,
            final(self).next_id == old(self).next_id,
            old(self).current <= final(self).current <= old(self).current + 1,
            old(self).tokens@[old(self).current as int].token_type != TokenType::Eof ==> final(self).current == old(self).current + 1,
            old(self).tokens@[old(self).current as int].token_type == TokenType::Eof ==> final(self).current == old(self).current,
            t == old(self).tokens@[old(self).current as int],
    {
        let _n = self.tokens.len();
        if !self.is_at_end() {
            self.current = self.current + 1;
            self.previous()
        } else {
            // The end-of-input token is never consumed.
            self.peek()
        }
    }

    fn match_token(&mut self, typ: TokenType) -> (r: bool)
        requires
            old(self).wf(),
        ensures
            final(self).wf(),
            final(self).tokens == old(self).tokens,
            final(self).next_id == old(self).next_id,
            r == (old(self).tokens@[old(self).current as int].token_type == typ && typ
                != TokenType::Eof),
            r ==> final(self).current == old(self).current + 1,
            !r ==> final(self).current == old(self).current,
    {
        if self.is_at_end() {
            false
        } else {
            if self.peek().token_type == typ {
                self.advance();
                true
            } else {
                false
            }
        }
    }

    fn match_tokens(&mut self, typs: &Vec<TokenType>) -> (r: bool)
        requires
            old(self).wf(),
        ensures
            final(self).wf(),
            final(self).tokens == old(self).tokens,
            final(self).next_id == old(self).next_id,
            r ==> final(self).current == old(self).current + 1 && typs@.contains(
                old(self).tokens@[old(self).current as int].token_type,
            ),
            !r ==> final(self).current == old(self).current,
    {
        let mut i: usize = 0;
        while i < typs.len()
            invariant
                self.wf(),
                self.tokens == old(self).tokens,
                self.current == old(self).current,
                self.next_id == old(self).next_id,
                i <= typs@.len(),
            decreases typs@.len() - i,
        {
            if self.match_token(typs[i]) {
                return true;
            }
            i = i + 1;
        }
        false
    }

    fn consume(&mut self, token_type: TokenType, msg: &str) -> (r: Result<Token, String>)
        requires
            old(self).wf(),
        ensures
            final(self).wf(),
            final(self).tokens == old(self).tokens,
            final(self).next_id == old(self).next_id,
            match r {
                Result::Ok(t) => final(self).current == old(self).current + 1 && t == old(self).tokens@[old(self).current as int] && t.token_type == token_type,
                Result::Err(m) => final(self).current == old(self).current && m@ == msg@,
            },
            (old(self).tokens@[old(self).current as int].token_type == token_type && token_type
                != TokenType::Eof) ==> r is Ok,
    {
        let token = self.peek();
        if token.token_type == token_type {
            if self.is_at_end() {
                // Only the end-of-input token itself could be consumed
                // here, and it never is: every caller asks for another
                // kind.
                return Result::Err(msg.to_owned());
            }
            self.advance();
            Result::Ok(token)
        } else {
            Result::Err(msg.to_owned())
        }
    }

    /// Discards tokens up to the next statement boundary: just past a
    /// `;`, or just before a statement-starting keyword.
    fn synchronize(&mut self)
        requires
            old(self).wf(),
        ensures
            final(self).wf(),
            final(self).tokens == old(self).tokens,
            final(self).next_id == old(self).next_id,
            final(self).current >= old(self).current,
            old(self).tokens@[old(self).current as int].token_type != TokenType::Eof ==> final(self).current > old(self).current,
    {
        self.advance();
        while !self.is_at_end()
            invariant
                self.wf(),
                self.tokens == old(self).tokens,
                self.next_id == old(self).next_id,
                self.current >= old(self).current,
                self.current >= 1 || self.tokens@[self.current as int].token_type
                    == TokenType::Eof,
                old(self).tokens@[old(self).current as int].token_type != TokenType::Eof
                    ==> self.current > old(self).current,
            decreases self.tokens@.len() - self.current,
        {
            if self.previous().token_type == TokenType::Semicolon {
                return ;
            }
            match self.peek().token_type {
                TokenType::Class | TokenType::Fun | TokenType::Var | TokenType::For | TokenType::If
                    | TokenType::While | TokenType::Print | TokenType::Return => {
                    return ;
                },
                _ => {},
            }
            self.advance();
        }
    }
}


impl Parser {
    fn check_next(&self, typ: TokenType) -> (r: bool)
        requires
            self.wf(),
        ensures
            r == (self.current + 1 < self.tokens@.len() && self.tokens@[self.current
                + 1].token_type == typ),
    {
        let n = self.tokens.len();
        if self.current + 1 < n {
            self.tokens[self.current + 1].token_type == typ
        } else {
            false
        }
    }

    /// Parses one expression.
    fn expression(&mut self) -> (r: Result<Expr, String>)
        requires
            old(self).wf(),
        ensures
            final(self).wf(),
            final(self).tokens == old(self).tokens,
            final(self).current >= old(self).current,
            r is Ok ==> final(self).current > old(self).current,
            r matches Result::Ok(e) ==> wf_parsed_expr(e),
            final(self).next_id >= old(self).next_id,
        decreases self.tokens@.len() - self.current, 20int,
    {
        self.assignment()
    }

    fn assignment(&mut self) -> (r: Result<Expr, String>)
        requires
            old(self).wf(),
        ensures
            final(self).wf(),
            final(self).tokens == old(self).tokens,
            final(self).current >= old(self).current,
            r is Ok ==> final(self).current > old(self).current,
            r matches Result::Ok(e) ==> wf_parsed_expr(e),
            final(self).next_id >= old(self).next_id,
        decreases self.tokens@.len() - self.current, 18int,
    {
        let expr = match self.or() {
            Result::Ok(e) => e,
            Result::Err(m) => {
                return Result::Err(m);
            },
        };
        if self.match_token(TokenType::Equal) {
            let value = match self.assignment() {
                Result::Ok(e) => e,
                Result::Err(m) => {
                    return Result::Err(m);
                },
            };
            match expr {
                Expr::Variable { id: _, name } => {
                    let id = self.fresh_id();
                    Result::Ok(Expr::Assign { id, name, value: Box::new(value) })
                },
                _ => Result::Err("Invalid assignment target.".to_owned()),
            }
        } else {
            Result::Ok(expr)
        }
    }

    fn or(&mut self) -> (r: Result<Expr, String>)
        requires
            old(self).wf(),
        ensures
            final(self).wf(),
            final(self).tokens == old(self).tokens,
            final(self).current >= old(self).current,
            r is Ok ==> final(self).current > old(self).current,
            final(self).next_id >= old(self).next_id,
            r matches Result::Ok(e) ==> wf_parsed_expr(e),
        decreases self.tokens@.len() - self.current, 16int,
    {
        let mut expr = match self.and() {
            Result::Ok(e) => e,
            Result::Err(m) => {
                return Result::Err(m);
            },
        };
        let mut matched = self.match_token(TokenType::Or);
        while matched
            invariant
                self.wf(),
                self.tokens == old(self).tokens,
                self.current > old(self).current,
                self.next_id >= old(self).next_id,
                wf_parsed_expr(expr),
                matched ==> self.current >= 1 && self.tokens@[self.current - 1].token_type
                    == TokenType::Or,
            decreases self.tokens@.len() - self.current,
        {
            let operator = self.previous();
            let right = match self.and() {
                Result::Ok(e) => e,
                Result::Err(m) => {
                    return Result::Err(m);
                },
            };
            let id = self.fresh_id();
            expr = Expr::Logical { id, left: Box::new(expr), operator, right: Box::new(right) };
            matched = self.match_token(TokenType::Or);
        }
        Result::Ok(expr)
    }

    fn and(&mut self) -> (r: Result<Expr, String>)
        requires
            old(self).wf(),
        ensures
            final(self).wf(),
            final(self).tokens == old(self).tokens,
            final(self).current >= old(self).current,
            r is Ok ==> final(self).current > old(self).current,
            r matches Result::Ok(e) ==> wf_parsed_expr(e),
            final(self).next_id >= old(self).next_id,
        decreases self.tokens@.len() - self.current, 14int,
    {
        let mut expr = match self.equality() {
            Result::Ok(e) => e,
            Result::Err(m) => {
                return Result::Err(m);
            },
        };
        let mut matched = self.match_token(TokenType::And);
        while matched
            invariant
                self.wf(),
                self.tokens == old(self).tokens,
                self.current > old(self).current,
                self.next_id >= old(self).next_id,
                wf_parsed_expr(expr),
                matched ==> self.current >= 1 && self.tokens@[self.current - 1].token_type
                    == TokenType::And,
            decreases self.tokens@.len() - self.current,
        {
            let operator = self.previous();
            let right = match self.equality() {
                Result::Ok(e) => e,
                Result::Err(m) => {
                    return Result::Err(m);
                },
            };
            let id = self.fresh_id();
            expr = Expr::Logical { id, left: Box::new(expr), operator, right: Box::new(right) };
            matched = self.match_token(TokenType::And);
        }
        Result::Ok(expr)
    }

    fn equality(&mut self) -> (r: Result<Expr, String>)
        requires
            old(self).wf(),
        ensures
            final(self).wf(),
            final(self).tokens == old(self).tokens,
            final(self).current >= old(self).current,
            r is Ok ==> final(self).current > old(self).current,
            r matches Result::Ok(e) ==> wf_parsed_expr(e),
            final(self).next_id >= old(self).next_id,
        decreases self.tokens@.len() - self.current, 12int,
    {
        let ops = vec![TokenType::BangEqual, TokenType::EqualEqual];
        let mut expr = match self.comparison() {
            Result::Ok(e) => e,
            Result::Err(m) => {
                return Result::Err(m);
            },
        };
        let mut matched = self.match_tokens(&ops);
        while matched
            invariant
                self.wf(),
                self.tokens == old(self).tokens,
                self.current > old(self).current,
                self.next_id >= old(self).next_id,
                wf_parsed_expr(expr),
                forall|j: int| 0 <= j < ops@.len() ==> is_binary_op(#[trigger] ops@[j]),
                matched ==> self.current >= 1 && ops@.contains(
                    self.tokens@[self.current - 1].token_type,
                ),
            decreases self.tokens@.len() - self.current,
        {
            let operator = self.previous();
            let rhs = match self.comparison() {
                Result::Ok(e) => e,
                Result::Err(m) => {
                    return Result::Err(m);
                },
            };
            let id = self.fresh_id();
            expr = Expr::Binary { id, left: Box::new(expr), operator, right: Box::new(rhs) };
            matched = self.match_tokens(&ops);
        }
        Result::Ok(expr)
    }

    fn comparison(&mut self) -> (r: Result<Expr, String>)
        requires
            old(self).wf(),
        ensures
            final(self).wf(),
            final(self).tokens == old(self).tokens,
            final(self).current >= old(self).current,
            r is Ok ==> final(self).current > old(self).current,
            r matches Result::Ok(e) ==> wf_parsed_expr(e),
            final(self).next_id >= old(self).next_id,
        decreases self.tokens@.len() - self.current, 10int,
    {
        let ops = vec![
            TokenType::Greater,
            TokenType::GreaterEqual,
            TokenType::Less,
            TokenType::LessEqual,
        ];
        let mut expr = match self.term() {
            Result::Ok(e) => e,
            Result::Err(m) => {
                return Result::Err(m);
            },
        };
        let mut matched = self.match_tokens(&ops);
        while matched
            invariant
                self.wf(),
                self.tokens == old(self).tokens,
                self.current > old(self).current,
                self.next_id >= old(self).next_id,
                wf_parsed_expr(expr),
                forall|j: int| 0 <= j < ops@.len() ==> is_binary_op(#[trigger] ops@[j]),
                matched ==> self.current >= 1 && ops@.contains(
                    self.tokens@[self.current - 1].token_type,
                ),
            decreases self.tokens@.len() - self.current,
        {
            let op = self.previous();
            let rhs = match self.term() {
                Result::Ok(e) => e,
                Result::Err(m) => {
                    return Result::Err(m);
                },
            };
            let id = self.fresh_id();
            expr = Expr::Binary { id, left: Box::new(expr), operator: op, right: Box::new(rhs) };
            matched = self.match_tokens(&ops);
        }
        Result::Ok(expr)
    }

    fn term(&mut self) -> (r: Result<Expr, String>)
        requires
            old(self).wf(),
        ensures
            final(self).wf(),
            final(self).tokens == old(self).tokens,
            final(self).current >= old(self).current,
            r is Ok ==> final(self).current > old(self).current,
            r matches Result::Ok(e) ==> wf_parsed_expr(e),
            final(self).next_id >= old(self).next_id,
        decreases self.tokens@.len() - self.current, 8int,
    {
        let ops = vec![TokenType::Minus, TokenType::Plus];
        let mut expr = match self.factor() {
            Result::Ok(e) => e,
            Result::Err(m) => {
                return Result::Err(m);
            },
        };
        let mut matched = self.match_tokens(&ops);
        while matched
            invariant
                self.wf(),
                self.tokens == old(self).tokens,
                self.current > old(self).current,
                self.next_id >= old(self).next_id,
                wf_parsed_expr(expr),
                forall|j: int| 0 <= j < ops@.len() ==> is_binary_op(#[trigger] ops@[j]),
                matched ==> self.current >= 1 && ops@.contains(
                    self.tokens@[self.current - 1].token_type,
                ),
            decreases self.tokens@.len() - self.current,
        {
            let op = self.previous();
            let rhs = match self.factor() {
                Result::Ok(e) => e,
                Result::Err(m) => {
                    return Result::Err(m);
                },
            };
            let id = self.fresh_id();
            expr = Expr::Binary { id, left: Box::new(expr), operator: op, right: Box::new(rhs) };
            matched = self.match_tokens(&ops);
        }
        Result::Ok(expr)
    }

    fn factor(&mut self) -> (r: Result<Expr, String>)
        requires
            old(self).wf(),
        ensures
            final(self).wf(),
            final(self).tokens == old(self).tokens,
            final(self).current >= old(self).current,
            r is Ok ==> final(self).current > old(self).current,
            r matches Result::Ok(e) ==> wf_parsed_expr(e),
            final(self).next_id >= old(self).next_id,
        decreases self.tokens@.len() - self.current, 6int,
    {
        let ops = vec![TokenType::Slash, TokenType::Star];
        let mut expr = match self.unary() {
            Result::Ok(e) => e,
            Result::Err(m) => {
                return Result::Err(m);
            },
        };
        let mut matched = self.match_tokens(&ops);
        while matched
            invariant
                self.wf(),
                self.tokens == old(self).tokens,
                self.current > old(self).current,
                self.next_id >= old(self).next_id,
                wf_parsed_expr(expr),
                forall|j: int| 0 <= j < ops@.len() ==> is_binary_op(#[trigger] ops@[j]),
                matched ==> self.current >= 1 && ops@.contains(
                    self.tokens@[self.current - 1].token_type,
                ),
            decreases self.tokens@.len() - self.current,
        {
            let op = self.previous();
            let rhs = match self.unary() {
                Result::Ok(e) => e,
                Result::Err(m) => {
                    return Result::Err(m);
                },
            };
            let id = self.fresh_id();
            expr = Expr::Binary { id, left: Box::new(expr), operator: op, right: Box::new(rhs) };
            matched = self.match_tokens(&ops);
        }
        Result::Ok(expr)
    }

    fn unary(&mut self) -> (r: Result<Expr, String>)
        requires
            old(self).wf(),
        ensures
            final(self).wf(),
            final(self).tokens == old(self).tokens,
            final(self).current >= old(self).current,
            r is Ok ==> final(self).current > old(self).current,
            r matches Result::Ok(e) ==> wf_parsed_expr(e),
            final(self).next_id >= old(self).next_id,
        decreases self.tokens@.len() - self.current, 4int,
    {
        let ops = vec![TokenType::Bang, TokenType::Minus];
        if self.match_tokens(&ops) {
            let op = self.previous();
            let rhs = match self.unary() {
                Result::Ok(e) => e,
                Result::Err(m) => {
                    return Result::Err(m);
                },
            };
            let id = self.fresh_id();
            Result::Ok(Expr::Unary { id, operator: op, right: Box::new(rhs) })
        } else {
            self.call()
        }
    }

    fn call(&mut self) -> (r: Result<Expr, String>)
        requires
            old(self).wf(),
        ensures
            final(self).wf(),
            final(self).tokens == old(self).tokens,
            final(self).current >= old(self).current,
            r is Ok ==> final(self).current > old(self).current,
            r matches Result::Ok(e) ==> wf_parsed_expr(e),
            final(self).next_id >= old(self).next_id,
        decreases self.tokens@.len() - self.current, 3int,
    {
        let mut expr = match self.primary() {
            Result::Ok(e) => e,
            Result::Err(m) => {
                return Result::Err(m);
            },
        };
        let mut matched = self.match_token(TokenType::LeftParen);
        while matched
            invariant
                self.wf(),
                self.tokens == old(self).tokens,
                self.current > old(self).current,
                self.next_id >= old(self).next_id,
                wf_parsed_expr(expr),
            decreases self.tokens@.len() - self.current,
        {
            let mut arguments: Vec<Expr> = Vec::new();
            proof {
                assert(wf_parsed_exprs(arguments@));
            }
            if !self.check(TokenType::RightParen) {
                let first = match self.expression() {
                    Result::Ok(e) => e,
                    Result::Err(m) => {
                        return Result::Err(m);
                    },
                };
                arguments.push(first);
                proof {
                    assert(wf_parsed_exprs(arguments@));
                }
                let ghost cmark = self.current;
                let mut more = self.match_token(TokenType::Comma);
                while more
                    invariant
                        self.wf(),
                        self.tokens == old(self).tokens,
                        self.current >= cmark,
                        cmark > old(self).current,
                        self.next_id >= old(self).next_id,
                        wf_parsed_exprs(arguments@),
                    decreases self.tokens@.len() - self.current,
                {
                    let next = match self.expression() {
                        Result::Ok(e) => e,
                        Result::Err(m) => {
                            return Result::Err(m);
                        },
                    };
                    let ghost pre = arguments@;
                    arguments.push(next);
                    proof {
                        assert forall|j: int|
                            0 <= j < arguments@.len() implies wf_parsed_expr(
                            #[trigger] arguments@[j],
                        ) by {
                            if j < pre.len() {
                                assert(arguments@[j] == pre[j]);
                            } else {
                                assert(arguments@[j] == next);
                            }
                        }
                    }
                    more = self.match_token(TokenType::Comma);
                }
            }
            let paren = match self.consume(TokenType::RightParen, "Expected ')' after arguments.") {
                Result::Ok(t) => t,
                Result::Err(m) => {
                    return Result::Err(m);
                },
            };
            let id = self.fresh_id();
            proof {
                assert(wf_parsed_exprs(arguments@));
            }
            expr = Expr::Call { id, callee: Box::new(expr), paren, arguments };
            proof {
                assert(wf_parsed_expr(expr));
            }
            matched = self.match_token(TokenType::LeftParen);
        }
        Result::Ok(expr)
    }

    /// Parses the comma-separated parameter names between the
    /// parentheses of a function head.
    fn parameters(&mut self) -> (r: Result<Vec<Token>, String>)
        requires
            old(self).wf(),
        ensures
            final(self).wf(),
            final(self).tokens == old(self).tokens,
            final(self).current >= old(self).current,
            final(self).next_id >= old(self).next_id,
        decreases self.tokens@.len() - self.current, 3int,
    {
        let mut params: Vec<Token> = Vec::new();
        if !self.check(TokenType::RightParen) {
            let first = match self.consume(TokenType::Identifier, "Expected parameter name") {
                Result::Ok(t) => t,
                Result::Err(m) => {
                    return Result::Err(m);
                },
            };
            params.push(first);
            let ghost cmark = self.current;
            let mut more = self.match_token(TokenType::Comma);
            while more
                invariant
                    self.wf(),
                    self.tokens == old(self).tokens,
                    self.current >= cmark,
                    cmark > old(self).current,
                    self.next_id >= old(self).next_id,
                decreases self.tokens@.len() - self.current,
            {
                let next = match self.consume(TokenType::Identifier, "Expected parameter name") {
                    Result::Ok(t) => t,
                    Result::Err(m) => {
                        return Result::Err(m);
                    },
                };
                params.push(next);
                more = self.match_token(TokenType::Comma);
            }
        }
        Result::Ok(params)
    }

    fn primary(&mut self) -> (r: Result<Expr, String>)
        requires
            old(self).wf(),
        ensures
            final(self).wf(),
            final(self).tokens == old(self).tokens,
            final(self).current >= old(self).current,
            r is Ok ==> final(self).current > old(self).current,
            r matches Result::Ok(e) ==> ({
                let t = old(self).tokens@[old(self).current as int];
                match t.token_type {
                    TokenType::LeftParen => e matches Expr::Grouping { .. },
                    TokenType::False => (e matches Expr::Literal { id, value } && value
                        == LiteralValue::False),
                    TokenType::True => (e matches Expr::Literal { id, value } && value
                        == LiteralValue::True),
                    TokenType::Nil => (e matches Expr::Literal { id, value } && value
                        == LiteralValue::Nil),
                    TokenType::Number => (t.literal matches Option::Some(
                        crate::scanner::LiteralValue::IntValue(n),
                    ) && (e matches Expr::Literal { id, value } && value == LiteralValue::Number(
                        n,
                    ))),
                    TokenType::StringLit => (t.literal matches Option::Some(
                        crate::scanner::LiteralValue::StringValue(sv),
                    ) && (e matches Expr::Literal { id, value } && value
                        == LiteralValue::StringValue(sv))),
                    TokenType::Identifier => (e matches Expr::Variable { id, name } && name == t),
                    TokenType::Fun => e matches Expr::AnonFunction { .. },
                    _ => false,
                }
            }),
            r matches Result::Ok(e) ==> wf_parsed_expr(e),
            ({
                let t = old(self).tokens@[old(self).current as int];
                match t.token_type {
                    TokenType::False | TokenType::True | TokenType::Nil
                        | TokenType::Identifier => r is Ok,
                    TokenType::Number => (t.literal matches Option::Some(
                        crate::scanner::LiteralValue::IntValue(n),
                    )) ==> r is Ok,
                    TokenType::StringLit => (t.literal matches Option::Some(
                        crate::scanner::LiteralValue::StringValue(sv),
                    )) ==> r is Ok,
                    _ => true,
                }
            }),
            final(self).next_id >= old(self).next_id,
        decreases self.tokens@.len() - self.current, 2int,
    {
        let token = self.peek();
        match token.token_type {
            TokenType::LeftParen => {
                self.advance();
                let expr = match self.expression() {
                    Result::Ok(e) => e,
                    Result::Err(m) => {
                        return Result::Err(m);
                    },
                };
                match self.consume(TokenType::RightParen, "Expected ')'") {
                    Result::Ok(_) => {},
                    Result::Err(m) => {
                        return Result::Err(m);
                    },
                }
                let id = self.fresh_id();
                Result::Ok(Expr::Grouping { id, expression: Box::new(expr) })
            },
            TokenType::False => {
                self.advance();
                let id = self.fresh_id();
                Result::Ok(Expr::Literal { id, value: LiteralValue::False })
            },
            TokenType::True => {
                self.advance();
                let id = self.fresh_id();
                Result::Ok(Expr::Literal { id, value: LiteralValue::True })
            },
            TokenType::Nil => {
                self.advance();
                let id = self.fresh_id();
                Result::Ok(Expr::Literal { id, value: LiteralValue::Nil })
            },
            TokenType::Number => match token.literal {
                Option::Some(crate::scanner::LiteralValue::IntValue(n)) => {
                    self.advance();
                    let id = self.fresh_id();
                    Result::Ok(Expr::Literal { id, value: LiteralValue::Number(n) })
                },
                _ => Result::Err("Expected expression".to_owned()),
            },
            TokenType::StringLit => match token.literal {
                Option::Some(crate::scanner::LiteralValue::StringValue(sv)) => {
                    self.advance();
                    let id = self.fresh_id();
                    Result::Ok(Expr::Literal { id, value: LiteralValue::StringValue(sv) })
                },
                _ => Result::Err("Expected expression".to_owned()),
            },
            TokenType::Identifier => {
                let name = self.advance();
                let id = self.fresh_id();
                Result::Ok(Expr::Variable { id, name })
            },
            TokenType::Fun => {
                self.advance();
                let paren = match self.consume(TokenType::LeftParen, "Expected '(' after 'fun'") {
                    Result::Ok(t) => t,
                    Result::Err(m) => {
                        return Result::Err(m);
                    },
                };
                let params = match self.parameters() {
                    Result::Ok(ps) => ps,
                    Result::Err(m) => {
                        return Result::Err(m);
                    },
                };
                match self.consume(TokenType::RightParen, "Expected ')' after parameters.") {
                    Result::Ok(_) => {},
                    Result::Err(m) => {
                        return Result::Err(m);
                    },
                }
                match self.consume(TokenType::LeftBrace, "Expected '{' before function body.") {
                    Result::Ok(_) => {},
                    Result::Err(m) => {
                        return Result::Err(m);
                    },
                }
                let body = match self.block_body() {
                    Result::Ok(b) => b,
                    Result::Err(m) => {
                        return Result::Err(m);
                    },
                };
                let id = self.fresh_id();
                Result::Ok(
                    Expr::AnonFunction {
                        id,
                        paren,
                        arguments: Rc::new(params),
                        body: Rc::new(body),
                    },
                )
            },
            _ => Result::Err("Expected expression".to_owned()),
        }
    }

    /// Parses declarations up to and including the `}` that closes a
    /// block or function body.
    fn block_body(&mut self) -> (r: Result<Vec<Stmt>, String>)
        requires
            old(self).wf(),
        ensures
            final(self).wf(),
            final(self).tokens == old(self).tokens,
            final(self).current >= old(self).current,
            r is Ok ==> final(self).current > old(self).current,
            r matches Result::Ok(b) ==> wf_parsed_stmts(b@),
            final(self).next_id >= old(self).next_id,
        decreases self.tokens@.len() - self.current, 50int,
    {
        let mut statements: Vec<Stmt> = Vec::new();
        let mut done = self.check(TokenType::RightBrace) || self.is_at_end();
        while !done
            invariant
                self.wf(),
                self.tokens == old(self).tokens,
                self.current >= old(self).current,
                self.next_id >= old(self).next_id,
                wf_parsed_stmts(statements@),
                !done ==> !(self.tokens@[self.current as int].token_type == TokenType::Eof),
            decreases self.tokens@.len() - self.current,
        {
            let decl = match self.declaration() {
                Result::Ok(s) => s,
                Result::Err(m) => {
                    return Result::Err(m);
                },
            };
            statements.push(decl);
            done = self.check(TokenType::RightBrace) || self.is_at_end();
        }
        match self.consume(TokenType::RightBrace, "Expected '}' after a block") {
            Result::Ok(_) => Result::Ok(statements),
            Result::Err(m) => Result::Err(m),
        }
    }

    /// Parses one declaration: a variable declaration, a function
    /// declaration, or any other statement.
    fn declaration(&mut self) -> (r: Result<Stmt, String>)
        requires
            old(self).wf(),
        ensures
            final(self).wf(),
            final(self).tokens == old(self).tokens,
            final(self).current >= old(self).current,
            r is Ok ==> final(self).current > old(self).current,
            r matches Result::Ok(st) ==> ({
                let t = old(self).tokens@[old(self).current as int].token_type;
                if t == TokenType::Var {
                    st matches Stmt::Var { .. }
                } else if t == TokenType::Fun && old(self).current + 1 < old(self).tokens@.len()
                    && old(self).tokens@[old(self).current + 1].token_type
                    == TokenType::Identifier {
                    st matches Stmt::Function { .. }
                } else if t == TokenType::Print {
                    st matches Stmt::Print { .. }
                } else if t == TokenType::LeftBrace {
                    st matches Stmt::Block { .. }
                } else if t == TokenType::If {
                    st matches Stmt::IfStmt { .. }
                } else if t == TokenType::While {
                    st matches Stmt::WhileStmt { .. }
                } else if t == TokenType::For {
                    for_desugar_shape(st)
                } else if t == TokenType::Return {
                    st matches Stmt::ReturnStmt { .. }
                } else {
                    st matches Stmt::Expression { .. }
                }
            }),
            r matches Result::Ok(st) ==> wf_parsed_stmt(st),
            final(self).next_id >= old(self).next_id,
        decreases self.tokens@.len() - self.current, 40int,
    {
        if self.match_token(TokenType::Var) {
            self.var_declaration()
        } else if self.check(TokenType::Fun) && self.check_next(TokenType::Identifier) {
            self.advance();
            self.function_declaration()
        } else {
            self.statement()
        }
    }

    fn var_declaration(&mut self) -> (r: Result<Stmt, String>)
        requires
            old(self).wf(),
        ensures
            final(self).wf(),
            final(self).tokens == old(self).tokens,
            final(self).current >= old(self).current,
            r matches Result::Ok(st) ==> (st matches Stmt::Var { name, initializer } && name
                == old(self).tokens@[old(self).current as int]),
            (old(self).tokens@[old(self).current as int].token_type == TokenType::Identifier
                && old(self).current + 1 < old(self).tokens@.len() && old(self).tokens@[old(self).current + 1].token_type == TokenType::Semicolon) ==> r is Ok,
            r matches Result::Ok(st) ==> wf_parsed_stmt(st),
            final(self).next_id >= old(self).next_id,
        decreases self.tokens@.len() - self.current, 38int,
    {
        let token = match self.consume(TokenType::Identifier, "Expected variable name") {
            Result::Ok(t) => t,
            Result::Err(m) => {
                return Result::Err(m);
            },
        };
        let initializer = if self.match_token(TokenType::Equal) {
            match self.expression() {
                Result::Ok(e) => e,
                Result::Err(m) => {
                    return Result::Err(m);
                },
            }
        } else {
            let id = self.fresh_id();
            Expr::Literal { id, value: LiteralValue::Nil }
        };
        match self.consume(TokenType::Semicolon, "Expected ';' after variable declaration") {
            Result::Ok(_) => {
                let st = Stmt::Var { name: token, initializer };
                proof {
                    assert(wf_parsed_expr(initializer));
                    assert(wf_parsed_stmt(st));
                }
                Result::Ok(st)
            },
            Result::Err(m) => Result::Err(m),
        }
    }

    fn function_declaration(&mut self) -> (r: Result<Stmt, String>)
        requires
            old(self).wf(),
        ensures
            final(self).wf(),
            final(self).tokens == old(self).tokens,
            final(self).current >= old(self).current,
            r matches Result::Ok(st) ==> (st matches Stmt::Function { name, params, body }
                && name == old(self).tokens@[old(self).current as int]),
            r matches Result::Ok(st) ==> wf_parsed_stmt(st),
            final(self).next_id >= old(self).next_id,
        decreases self.tokens@.len() - self.current, 38int,
    {
        let name = match self.consume(TokenType::Identifier, "Expected function name") {
            Result::Ok(t) => t,
            Result::Err(m) => {
                return Result::Err(m);
            },
        };
        match self.consume(TokenType::LeftParen, "Expected '(' after function name.") {
            Result::Ok(_) => {},
            Result::Err(m) => {
                return Result::Err(m);
            },
        }
        let params = match self.parameters() {
            Result::Ok(ps) => ps,
            Result::Err(m) => {
                return Result::Err(m);
            },
        };
        match self.consume(TokenType::RightParen, "Expected ')' after parameters.") {
            Result::Ok(_) => {},
            Result::Err(m) => {
                return Result::Err(m);
            },
        }
        match self.consume(TokenType::LeftBrace, "Expected '{' before function body.") {
            Result::Ok(_) => {},
            Result::Err(m) => {
                return Result::Err(m);
            },
        }
        let body = match self.block_body() {
            Result::Ok(b) => b,
            Result::Err(m) => {
                return Result::Err(m);
            },
        };
        Result::Ok(Stmt::Function { name, params: Rc::new(params), body: Rc::new(body) })
    }

    fn statement(&mut self) -> (r: Result<Stmt, String>)
        requires
            old(self).wf(),
        ensures
            final(self).wf(),
            final(self).tokens == old(self).tokens,
            final(self).current >= old(self).current,
            r is Ok ==> final(self).current > old(self).current,
            r matches Result::Ok(st) ==> ({
                let t = old(self).tokens@[old(self).current as int].token_type;
                if t == TokenType::Print {
                    st matches Stmt::Print { .. }
                } else if t == TokenType::LeftBrace {
                    st matches Stmt::Block { .. }
                } else if t == TokenType::If {
                    st matches Stmt::IfStmt { .. }
                } else if t == TokenType::While {
                    st matches Stmt::WhileStmt { .. }
                } else if t == TokenType::For {
                    for_desugar_shape(st)
                } else if t == TokenType::Return {
                    st matches Stmt::ReturnStmt { .. }
                } else {
                    st matches Stmt::Expression { .. }
                }
            }),
            r matches Result::Ok(st) ==> wf_parsed_stmt(st),
            final(self).next_id >= old(self).next_id,
        decreases self.tokens@.len() - self.current, 38int,
    {
        if self.match_token(TokenType::Print) {
            self.print_statement()
        } else if self.match_token(TokenType::LeftBrace) {
            self.block_statement()
        } else if self.match_token(TokenType::If) {
            self.if_statement()
        } else if self.match_token(TokenType::While) {
            self.while_statement()
        } else if self.match_token(TokenType::For) {
            self.for_statement().0
        } else if self.match_token(TokenType::Return) {
            self.return_statement()
        } else {
            self.expression_statement()
        }
    }

    fn return_statement(&mut self) -> (r: Result<Stmt, String>)
        requires
            old(self).wf(),
            old(self).current >= 1,
        ensures
            final(self).wf(),
            final(self).tokens == old(self).tokens,
            final(self).current >= old(self).current,
            r matches Result::Ok(st) ==> (st matches Stmt::ReturnStmt { keyword, value }
                && keyword == old(self).tokens@[old(self).current - 1]),
            r matches Result::Ok(st) ==> wf_parsed_stmt(st),
            final(self).next_id >= old(self).next_id,
        decreases self.tokens@.len() - self.current, 36int,
    {
        let keyword = self.previous();
        let value = if !self.check(TokenType::Semicolon) {
            match self.expression() {
                Result::Ok(e) => Option::Some(e),
                Result::Err(m) => {
                    return Result::Err(m);
                },
            }
        } else {
            Option::None
        };
        match self.consume(TokenType::Semicolon, "Expected ';' after return value.") {
            Result::Ok(_) => Result::Ok(Stmt::ReturnStmt { keyword, value }),
            Result::Err(m) => Result::Err(m),
        }
    }

    /// Parses a `for` statement and desugars it on the spot. The
    /// parsed pieces come back as the ghost [`ForHead`], and the
    /// result is exactly their assembly per [`for_desugars_to`]: a
    /// `while` loop whose condition is the parsed condition — the
    /// literal `true` when that slot was empty — and whose body is the
    /// parsed body, extended with the parsed increment as a trailing
    /// expression statement when one was given; the whole is wrapped
    /// in a block after the parsed initializer when one was given.
    fn for_statement(&mut self) -> (r: (Result<Stmt, String>, Ghost<ForHead>))
        requires
            old(self).wf(),
        ensures
            final(self).wf(),
            final(self).tokens == old(self).tokens,
            final(self).current >= old(self).current,
            r.0 matches Result::Ok(s) ==> for_desugar_shape(s),
            r.0 matches Result::Ok(st) ==> wf_parsed_stmt(st),
            r.0 matches Result::Ok(s) ==> for_desugars_to(r.1@, s),
            r.0 matches Result::Ok(s) ==> (r.1@.initializer matches Option::Some(i) ==> (i matches
                Stmt::Var { .. } || i matches Stmt::Expression { .. })),
            final(self).next_id >= old(self).next_id,
        decreases self.tokens@.len() - self.current, 36int,
    {
        match self.consume(TokenType::LeftParen, "Expected '(' after 'for'.") {
            Result::Ok(_) => {},
            Result::Err(m) => {
                return (Result::Err(m), Ghost(arbitrary()));
            },
        }
        let initializer: Option<Stmt> = if self.match_token(TokenType::Semicolon) {
            Option::None
        } else if self.match_token(TokenType::Var) {
            match self.var_declaration() {
                Result::Ok(s) => Option::Some(s),
                Result::Err(m) => {
                    return (Result::Err(m), Ghost(arbitrary()));
                },
            }
        } else {
            match self.expression_statement() {
                Result::Ok(s) => Option::Some(s),
                Result::Err(m) => {
                    return (Result::Err(m), Ghost(arbitrary()));
                },
            }
        };
        let ghost g_init = initializer;
        let condition: Option<Expr> = if !self.check(TokenType::Semicolon) {
            match self.expression() {
                Result::Ok(e) => Option::Some(e),
                Result::Err(m) => {
                    return (Result::Err(m), Ghost(arbitrary()));
                },
            }
        } else {
            Option::None
        };
        let ghost g_cond = condition;
        match self.consume(TokenType::Semicolon, "Expected ';' after loop condition.") {
            Result::Ok(_) => {},
            Result::Err(m) => {
                return (Result::Err(m), Ghost(arbitrary()));
            },
        }
        let increment: Option<Expr> = if !self.check(TokenType::RightParen) {
            match self.expression() {
                Result::Ok(e) => Option::Some(e),
                Result::Err(m) => {
                    return (Result::Err(m), Ghost(arbitrary()));
                },
            }
        } else {
            Option::None
        };
        let ghost g_incr = increment;
        match self.consume(TokenType::RightParen, "Expected ')' after for clauses.") {
            Result::Ok(_) => {},
            Result::Err(m) => {
                return (Result::Err(m), Ghost(arbitrary()));
            },
        }
        let mut body = match self.statement() {
            Result::Ok(s) => s,
            Result::Err(m) => {
                return (Result::Err(m), Ghost(arbitrary()));
            },
        };
        let ghost head = ForHead {
            initializer: g_init,
            condition: g_cond,
            increment: g_incr,
            body: body,
        };
        if let Option::Some(incr) = increment {
            let ghost b0 = body;
            let step = Stmt::Expression { expression: incr };
            let ghost w0 = step;
            let parts = vec![body, step];
            proof {
                assert(parts@ =~= seq![b0, w0]);
                assert(wf_parsed_stmts(parts@));
            }
            body = Stmt::Block { statements: parts };
            proof {
                assert(wf_parsed_stmt(body));
                assert(for_body_of(head, body));
            }
        } else {
            proof {
                assert(for_body_of(head, body));
            }
        }
        let cond = match condition {
            Option::None => {
                let id = self.fresh_id();
                Expr::Literal { id, value: LiteralValue::True }
            },
            Option::Some(c) => c,
        };
        proof {
            assert(wf_parsed_expr(cond));
            assert(for_cond_of(head, cond));
        }
        body = Stmt::WhileStmt { condition: cond, body: Box::new(body) };
        proof {
            assert(wf_parsed_stmt(body));
            assert(for_while_of(head, body));
        }
        if let Option::Some(init) = initializer {
            let ghost i0 = init;
            let ghost l0 = body;
            let parts = vec![init, body];
            proof {
                assert(parts@ =~= seq![i0, l0]);
                assert(wf_parsed_stmts(parts@));
            }
            body = Stmt::Block { statements: parts };
            proof {
                assert(wf_parsed_stmt(body));
                assert(for_desugars_to(head, body));
            }
        } else {
            proof {
                assert(for_desugars_to(head, body));
            }
        }
        (Result::Ok(body), Ghost(head))
    }

    fn while_statement(&mut self) -> (r: Result<Stmt, String>)
        requires
            old(self).wf(),
        ensures
            final(self).wf(),
            final(self).tokens == old(self).tokens,
            final(self).current >= old(self).current,
            r matches Result::Ok(st) ==> st matches Stmt::WhileStmt { .. },
            r matches Result::Ok(st) ==> wf_parsed_stmt(st),
            final(self).next_id >= old(self).next_id,
        decreases self.tokens@.len() - self.current, 36int,
    {
        match self.consume(TokenType::LeftParen, "Expected '(' after 'while'") {
            Result::Ok(_) => {},
            Result::Err(m) => {
                return Result::Err(m);
            },
        }
        let condition = match self.expression() {
            Result::Ok(e) => e,
            Result::Err(m) => {
                return Result::Err(m);
            },
        };
        match self.consume(TokenType::RightParen, "Expected ')' after condition.") {
            Result::Ok(_) => {},
            Result::Err(m) => {
                return Result::Err(m);
            },
        }
        let body = match self.statement() {
            Result::Ok(s) => s,
            Result::Err(m) => {
                return Result::Err(m);
            },
        };
        Result::Ok(Stmt::WhileStmt { condition, body: Box::new(body) })
    }

    fn if_statement(&mut self) -> (r: Result<Stmt, String>)
        requires
            old(self).wf(),
        ensures
            final(self).wf(),
            final(self).tokens == old(self).tokens,
            final(self).current >= old(self).current,
            r matches Result::Ok(st) ==> st matches Stmt::IfStmt { .. },
            r matches Result::Ok(st) ==> wf_parsed_stmt(st),
            final(self).next_id >= old(self).next_id,
        decreases self.tokens@.len() - self.current, 36int,
    {
        match self.consume(TokenType::LeftParen, "Expected '(' after 'if'") {
            Result::Ok(_) => {},
            Result::Err(m) => {
                return Result::Err(m);
            },
        }
        let predicate = match self.expression() {
            Result::Ok(e) => e,
            Result::Err(m) => {
                return Result::Err(m);
            },
        };
        match self.consume(TokenType::RightParen, "Expected ')' after if-predicate") {
            Result::Ok(_) => {},
            Result::Err(m) => {
                return Result::Err(m);
            },
        }
        let then_branch = match self.statement() {
            Result::Ok(s) => s,
            Result::Err(m) => {
                return Result::Err(m);
            },
        };
        let els = if self.match_token(TokenType::Else) {
            match self.statement() {
                Result::Ok(s) => Option::Some(Box::new(s)),
                Result::Err(m) => {
                    return Result::Err(m);
                },
            }
        } else {
            Option::None
        };
        Result::Ok(Stmt::IfStmt { predicate, then_branch: Box::new(then_branch), els })
    }

    fn block_statement(&mut self) -> (r: Result<Stmt, String>)
        requires
            old(self).wf(),
        ensures
            final(self).wf(),
            final(self).tokens == old(self).tokens,
            final(self).current >= old(self).current,
            r matches Result::Ok(st) ==> st matches Stmt::Block { .. },
            r matches Result::Ok(st) ==> wf_parsed_stmt(st),
            final(self).next_id >= old(self).next_id,
        decreases self.tokens@.len() - self.current, 52int,
    {
        match self.block_body() {
            Result::Ok(statements) => Result::Ok(Stmt::Block { statements }),
            Result::Err(m) => Result::Err(m),
        }
    }

    fn print_statement(&mut self) -> (r: Result<Stmt, String>)
        requires
            old(self).wf(),
        ensures
            final(self).wf(),
            final(self).tokens == old(self).tokens,
            final(self).current >= old(self).current,
            r matches Result::Ok(st) ==> st matches Stmt::Print { .. },
            r matches Result::Ok(st) ==> wf_parsed_stmt(st),
            final(self).next_id >= old(self).next_id,
        decreases self.tokens@.len() - self.current, 36int,
    {
        let value = match self.expression() {
            Result::Ok(e) => e,
            Result::Err(m) => {
                return Result::Err(m);
            },
        };
        match self.consume(TokenType::Semicolon, "Expected ';' after value.") {
            Result::Ok(_) => Result::Ok(Stmt::Print { expression: value }),
            Result::Err(m) => Result::Err(m),
        }
    }

    fn expression_statement(&mut self) -> (r: Result<Stmt, String>)
        requires
            old(self).wf(),
        ensures
            final(self).wf(),
            final(self).tokens == old(self).tokens,
            final(self).current >= old(self).current,
            r is Ok ==> final(self).current > old(self).current,
            r matches Result::Ok(st) ==> st matches Stmt::Expression { .. },
            r matches Result::Ok(st) ==> wf_parsed_stmt(st),
            final(self).next_id >= old(self).next_id,
        decreases self.tokens@.len() - self.current, 36int,
    {
        let expr = match self.expression() {
            Result::Ok(e) => e,
            Result::Err(m) => {
                return Result::Err(m);
            },
        };
        match self.consume(TokenType::Semicolon, "Expected ';' after expression.") {
            Result::Ok(_) => Result::Ok(Stmt::Expression { expression: expr }),
            Result::Err(m) => Result::Err(m),
        }
    }

    /// Parses the whole token sequence into statements. On malformed
    /// constructs it synchronizes to the next statement boundary and
    /// goes on, so every parse error found is reported together, one
    /// per line.
    pub fn parse(&mut self) -> (r: Result<Vec<Stmt>, String>)
        requires
            old(self).wf(),
        ensures
            final(self).wf(),
            final(self).tokens == old(self).tokens,
            final(self).current >= old(self).current,
            r is Ok ==> final(self).tokens@[final(self).current as int].token_type
                == TokenType::Eof,
            r matches Result::Ok(st) ==> wf_parsed_stmts(st@),
            old(self).tokens@[old(self).current as int].token_type == TokenType::Eof ==> (
            r matches Result::Ok(st) && st@.len() == 0),
            final(self).next_id >= old(self).next_id,
    {
        let mut stmts: Vec<Stmt> = Vec::new();
        let mut errs: Vec<String> = Vec::new();
        let mut stuck = false;
        while !(stuck || self.is_at_end())
            invariant
                self.wf(),
                self.tokens == old(self).tokens,
                self.current >= old(self).current,
                self.next_id >= old(self).next_id,
                wf_parsed_stmts(stmts@),
                stuck ==> errs@.len() > 0,
                old(self).tokens@[old(self).current as int].token_type == TokenType::Eof ==> (
                self.current == old(self).current && stmts@.len() == 0 && errs@.len() == 0),
            decreases self.tokens@.len() - self.current, (if stuck {
                0int
            } else {
                1int
            }),
        {
            let d = self.declaration();
            match d {
                Result::Ok(s) => {
                    stmts.push(s);
                },
                Result::Err(msg) => {
                    errs.push(msg);
                    if self.is_at_end() {
                        stuck = true;
                    } else {
                        self.synchronize();
                    }
                },
            }
        }
        if errs.len() == 0 {
            Result::Ok(stmts)
        } else {
            let mut joined = String::new();
            let mut i: usize = 0;
            while i < errs.len()
                invariant
                    i <= errs@.len(),
                decreases errs@.len() - i,
            {
                if i > 0 {
                    joined.append("\n");
                }
                joined.append(errs[i].as_str());
                i = i + 1;
            }
            Result::Err(joined)
        }
    }
}


} // verus!
