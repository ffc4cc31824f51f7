//! Statement nodes of the abstract syntax tree.

use crate::expr::{expr_str, Expr};
use crate::scanner::Token;
use std::rc::Rc;
use vstd::prelude::*;

verus! {

/// A statement node. `Function` bodies and parameter lists are shared
/// (`Rc`) because closure values capture them while the tree itself
/// stays in place.
#[derive(Debug)]
#[allow(inconsistent_fields)]
pub enum Stmt {
    Expression { expression: Expr },
    Print { expression: Expr },
    Var { name: Token, initializer: Expr },
    Block { statements: Vec<Stmt> },
    IfStmt { predicate: Expr, then_branch: Box<Stmt>, els: Option<Box<Stmt>> },
    WhileStmt { condition: Expr, body: Box<Stmt> },
    Function { name: Token, params: Rc<Vec<Token>>, body: Rc<Vec<Stmt>> },
    ReturnStmt { keyword: Token, value: Option<Expr> },
}

/// The display form of a statement.
pub open spec fn stmt_str(s: Stmt) -> Seq<char>
    decreases s, 0int,
{
    match s {
        Stmt::Expression { expression } => expr_str(expression),
        Stmt::Print { expression } => "(print "@ + expr_str(expression) + ")"@,
        Stmt::Var { name, initializer } => "(var "@ + name.lexeme@ + ")"@,
        Stmt::Block { statements } => "(block "@ + stmts_str_from(statements@, 0) + ")"@,
        Stmt::IfStmt { predicate, then_branch, els } => "(if "@ + expr_str(predicate) + ")"@,
        Stmt::WhileStmt { condition, body } => "(while "@ + expr_str(condition) + ")"@,
        Stmt::Function { name, params, body } => "(fun "@ + name.lexeme@ + ")"@,
        Stmt::ReturnStmt { keyword, value } => match value {
            Option::Some(e) => "(return "@ + expr_str(e) + ")"@,
            Option::None => "(return)"@,
        },
    }
}

/// The concatenated display forms of the statements of `ss` from index
/// `i` on.
pub open spec fn stmts_str_from(ss: Seq<Stmt>, i: int) -> Seq<char>
    decreases ss, ss.len() - i,
{
    if i < 0 || i >= ss.len() {
        Seq::<char>::empty()
    } else {
        stmt_str(ss[i]) + stmts_str_from(ss, i + 1)
    }
}

fn stmts_to_string_from(ss: &Vec<Stmt>, i: usize) -> (r: String)
    ensures
        r@ == stmts_str_from(ss@, i as int),
    decreases ss@, ss@.len() - i,
{
    if i >= ss.len() {
        let r = String::new();
        proof {
            assert(r@ =~= stmts_str_from(ss@, i as int));
        }
        r
    } else {
        let mut r = ss[i].to_string();
        let rest = stmts_to_string_from(ss, i + 1);
        r.append(rest.as_str());
        proof {
            assert(r@ =~= stmts_str_from(ss@, i as int));
        }
        r
    }
}

impl Stmt {
    /// The display form of this statement.
    pub fn to_string(&self) -> (r: String)
        ensures
            r@ == stmt_str(*self),
        decreases *self, 0int,
    {
        match self {
            Stmt::Expression { expression } => expression.to_string(),
            Stmt::Print { expression } => {
                let mut r = "(print ".to_owned();
                r.append(expression.to_string().as_str());
                r.append(")");
                proof {
                    assert(r@ =~= stmt_str(*self));
                }
                r
            },
            Stmt::Var { name, initializer } => {
                let mut r = "(var ".to_owned();
                r.append(name.lexeme.as_str());
                r.append(")");
                proof {
                    assert(r@ =~= stmt_str(*self));
                }
                r
            },
            Stmt::Block { statements } => {
                let mut r = "(block ".to_owned();
                r.append(stmts_to_string_from(statements, 0).as_str());
                r.append(")");
                proof {
                    assert(r@ =~= stmt_str(*self));
                }
                r
            },
            Stmt::IfStmt { predicate, then_branch, els } => {
                let mut r = "(if ".to_owned();
                r.append(predicate.to_string().as_str());
                r.append(")");
                proof {
                    assert(r@ =~= stmt_str(*self));
                }
                r
            },
            Stmt::WhileStmt { condition, body } => {
                let mut r = "(while ".to_owned();
                r.append(condition.to_string().as_str());
                r.append(")");
                proof {
                    assert(r@ =~= stmt_str(*self));
                }
                r
            },
            Stmt::Function { name, params, body } => {
                let mut r = "(fun ".to_owned();
                r.append(name.lexeme.as_str());
                r.append(")");
                proof {
                    assert(r@ =~= stmt_str(*self));
                }
                r
            },
            Stmt::ReturnStmt { keyword, value } => match value {
                Option::Some(e) => {
                    let mut r = "(return ".to_owned();
                    r.append(e.to_string().as_str());
                    r.append(")");
                    proof {
                        assert(r@ =~= stmt_str(*self));
                    }
                    r
                },
                Option::None => {
                    let r = "(return)".to_owned();
                    r
                },
            },
        }
    }
}

} // verus!
