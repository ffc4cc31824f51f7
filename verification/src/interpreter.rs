//! The tree-walking interpreter.
//!
//! The meaning of every construct is pinned down first by a family of
//! spec functions — a fuel-indexed big-step semantics over the
//! mathematical state [`StateM`] — and the executable interpreter is
//! proved to compute exactly that semantics: same resulting state
//! (frames, output, clock), same value or error.
//!
//! Control flow out of statements is an explicit signal: executing a
//! statement ends in `Normal`, `Return(value)` or an error, and every
//! statement list stops at the first non-`Normal` outcome, so a
//! `return` anywhere in a call tree unwinds exactly to its call
//! boundary. Fuel bounds the depth of calls and the number of loop
//! iterations; running out of it is the fatal resource-exhaustion
//! condition, not a user-facing error.

use crate::environment::{
    addr_spec, clock_callable, get_spec, Environment, FrameM, LookupM, LookupResult,
};
use crate::expr::{
    lex_lt, str_lt, truthy, type_str, val_eq, val_str, Expr, FunKind, FunM, LiteralValue, ValueM,
};
use crate::numfmt::{dec_u64, usize_to_string};
use crate::scanner::{token_type_name, Token, TokenType};
use crate::stmt::Stmt;
use std::rc::Rc;
use vstd::prelude::*;

verus! {

/// The mathematical model of a runtime error.
pub enum ErrM {
    /// A variable was read that is bound nowhere along the addressed
    /// chain.
    UndeclaredRead(Seq<char>),
    /// A variable was assigned that is not bound in the addressed
    /// frame.
    UndeclaredAssign(Seq<char>),
    /// A value that is not a callable stood in call position; carries
    /// the value's type name.
    NotCallable(Seq<char>),
    /// A call handed a callable the wrong number of arguments.
    Arity { name: Seq<char>, expected: nat, actual: nat },
    /// Unary minus on a value that is not a number; carries the type
    /// name.
    UnaryMinus(Seq<char>),
    /// A token that is no unary operator stood in unary position.
    InvalidUnary(TokenType),
    /// A binary operator applied to a string and a number.
    StringNumberOp(TokenType),
    /// A binary operator applied to operands it is not defined for;
    /// carries the display forms of both operands.
    InvalidOperands { op: TokenType, left: Seq<char>, right: Seq<char> },
    /// A callable stood in a boolean context; callables have no truth
    /// value.
    Truthiness,
    /// A token that is neither `and` nor `or` stood in logical
    /// position.
    InvalidLogical(TokenType),
    /// Division by zero.
    DivisionByZero,
    /// A resolved distance walked past the root frame: a
    /// resolver/interpreter desynchronization, not invalid user input.
    Internal,
    /// The evaluation budget ran out: the fatal resource-exhaustion
    /// condition of unbounded recursion or looping.
    Exhausted,
}

/// A runtime error, with everything its report names.
#[derive(Debug)]
pub enum RuntimeError {
    UndeclaredRead { name: String },
    UndeclaredAssign { name: String },
    NotCallable { type_of: String },
    Arity { name: String, expected: usize, actual: usize },
    UnaryMinus { type_of: String },
    InvalidUnary { op: TokenType },
    StringNumberOp { op: TokenType },
    InvalidOperands { op: TokenType, left: String, right: String },
    Truthiness,
    InvalidLogical { op: TokenType },
    DivisionByZero,
    Internal,
    Exhausted,
}

impl View for RuntimeError {
    type V = ErrM;

    open spec fn view(&self) -> ErrM {
        match self {
            RuntimeError::UndeclaredRead { name } => ErrM::UndeclaredRead(name@),
            RuntimeError::UndeclaredAssign { name } => ErrM::UndeclaredAssign(name@),
            RuntimeError::NotCallable { type_of } => ErrM::NotCallable(type_of@),
            RuntimeError::Arity { name, expected, actual } => ErrM::Arity {
                name: name@,
                expected: *expected as nat,
                actual: *actual as nat,
            },
            RuntimeError::UnaryMinus { type_of } => ErrM::UnaryMinus(type_of@),
            RuntimeError::InvalidUnary { op } => ErrM::InvalidUnary(*op),
            RuntimeError::StringNumberOp { op } => ErrM::StringNumberOp(*op),
            RuntimeError::InvalidOperands { op, left, right } => ErrM::InvalidOperands {
                op: *op,
                left: left@,
                right: right@,
            },
            RuntimeError::Truthiness => ErrM::Truthiness,
            RuntimeError::InvalidLogical { op } => ErrM::InvalidLogical(*op),
            RuntimeError::DivisionByZero => ErrM::DivisionByZero,
            RuntimeError::Internal => ErrM::Internal,
            RuntimeError::Exhausted => ErrM::Exhausted,
        }
    }
}

/// The human-readable report of an error.
pub open spec fn err_str(e: ErrM) -> Seq<char> {
    match e {
        ErrM::UndeclaredRead(name) => "Variable '"@ + name + "' has not been declared"@,
        ErrM::UndeclaredAssign(name) => "Variable "@ + name + " has not been declared"@,
        ErrM::NotCallable(t) => t + " is not callable"@,
        ErrM::Arity { name, expected, actual } => "Callable "@ + name + " expected "@ + dec_u64(
            expected,
        ) + " arguments but got "@ + dec_u64(actual),
        ErrM::UnaryMinus(t) => "Minus not implemented for "@ + t,
        ErrM::InvalidUnary(op) => token_type_name(op) + " is not a valid unary operator"@,
        ErrM::StringNumberOp(op) => token_type_name(op) + " is not defined for string and number"@,
        ErrM::InvalidOperands { op, left, right } => token_type_name(op)
            + " is not implemented for operands "@ + left + " and "@ + right,
        ErrM::Truthiness => "Cannot use Callable as a truthy value"@,
        ErrM::InvalidLogical(op) => "Invalid token in logical expression: "@ + token_type_name(op),
        ErrM::DivisionByZero => "Division by zero"@,
        ErrM::Internal => "Internal error: resolved distance exceeds environment depth"@,
        ErrM::Exhausted => "Evaluation budget exhausted"@,
    }
}

impl RuntimeError {
    /// Renders the human-readable report of this error.
    pub fn message(&self) -> (r: String)
        ensures
            r@ == err_str(self@),
    {
        match self {
            RuntimeError::UndeclaredRead { name } => {
                let mut r = "Variable '".to_owned();
                r.append(name.as_str());
                r.append("' has not been declared");
                proof {
                    assert(r@ =~= err_str(self@));
                }
                r
            },
            RuntimeError::UndeclaredAssign { name } => {
                let mut r = "Variable ".to_owned();
                r.append(name.as_str());
                r.append(" has not been declared");
                proof {
                    assert(r@ =~= err_str(self@));
                }
                r
            },
            RuntimeError::NotCallable { type_of } => {
                let mut r = type_of.clone();
                r.append(" is not callable");
                proof {
                    assert(r@ =~= err_str(self@));
                }
                r
            },
            RuntimeError::Arity { name, expected, actual } => {
                let mut r = "Callable ".to_owned();
                r.append(name.as_str());
                r.append(" expected ");
                r.append(usize_to_string(*expected).as_str());
                r.append(" arguments but got ");
                r.append(usize_to_string(*actual).as_str());
                proof {
                    assert(r@ =~= err_str(self@));
                }
                r
            },
            RuntimeError::UnaryMinus { type_of } => {
                let mut r = "Minus not implemented for ".to_owned();
                r.append(type_of.as_str());
                proof {
                    assert(r@ =~= err_str(self@));
                }
                r
            },
            RuntimeError::InvalidUnary { op } => {
                let mut r = op.name().to_owned();
                r.append(" is not a valid unary operator");
                proof {
                    assert(r@ =~= err_str(self@));
                }
                r
            },
            RuntimeError::StringNumberOp { op } => {
                let mut r = op.name().to_owned();
                r.append(" is not defined for string and number");
                proof {
                    assert(r@ =~= err_str(self@));
                }
                r
            },
            RuntimeError::InvalidOperands { op, left, right } => {
                let mut r = op.name().to_owned();
                r.append(" is not implemented for operands ");
                r.append(left.as_str());
                r.append(" and ");
                r.append(right.as_str());
                proof {
                    assert(r@ =~= err_str(self@));
                }
                r
            },
            RuntimeError::Truthiness => "Cannot use Callable as a truthy value".to_owned(),
            RuntimeError::InvalidLogical { op } => {
                let mut r = "Invalid token in logical expression: ".to_owned();
                r.append(op.name());
                proof {
                    assert(r@ =~= err_str(self@));
                }
                r
            },
            RuntimeError::DivisionByZero => "Division by zero".to_owned(),
            RuntimeError::Internal => {
                "Internal error: resolved distance exceeds environment depth".to_owned()
            },
            RuntimeError::Exhausted => "Evaluation budget exhausted".to_owned(),
        }
    }
}

/// The control-flow signal a statement execution ends in: fall through
/// to the next statement, or unwind with a `return` value.
#[derive(Debug)]
pub enum Signal {
    Normal,
    Return(LiteralValue),
}

/// The mathematical state the semantics runs over: the frame arena,
/// the lines printed so far, and the reading the built-in clock hands
/// out.
#[verifier::ext_equal]
pub struct StateM {
    pub frames: Seq<FrameM>,
    pub output: Seq<Seq<char>>,
    pub clock: i64,
}

/// The outcome of evaluating an expression.
pub enum EvalM {
    Val(ValueM),
    Fail(ErrM),
}

/// The outcome of executing a statement.
pub enum StepM {
    Norm,
    Ret(ValueM),
    Fail(ErrM),
}

/// The boolean runtime value standing for `b`.
pub open spec fn bool_val(b: bool) -> ValueM {
    if b {
        ValueM::True
    } else {
        ValueM::False
    }
}

/// Arithmetic wraps around two's complement, matching the machine.
pub open spec fn num_add(x: i64, y: i64) -> i64 {
    vstd::wrapping::i64_specs::wrapping_add(x, y)
}

/// See [`num_add`].
pub open spec fn num_sub(x: i64, y: i64) -> i64 {
    vstd::wrapping::i64_specs::wrapping_sub(x, y)
}

/// See [`num_add`].
pub open spec fn num_mul(x: i64, y: i64) -> i64 {
    vstd::wrapping::i64_specs::wrapping_mul(x, y)
}

/// Truncating division, wrapping on the one overflowing case.
pub open spec fn num_div(x: i64, y: i64) -> i64 {
    match x.checked_div(y) {
        Option::Some(q) => q,
        Option::None => i64::MIN,
    }
}

/// Wrapping negation.
pub open spec fn num_neg(x: i64) -> i64 {
    vstd::wrapping::i64_specs::wrapping_sub(0, x)
}

/// What a binary operator yields on two evaluated operands. Equality
/// and inequality are defined for every pair of values — values of
/// different shapes are simply unequal. Arithmetic and ordering ask
/// for two numbers or, where the table says so, two strings; a string
/// and a number never mix, and every other pairing is an invalid
/// operand combination.
pub open spec fn bin_op_spec(op: TokenType, a: ValueM, b: ValueM) -> EvalM {
    match op {
        TokenType::EqualEqual => EvalM::Val(bool_val(val_eq(a, b))),
        TokenType::BangEqual => EvalM::Val(bool_val(!val_eq(a, b))),
        _ => match (a, b) {
            (ValueM::Num(x), ValueM::Num(y)) => match op {
                TokenType::Plus => EvalM::Val(ValueM::Num(num_add(x, y))),
                TokenType::Minus => EvalM::Val(ValueM::Num(num_sub(x, y))),
                TokenType::Star => EvalM::Val(ValueM::Num(num_mul(x, y))),
                TokenType::Slash => if y == 0 {
                    EvalM::Fail(ErrM::DivisionByZero)
                } else {
                    EvalM::Val(ValueM::Num(num_div(x, y)))
                },
                TokenType::Greater => EvalM::Val(bool_val(x > y)),
                TokenType::GreaterEqual => EvalM::Val(bool_val(x >= y)),
                TokenType::Less => EvalM::Val(bool_val(x < y)),
                TokenType::LessEqual => EvalM::Val(bool_val(x <= y)),
                _ => EvalM::Fail(
                    ErrM::InvalidOperands { op, left: val_str(a), right: val_str(b) },
                ),
            },
            (ValueM::Str(s1), ValueM::Str(s2)) => match op {
                TokenType::Plus => EvalM::Val(ValueM::Str(s1 + s2)),
                TokenType::Greater => EvalM::Val(bool_val(lex_lt(s2, s1))),
                TokenType::GreaterEqual => EvalM::Val(bool_val(!lex_lt(s1, s2))),
                TokenType::Less => EvalM::Val(bool_val(lex_lt(s1, s2))),
                TokenType::LessEqual => EvalM::Val(bool_val(!lex_lt(s2, s1))),
                _ => EvalM::Fail(
                    ErrM::InvalidOperands { op, left: val_str(a), right: val_str(b) },
                ),
            },
            (ValueM::Str(_), ValueM::Num(_)) => EvalM::Fail(ErrM::StringNumberOp(op)),
            (ValueM::Num(_), ValueM::Str(_)) => EvalM::Fail(ErrM::StringNumberOp(op)),
            _ => EvalM::Fail(ErrM::InvalidOperands { op, left: val_str(a), right: val_str(b) }),
        },
    }
}

/// What a unary operator yields on its evaluated operand.
pub open spec fn un_op_spec(op: TokenType, v: ValueM) -> EvalM {
    match op {
        TokenType::Minus => match v {
            ValueM::Num(x) => EvalM::Val(ValueM::Num(num_neg(x))),
            _ => EvalM::Fail(ErrM::UnaryMinus(type_str(v))),
        },
        TokenType::Bang => match truthy(v) {
            Option::Some(b) => EvalM::Val(bool_val(!b)),
            Option::None => EvalM::Fail(ErrM::Truthiness),
        },
        _ => EvalM::Fail(ErrM::InvalidUnary(op)),
    }
}

/// The distance the resolver recorded for expression id `id`, if any.
pub open spec fn dist_of(tbl: Map<usize, usize>, id: usize) -> Option<usize> {
    if tbl.contains_key(id) {
        Option::Some(tbl[id])
    } else {
        Option::None
    }
}

/// What reading variable `key` from frame `env` yields, under the
/// distance recorded for id `id`.
pub open spec fn read_var_spec(
    st: StateM,
    tbl: Map<usize, usize>,
    env: int,
    id: usize,
    key: Seq<char>,
) -> EvalM {
    match get_spec(st.frames, env, key, dist_of(tbl, id)) {
        LookupM::Found(v) => EvalM::Val(v),
        LookupM::Missing => EvalM::Fail(ErrM::UndeclaredRead(key)),
        LookupM::BadDistance => EvalM::Fail(ErrM::Internal),
    }
}

/// The parameter bindings of a fresh call frame: each parameter name
/// bound to its argument value, in order.
pub open spec fn bind_params(params: Seq<Token>, args: Seq<ValueM>) -> Map<Seq<char>, ValueM>
    decreases params.len(),
{
    if params.len() == 0 || params.len() != args.len() {
        Map::empty()
    } else {
        bind_params(params.drop_last(), args.drop_last()).insert(
            params.last().lexeme@,
            args.last(),
        )
    }
}

/// Evaluates an expression: the value it yields and the state it
/// leaves behind.
pub open spec fn eval_expr_spec(
    e: Expr,
    env: int,
    st: StateM,
    tbl: Map<usize, usize>,
    fuel: nat,
) -> (StateM, EvalM)
    decreases fuel, e, 0int,
{
    match e {
        Expr::Literal { id, value } => (st, EvalM::Val(value@)),
        Expr::Grouping { id, expression } => eval_expr_spec(*expression, env, st, tbl, fuel),
        Expr::Unary { id, operator, right } => {
            let (st1, r) = eval_expr_spec(*right, env, st, tbl, fuel);
            match r {
                EvalM::Fail(er) => (st1, EvalM::Fail(er)),
                EvalM::Val(v) => (st1, un_op_spec(operator.token_type, v)),
            }
        },
        Expr::Binary { id, left, operator, right } => {
            let (st1, r1) = eval_expr_spec(*left, env, st, tbl, fuel);
            match r1 {
                EvalM::Fail(er) => (st1, EvalM::Fail(er)),
                EvalM::Val(a) => {
                    let (st2, r2) = eval_expr_spec(*right, env, st1, tbl, fuel);
                    match r2 {
                        EvalM::Fail(er) => (st2, EvalM::Fail(er)),
                        EvalM::Val(b) => (st2, bin_op_spec(operator.token_type, a, b)),
                    }
                },
            }
        },
        Expr::Logical { id, left, operator, right } => {
            match operator.token_type {
                TokenType::Or => {
                    let (st1, r1) = eval_expr_spec(*left, env, st, tbl, fuel);
                    match r1 {
                        EvalM::Fail(er) => (st1, EvalM::Fail(er)),
                        EvalM::Val(v) => match truthy(v) {
                            Option::None => (st1, EvalM::Fail(ErrM::Truthiness)),
                            Option::Some(true) => (st1, EvalM::Val(v)),
                            Option::Some(false) => eval_expr_spec(*right, env, st1, tbl, fuel),
                        },
                    }
                },
                TokenType::And => {
                    let (st1, r1) = eval_expr_spec(*left, env, st, tbl, fuel);
                    match r1 {
                        EvalM::Fail(er) => (st1, EvalM::Fail(er)),
                        EvalM::Val(v) => match truthy(v) {
                            Option::None => (st1, EvalM::Fail(ErrM::Truthiness)),
                            Option::Some(false) => (st1, EvalM::Val(v)),
                            Option::Some(true) => eval_expr_spec(*right, env, st1, tbl, fuel),
                        },
                    }
                },
                _ => (st, EvalM::Fail(ErrM::InvalidLogical(operator.token_type))),
            }
        },
        Expr::Variable { id, name } => (st, read_var_spec(st, tbl, env, id, name.lexeme@)),
        Expr::Assign { id, name, value } => {
            let (st1, r1) = eval_expr_spec(*value, env, st, tbl, fuel);
            match r1 {
                EvalM::Fail(er) => (st1, EvalM::Fail(er)),
                EvalM::Val(v) => {
                    match addr_spec(st1.frames, env, dist_of(tbl, id)) {
                        Option::None => (st1, EvalM::Fail(ErrM::Internal)),
                        Option::Some(f) => {
                            let existed = st1.frames[f].bindings.contains_key(name.lexeme@);
                            let st2 = StateM {
                                frames: st1.frames.update(
                                    f,
                                    FrameM {
                                        parent: st1.frames[f].parent,
                                        bindings: st1.frames[f].bindings.insert(name.lexeme@, v),
                                    },
                                ),
                                ..st1
                            };
                            if existed {
                                (st2, EvalM::Val(v))
                            } else {
                                (st2, EvalM::Fail(ErrM::UndeclaredAssign(name.lexeme@)))
                            }
                        },
                    }
                },
            }
        },
        Expr::AnonFunction { id, paren, arguments, body } => {
            (
                st,
                EvalM::Val(
                    ValueM::Callable {
                        name: "anon_function"@,
                        arity: arguments@.len(),
                        fun: FunM::Declared { params: arguments@, body: body@, closure: env },
                    },
                ),
            )
        },
        Expr::Call { id, callee, paren, arguments } => {
            let (st1, r1) = eval_callee_spec(id, *callee, env, st, tbl, fuel);
            match r1 {
                EvalM::Fail(er) => (st1, EvalM::Fail(er)),
                EvalM::Val(v) => match v {
                    ValueM::Callable { name, arity, fun } => {
                        if arguments@.len() != arity {
                            (
                                st1,
                                EvalM::Fail(
                                    ErrM::Arity { name, expected: arity, actual: arguments@.len() },
                                ),
                            )
                        } else {
                            let (st2, r2) = eval_args_spec(arguments@, 0, env, st1, tbl, fuel);
                            match r2 {
                                Result::Err(er) => (st2, EvalM::Fail(er)),
                                Result::Ok(vals) => match fun {
                                    FunM::Clock => (st2, EvalM::Val(ValueM::Num(st2.clock))),
                                    FunM::Declared { params, body, closure } => {
                                        if fuel == 0 {
                                            (st2, EvalM::Fail(ErrM::Exhausted))
                                        } else if !(0 <= closure < st2.frames.len()) {
                                            (st2, EvalM::Fail(ErrM::Internal))
                                        } else {
                                            let newf = st2.frames.len() as int;
                                            let st3 = StateM {
                                                frames: st2.frames.push(
                                                    FrameM {
                                                        parent: Option::Some(closure),
                                                        bindings: bind_params(params, vals),
                                                    },
                                                ),
                                                ..st2
                                            };
                                            let (st4, sig) = eval_stmts_spec(
                                                body,
                                                0,
                                                newf,
                                                st3,
                                                tbl,
                                                (fuel - 1) as nat,
                                            );
                                            match sig {
                                                StepM::Fail(er) => (st4, EvalM::Fail(er)),
                                                StepM::Ret(v) => (st4, EvalM::Val(v)),
                                                StepM::Norm => (st4, EvalM::Val(ValueM::Nil)),
                                            }
                                        }
                                    },
                                },
                            }
                        }
                    },
                    _ => (st1, EvalM::Fail(ErrM::NotCallable(type_str(v)))),
                },
            }
        },
    }
}

/// Evaluates the callee of a call. A callee that is a bare variable is
/// looked up under the distance the resolver recorded against the call
/// expression's own id; any other callee is an ordinary expression.
pub open spec fn eval_callee_spec(
    id: usize,
    callee: Expr,
    env: int,
    st: StateM,
    tbl: Map<usize, usize>,
    fuel: nat,
) -> (StateM, EvalM)
    decreases fuel, callee, 1int,
{
    match callee {
        Expr::Variable { id: _, name } => (st, read_var_spec(st, tbl, env, id, name.lexeme@)),
        _ => eval_expr_spec(callee, env, st, tbl, fuel),
    }
}

/// Evaluates the arguments of a call left to right, from index `i` on,
/// stopping at the first error.
pub open spec fn eval_args_spec(
    args: Seq<Expr>,
    i: int,
    env: int,
    st: StateM,
    tbl: Map<usize, usize>,
    fuel: nat,
) -> (StateM, Result<Seq<ValueM>, ErrM>)
    decreases fuel, args, args.len() - i,
{
    if i < 0 || i >= args.len() {
        (st, Result::Ok(Seq::empty()))
    } else {
        let (st1, r1) = eval_expr_spec(args[i], env, st, tbl, fuel);
        match r1 {
            EvalM::Fail(er) => (st1, Result::Err(er)),
            EvalM::Val(v) => {
                let (st2, r2) = eval_args_spec(args, i + 1, env, st1, tbl, fuel);
                match r2 {
                    Result::Err(er) => (st2, Result::Err(er)),
                    Result::Ok(rest) => (st2, Result::Ok(seq![v] + rest)),
                }
            },
        }
    }
}

/// Executes the statements of `ss` from index `i` on, in order,
/// stopping at the first signal that is not plain fall-through.
pub open spec fn eval_stmts_spec(
    ss: Seq<Stmt>,
    i: int,
    env: int,
    st: StateM,
    tbl: Map<usize, usize>,
    fuel: nat,
) -> (StateM, StepM)
    decreases fuel, ss, ss.len() - i,
{
    if i < 0 || i >= ss.len() {
        (st, StepM::Norm)
    } else {
        let (st1, sig) = eval_stmt_spec(ss[i], env, st, tbl, fuel);
        match sig {
            StepM::Norm => eval_stmts_spec(ss, i + 1, env, st1, tbl, fuel),
            _ => (st1, sig),
        }
    }
}

/// Executes one statement.
pub open spec fn eval_stmt_spec(
    s: Stmt,
    env: int,
    st: StateM,
    tbl: Map<usize, usize>,
    fuel: nat,
) -> (StateM, StepM)
    decreases fuel, s, 1int,
{
    match s {
        Stmt::Expression { expression } => {
            let (st1, r) = eval_expr_spec(expression, env, st, tbl, fuel);
            match r {
                EvalM::Fail(er) => (st1, StepM::Fail(er)),
                EvalM::Val(_) => (st1, StepM::Norm),
            }
        },
        Stmt::Print { expression } => {
            let (st1, r) = eval_expr_spec(expression, env, st, tbl, fuel);
            match r {
                EvalM::Fail(er) => (st1, StepM::Fail(er)),
                EvalM::Val(v) => (
                    StateM { output: st1.output.push(val_str(v)), ..st1 },
                    StepM::Norm,
                ),
            }
        },
        Stmt::Var { name, initializer } => {
            let (st1, r) = eval_expr_spec(initializer, env, st, tbl, fuel);
            match r {
                EvalM::Fail(er) => (st1, StepM::Fail(er)),
                EvalM::Val(v) => (
                    StateM {
                        frames: st1.frames.update(
                            env,
                            FrameM {
                                parent: st1.frames[env].parent,
                                bindings: st1.frames[env].bindings.insert(name.lexeme@, v),
                            },
                        ),
                        ..st1
                    },
                    StepM::Norm,
                ),
            }
        },
        Stmt::Block { statements } => {
            let newf = st.frames.len() as int;
            let st1 = StateM {
                frames: st.frames.push(
                    FrameM { parent: Option::Some(env), bindings: Map::empty() },
                ),
                ..st
            };
            eval_stmts_spec(statements@, 0, newf, st1, tbl, fuel)
        },
        Stmt::IfStmt { predicate, then_branch, els } => {
            let (st1, r) = eval_expr_spec(predicate, env, st, tbl, fuel);
            match r {
                EvalM::Fail(er) => (st1, StepM::Fail(er)),
                EvalM::Val(v) => match truthy(v) {
                    Option::None => (st1, StepM::Fail(ErrM::Truthiness)),
                    Option::Some(true) => eval_stmt_spec(*then_branch, env, st1, tbl, fuel),
                    Option::Some(false) => match els {
                        Option::Some(e) => eval_stmt_spec(*e, env, st1, tbl, fuel),
                        Option::None => (st1, StepM::Norm),
                    },
                },
            }
        },
        Stmt::WhileStmt { condition, body } => eval_while_spec(s, env, st, tbl, fuel),
        Stmt::Function { name, params, body } => {
            let v = ValueM::Callable {
                name: name.lexeme@,
                arity: params@.len(),
                fun: FunM::Declared { params: params@, body: body@, closure: env },
            };
            (
                StateM {
                    frames: st.frames.update(
                        env,
                        FrameM {
                            parent: st.frames[env].parent,
                            bindings: st.frames[env].bindings.insert(name.lexeme@, v),
                        },
                    ),
                    ..st
                },
                StepM::Norm,
            )
        },
        Stmt::ReturnStmt { keyword, value } => match value {
            Option::None => (st, StepM::Ret(ValueM::Nil)),
            Option::Some(e) => {
                let (st1, r) = eval_expr_spec(e, env, st, tbl, fuel);
                match r {
                    EvalM::Fail(er) => (st1, StepM::Fail(er)),
                    EvalM::Val(v) => (st1, StepM::Ret(v)),
                }
            },
        },
    }
}

/// Runs one `while` statement: evaluates the condition, and while it
/// is truthy runs the body, stopping at once on a return signal or an
/// error. Each iteration burns one unit of fuel.
pub open spec fn eval_while_spec(
    s: Stmt,
    env: int,
    st: StateM,
    tbl: Map<usize, usize>,
    fuel: nat,
) -> (StateM, StepM)
    decreases fuel, s, 0int,
{
    match s {
        Stmt::WhileStmt { condition, body } => {
            let (st1, r) = eval_expr_spec(condition, env, st, tbl, fuel);
            match r {
                EvalM::Fail(er) => (st1, StepM::Fail(er)),
                EvalM::Val(v) => match truthy(v) {
                    Option::None => (st1, StepM::Fail(ErrM::Truthiness)),
                    Option::Some(false) => (st1, StepM::Norm),
                    Option::Some(true) => {
                        let (st2, sig) = eval_stmt_spec(*body, env, st1, tbl, fuel);
                        match sig {
                            StepM::Norm => if fuel == 0 {
                                (st2, StepM::Fail(ErrM::Exhausted))
                            } else {
                                eval_while_spec(s, env, st2, tbl, (fuel - 1) as nat)
                            },
                            _ => (st2, sig),
                        }
                    },
                },
            }
        },
        _ => (st, StepM::Norm),
    }
}


/// Whether an expression result and its model agree: same success or
/// failure, same value or error.
pub open spec fn eval_matches(r: Result<LiteralValue, RuntimeError>, m: EvalM) -> bool {
    match (r, m) {
        (Result::Ok(v), EvalM::Val(vm)) => v@ == vm,
        (Result::Err(e), EvalM::Fail(em)) => e@ == em,
        _ => false,
    }
}

/// Whether a statement signal and its model agree.
pub open spec fn step_matches(r: Result<Signal, RuntimeError>, m: StepM) -> bool {
    match (r, m) {
        (Result::Ok(Signal::Normal), StepM::Norm) => true,
        (Result::Ok(Signal::Return(v)), StepM::Ret(vm)) => v@ == vm,
        (Result::Err(e), StepM::Fail(em)) => e@ == em,
        _ => false,
    }
}

/// The views of a sequence of runtime values.
pub open spec fn vals_view(vs: Seq<LiteralValue>) -> Seq<ValueM> {
    vs.map_values(|v: LiteralValue| v@)
}

/// Applies a binary operator to two evaluated operands.
fn bin_op(op: TokenType, a: &LiteralValue, b: &LiteralValue) -> (r: Result<
    LiteralValue,
    RuntimeError,
>)
    ensures
        eval_matches(r, bin_op_spec(op, a@, b@)),
{
    match op {
        TokenType::EqualEqual => Result::Ok(LiteralValue::from_bool(*a == *b)),
        TokenType::BangEqual => Result::Ok(LiteralValue::from_bool(!(*a == *b))),
        _ => match (a, b) {
            (LiteralValue::Number(x), LiteralValue::Number(y)) => match op {
                TokenType::Plus => Result::Ok(LiteralValue::Number(x.wrapping_add(*y))),
                TokenType::Minus => Result::Ok(LiteralValue::Number(x.wrapping_sub(*y))),
                TokenType::Star => Result::Ok(LiteralValue::Number(x.wrapping_mul(*y))),
                TokenType::Slash => {
                    if *y == 0 {
                        Result::Err(RuntimeError::DivisionByZero)
                    } else {
                        match x.checked_div(*y) {
                            Option::Some(q) => Result::Ok(LiteralValue::Number(q)),
                            Option::None => Result::Ok(LiteralValue::Number(i64::MIN)),
                        }
                    }
                },
                TokenType::Greater => Result::Ok(LiteralValue::from_bool(*x > *y)),
                TokenType::GreaterEqual => Result::Ok(LiteralValue::from_bool(*x >= *y)),
                TokenType::Less => Result::Ok(LiteralValue::from_bool(*x < *y)),
                TokenType::LessEqual => Result::Ok(LiteralValue::from_bool(*x <= *y)),
                _ => Result::Err(
                    RuntimeError::InvalidOperands { op, left: a.to_string(), right: b.to_string() },
                ),
            },
            (LiteralValue::StringValue(s1), LiteralValue::StringValue(s2)) => match op {
                TokenType::Plus => {
                    let mut s = s1.clone();
                    s.append(s2.as_str());
                    Result::Ok(LiteralValue::StringValue(s))
                },
                TokenType::Greater => Result::Ok(LiteralValue::from_bool(str_lt(s2, s1))),
                TokenType::GreaterEqual => Result::Ok(LiteralValue::from_bool(!str_lt(s1, s2))),
                TokenType::Less => Result::Ok(LiteralValue::from_bool(str_lt(s1, s2))),
                TokenType::LessEqual => Result::Ok(LiteralValue::from_bool(!str_lt(s2, s1))),
                _ => Result::Err(
                    RuntimeError::InvalidOperands { op, left: a.to_string(), right: b.to_string() },
                ),
            },
            (LiteralValue::StringValue(_), LiteralValue::Number(_)) => Result::Err(
                RuntimeError::StringNumberOp { op },
            ),
            (LiteralValue::Number(_), LiteralValue::StringValue(_)) => Result::Err(
                RuntimeError::StringNumberOp { op },
            ),
            _ => Result::Err(
                RuntimeError::InvalidOperands { op, left: a.to_string(), right: b.to_string() },
            ),
        },
    }
}

/// Applies a unary operator to its evaluated operand.
fn un_op(op: TokenType, v: &LiteralValue) -> (r: Result<LiteralValue, RuntimeError>)
    ensures
        eval_matches(r, un_op_spec(op, v@)),
{
    match op {
        TokenType::Minus => match v {
            LiteralValue::Number(x) => Result::Ok(LiteralValue::Number(0i64.wrapping_sub(*x))),
            _ => Result::Err(RuntimeError::UnaryMinus { type_of: v.to_type().to_owned() }),
        },
        TokenType::Bang => match v {
            LiteralValue::Callable { .. } => Result::Err(RuntimeError::Truthiness),
            _ => Result::Ok(v.is_falsy()),
        },
        _ => Result::Err(RuntimeError::InvalidUnary { op }),
    }
}

/// The truth value of an evaluated value, or the error a callable
/// raises in boolean context.
fn truth_of(v: &LiteralValue) -> (r: Result<bool, RuntimeError>)
    ensures
        match r {
            Result::Ok(b) => truthy(v@) == Option::Some(b),
            Result::Err(e) => truthy(v@) is None && e@ == ErrM::Truthiness,
        },
{
    match v {
        LiteralValue::Number(x) => Result::Ok(*x != 0),
        LiteralValue::StringValue(s) => Result::Ok(s.as_str().unicode_len() != 0),
        LiteralValue::True => Result::Ok(true),
        LiteralValue::False => Result::Ok(false),
        LiteralValue::Nil => Result::Ok(false),
        LiteralValue::Callable { .. } => Result::Err(RuntimeError::Truthiness),
    }
}

/// Reads the seconds of the wall clock.
///
/// Relies on `std::time::SystemTime::now` and
/// `SystemTime::duration_since`: the seconds since the Unix epoch, or
/// zero if the system clock sits before it. The reading depends on the
/// machine and the moment, so nothing is promised of it.
#[verifier::external_body]
fn now_seconds() -> (t: i64) {
    match std::time::SystemTime::now().duration_since(std::time::SystemTime::UNIX_EPOCH) {
        Ok(d) => d.as_secs() as i64,
        Err(_) => 0,
    }
}

/// The resolver's side table: expression id to lexical distance, as
/// parallel vectors.
pub struct Locals {
    pub ids: Vec<usize>,
    pub dists: Vec<usize>,
}

/// The table as a map; later entries win, though the table is kept
/// duplicate-free.
pub open spec fn locals_map(ids: Seq<usize>, dists: Seq<usize>) -> Map<usize, usize>
    decreases ids.len(),
{
    if ids.len() == 0 || ids.len() != dists.len() {
        Map::empty()
    } else {
        locals_map(ids.drop_last(), dists.drop_last()).insert(ids.last(), dists.last())
    }
}

impl View for Locals {
    type V = Map<usize, usize>;

    open spec fn view(&self) -> Map<usize, usize> {
        locals_map(self.ids@, self.dists@)
    }
}

impl Locals {
    /// Well-formed: parallel vectors of one length, ids unique.
    pub open spec fn wf(&self) -> bool {
        &&& self.ids@.len() == self.dists@.len()
        &&& forall|i: int, j: int| 0 <= i < j < self.ids@.len() ==> self.ids@[i] != self.ids@[j]
    }
}

proof fn lemma_locals_found(ids: Seq<usize>, dists: Seq<usize>, i: int)
    requires
        ids.len() == dists.len(),
        0 <= i < ids.len(),
        forall|a: int, b: int| 0 <= a < b < ids.len() ==> ids[a] != ids[b],
    ensures
        locals_map(ids, dists).contains_key(ids[i]),
        locals_map(ids, dists)[ids[i]] == dists[i],
    decreases ids.len(),
{
    if i == ids.len() - 1 {
    } else {
        lemma_locals_found(ids.drop_last(), dists.drop_last(), i);
    }
}

proof fn lemma_locals_missing(ids: Seq<usize>, dists: Seq<usize>, key: usize)
    requires
        ids.len() == dists.len(),
        forall|a: int| 0 <= a < ids.len() ==> ids[a] != key,
    ensures
        !locals_map(ids, dists).contains_key(key),
    decreases ids.len(),
{
    if ids.len() > 0 {
        lemma_locals_missing(ids.drop_last(), dists.drop_last(), key);
    }
}

proof fn lemma_locals_update(ids: Seq<usize>, dists: Seq<usize>, i: int, d: usize)
    requires
        ids.len() == dists.len(),
        0 <= i < ids.len(),
        forall|a: int, b: int| 0 <= a < b < ids.len() ==> ids[a] != ids[b],
    ensures
        locals_map(ids, dists.update(i, d)) == locals_map(ids, dists).insert(ids[i], d),
    decreases ids.len(),
{
    let upd = dists.update(i, d);
    if i == ids.len() - 1 {
        assert(upd.drop_last() =~= dists.drop_last());
        assert(locals_map(ids, upd) =~= locals_map(ids, dists).insert(ids[i], d));
    } else {
        assert(upd.drop_last() =~= dists.drop_last().update(i, d));
        lemma_locals_update(ids.drop_last(), dists.drop_last(), i, d);
        assert(locals_map(ids, upd) =~= locals_map(ids, dists).insert(ids[i], d));
    }
}

impl Locals {
    /// The recorded distance for `id`, if any.
    fn get(&self, id: usize) -> (r: Option<usize>)
        requires
            self.wf(),
        ensures
            r == dist_of(self@, id),
    {
        let mut i: usize = 0;
        while i < self.ids.len()
            invariant
                self.wf(),
                i <= self.ids@.len(),
                forall|a: int| 0 <= a < i ==> self.ids@[a] != id,
            decreases self.ids@.len() - i,
        {
            if self.ids[i] == id {
                proof {
                    lemma_locals_found(self.ids@, self.dists@, i as int);
                }
                return Option::Some(self.dists[i]);
            }
            i = i + 1;
        }
        proof {
            lemma_locals_missing(self.ids@, self.dists@, id);
        }
        Option::None
    }

    /// Records `dist` for `id`, overwriting any earlier record.
    fn set(&mut self, id: usize, dist: usize)
        requires
            old(self).wf(),
        ensures
            final(self).wf(),
            final(self)@ == old(self)@.insert(id, dist),
    {
        let mut i: usize = 0;
        while i < self.ids.len()
            invariant
                self.wf(),
                self.ids@ == old(self).ids@,
                self.dists@ == old(self).dists@,
                i <= self.ids@.len(),
                forall|a: int| 0 <= a < i ==> self.ids@[a] != id,
            decreases self.ids@.len() - i,
        {
            if self.ids[i] == id {
                proof {
                    lemma_locals_update(self.ids@, self.dists@, i as int, dist);
                }
                self.dists[i] = dist;
                return ;
            }
            i = i + 1;
        }
        proof {
            lemma_locals_missing(self.ids@, self.dists@, id);
        }
        let ghost old_ids = self.ids@;
        let ghost old_dists = self.dists@;
        self.ids.push(id);
        self.dists.push(dist);
        proof {
            assert(self.ids@.drop_last() =~= old_ids);
            assert(self.dists@.drop_last() =~= old_dists);
            assert(self@ =~= old(self)@.insert(id, dist));
        }
    }
}

/// The interpreter: the frame arena, the resolver's distance table,
/// the lines printed so far, and the clock reading its `clock` native
/// hands out, taken when the interpreter was created.
pub struct Interpreter {
    pub environment: Environment,
    pub locals: Locals,
    pub output: Vec<String>,
    pub clock: i64,
}

impl Interpreter {
    /// The mathematical state the semantics runs over.
    pub open spec fn state(&self) -> StateM {
        StateM {
            frames: self.environment@,
            output: self.output.deep_view(),
            clock: self.clock,
        }
    }

    /// Well-formed: the arena and the table are.
    pub open spec fn wf(&self) -> bool {
        &&& self.environment.wf()
        &&& self.locals.wf()
    }

    /// A fresh interpreter: the global frame with its natives, an
    /// empty distance table, no output yet, and the clock reading of
    /// this moment.
    pub fn new() -> (it: Interpreter)
        ensures
            it.wf(),
            it.locals@ == Map::<usize, usize>::empty(),
            it.state() == (StateM {
                frames: seq![
                    FrameM {
                        parent: Option::None,
                        bindings: Map::<Seq<char>, ValueM>::empty().insert(
                            "clock"@,
                            clock_callable(),
                        ),
                    },
                ],
                output: Seq::<Seq<char>>::empty(),
                clock: it.clock,
            }),
    {
        let it = Interpreter {
            environment: Environment::new(),
            locals: Locals { ids: Vec::new(), dists: Vec::new() },
            output: Vec::new(),
            clock: now_seconds(),
        };
        proof {
            assert(it.locals@ =~= Map::<usize, usize>::empty());
            assert(it.output.deep_view() =~= Seq::<Seq<char>>::empty());
            assert(it.state() =~= (StateM {
                frames: seq![
                    FrameM {
                        parent: Option::None,
                        bindings: Map::<Seq<char>, ValueM>::empty().insert(
                            "clock"@,
                            clock_callable(),
                        ),
                    },
                ],
                output: Seq::<Seq<char>>::empty(),
                clock: it.clock,
            }));
        }
        it
    }

    /// Records a resolved lexical distance for an expression id: the
    /// write-once registration the resolver uses to populate the table
    /// the interpreter reads.
    pub fn resolve(&mut self, id: usize, steps: usize) -> (r: Result<(), String>)
        requires
            old(self).wf(),
        ensures
            final(self).wf(),
            r is Ok,
            final(self).locals@ == old(self).locals@.insert(id, steps),
            final(self).state() == old(self).state(),
    {
        self.locals.set(id, steps);
        Result::Ok(())
    }

    /// The distance the resolver recorded for this expression, if any.
    fn get_distance(&self, expr: &Expr) -> (r: Option<usize>)
        requires
            self.wf(),
        ensures
            r == dist_of(self.locals@, expr.id()),
    {
        self.locals.get(expr.get_id())
    }
}


/// The evaluation budget a top-level run starts with. Each call of a
/// declared function and each loop iteration burns one unit, so no
/// real program exhausts it; a program that would is unbounded
/// recursion or an endless loop, the fatal resource-exhaustion
/// condition.
pub const EVAL_FUEL: u64 = 0xffff_ffff_ffff_ffff;

impl Interpreter {
    /// Evaluates an expression in frame `env`: exactly the semantics
    /// [`eval_expr_spec`] gives it, on this interpreter's state.
    #[verifier::rlimit(100)]
    fn eval_expr(&mut self, e: &Expr, env: usize, fuel: u64) -> (r: Result<
        LiteralValue,
        RuntimeError,
    >)
        requires
            old(self).wf(),
            env < old(self).environment.len(),
        ensures
            final(self).wf(),
            final(self).locals@ == old(self).locals@,
            final(self).environment.len() >= old(self).environment.len(),
            ({
                let (st1, rm) = eval_expr_spec(
                    *e,
                    env as int,
                    old(self).state(),
                    old(self).locals@,
                    fuel as nat,
                );
                final(self).state() == st1 && eval_matches(r, rm)
            }),
        decreases fuel, *e, 0int,
    {
        match e {
            Expr::Literal { id, value } => Result::Ok(value.clone()),
            Expr::Grouping { id, expression } => self.eval_expr(expression, env, fuel),
            Expr::Unary { id, operator, right } => {
                let r1 = self.eval_expr(right, env, fuel);
                match r1 {
                    Result::Err(er) => Result::Err(er),
                    Result::Ok(v) => un_op(operator.token_type, &v),
                }
            },
            Expr::Binary { id, left, operator, right } => {
                let r1 = self.eval_expr(left, env, fuel);
                match r1 {
                    Result::Err(er) => Result::Err(er),
                    Result::Ok(a) => {
                        let r2 = self.eval_expr(right, env, fuel);
                        match r2 {
                            Result::Err(er) => Result::Err(er),
                            Result::Ok(b) => bin_op(operator.token_type, &a, &b),
                        }
                    },
                }
            },
            Expr::Logical { id, left, operator, right } => {
                match operator.token_type {
                    TokenType::Or => {
                        let r1 = self.eval_expr(left, env, fuel);
                        match r1 {
                            Result::Err(er) => Result::Err(er),
                            Result::Ok(v) => {
                                let t = truth_of(&v);
                                match t {
                                    Result::Err(er) => Result::Err(er),
                                    Result::Ok(true) => Result::Ok(v),
                                    Result::Ok(false) => self.eval_expr(right, env, fuel),
                                }
                            },
                        }
                    },
                    TokenType::And => {
                        let r1 = self.eval_expr(left, env, fuel);
                        match r1 {
                            Result::Err(er) => Result::Err(er),
                            Result::Ok(v) => {
                                let t = truth_of(&v);
                                match t {
                                    Result::Err(er) => Result::Err(er),
                                    Result::Ok(false) => Result::Ok(v),
                                    Result::Ok(true) => self.eval_expr(right, env, fuel),
                                }
                            },
                        }
                    },
                    _ => Result::Err(RuntimeError::InvalidLogical { op: operator.token_type }),
                }
            },
            Expr::Variable { id, name } => {
                let dist = self.get_distance(e);
                match self.environment.get(env, &name.lexeme, dist) {
                    LookupResult::Found(v) => Result::Ok(v),
                    LookupResult::Missing => Result::Err(
                        RuntimeError::UndeclaredRead { name: name.lexeme.clone() },
                    ),
                    LookupResult::BadDistance => Result::Err(RuntimeError::Internal),
                }
            },
            Expr::Assign { id, name, value } => {
                let r1 = self.eval_expr(value, env, fuel);
                match r1 {
                    Result::Err(er) => Result::Err(er),
                    Result::Ok(v) => {
                        let dist = self.get_distance(e);
                        let a = self.environment.assign(env, &name.lexeme, v.clone(), dist);
                        match a {
                            Option::None => Result::Err(RuntimeError::Internal),
                            Option::Some(true) => Result::Ok(v),
                            Option::Some(false) => Result::Err(
                                RuntimeError::UndeclaredAssign { name: name.lexeme.clone() },
                            ),
                        }
                    },
                }
            },
            Expr::AnonFunction { id, paren, arguments, body } => {
                Result::Ok(
                    LiteralValue::Callable {
                        name: "anon_function".to_owned(),
                        arity: arguments.len(),
                        fun: FunKind::Declared {
                            params: arguments.clone(),
                            body: body.clone(),
                            closure: env,
                        },
                    },
                )
            },
            Expr::Call { id, callee, paren, arguments } => {
                let cr = match &**callee {
                    Expr::Variable { id: _, name } => {
                        let dist = self.get_distance(e);
                        match self.environment.get(env, &name.lexeme, dist) {
                            LookupResult::Found(v) => Result::Ok(v),
                            LookupResult::Missing => Result::Err(
                                RuntimeError::UndeclaredRead { name: name.lexeme.clone() },
                            ),
                            LookupResult::BadDistance => Result::Err(RuntimeError::Internal),
                        }
                    },
                    _ => self.eval_expr(&**callee, env, fuel),
                };
                proof {
                    let (st1s, r1s) = eval_callee_spec(
                        *id,
                        **callee,
                        env as int,
                        old(self).state(),
                        old(self).locals@,
                        fuel as nat,
                    );
                    assert(self.state() == st1s && eval_matches(cr, r1s));
                }
                match cr {
                    Result::Err(er) => Result::Err(er),
                    Result::Ok(v) => match v {
                        LiteralValue::Callable { name, arity, fun } => {
                            if arguments.len() != arity {
                                Result::Err(
                                    RuntimeError::Arity {
                                        name,
                                        expected: arity,
                                        actual: arguments.len(),
                                    },
                                )
                            } else {
                                let ar = self.eval_args(arguments, 0, env, fuel);
                                match ar {
                                    Result::Err(er) => Result::Err(er),
                                    Result::Ok(vals) => match fun {
                                        FunKind::Clock => Result::Ok(
                                            LiteralValue::Number(self.clock),
                                        ),
                                        FunKind::Declared { params, body, closure } => {
                                            if fuel == 0 {
                                                Result::Err(RuntimeError::Exhausted)
                                            } else if closure >= self.environment.frames.len() {
                                                Result::Err(RuntimeError::Internal)
                                            } else {
                                                self.call_declared(&params, &body, closure, vals, fuel - 1)
                                            }
                                        },
                                    },
                                }
                            }
                        },
                        _ => Result::Err(
                            RuntimeError::NotCallable { type_of: v.to_type().to_owned() },
                        ),
                    },
                }
            },
        }
    }

    /// Runs a declared function's body in a fresh frame: the parent is
    /// the captured frame, each parameter is bound to its argument,
    /// and the body runs on one unit less fuel. A body that falls
    /// through yields `nil`.
    fn call_declared(
        &mut self,
        params: &Rc<Vec<Token>>,
        body: &Rc<Vec<Stmt>>,
        closure: usize,
        vals: Vec<LiteralValue>,
        fuel: u64,
    ) -> (r: Result<LiteralValue, RuntimeError>)
        requires
            old(self).wf(),
            closure < old(self).environment.len(),
        ensures
            final(self).wf(),
            final(self).locals@ == old(self).locals@,
            final(self).environment.len() >= old(self).environment.len(),
            ({
                let newf = old(self).state().frames.len() as int;
                let st1 = StateM {
                    frames: old(self).state().frames.push(
                        FrameM {
                            parent: Option::Some(closure as int),
                            bindings: bind_params(params@, vals_view(vals@)),
                        },
                    ),
                    ..old(self).state()
                };
                let (st2, sig) = eval_stmts_spec(
                    body@,
                    0,
                    newf,
                    st1,
                    old(self).locals@,
                    fuel as nat,
                );
                final(self).state() == st2 && match sig {
                    StepM::Fail(em) => (r matches Result::Err(e2) && e2@ == em),
                    StepM::Ret(vm) => (r matches Result::Ok(v) && v@ == vm),
                    StepM::Norm => (r matches Result::Ok(v) && v@ == ValueM::Nil),
                }
            }),
        decreases fuel, body@, body@.len() + 1,
    {
        let ghost st0 = old(self).state();
        let newf = self.environment.push_frame(closure);
        let ps: &Vec<Token> = &*(*params);
        if ps.len() == vals.len() {
            let mut j: usize = 0;
            while j < ps.len()
                invariant
                    self.wf(),
                    ps@ == params@,
                    ps@.len() == vals@.len(),
                    j <= ps@.len(),
                    newf == st0.frames.len(),
                    newf < self.environment.len(),
                    self.locals@ == old(self).locals@,
                    self.clock == old(self).clock,
                    self.output.deep_view() == st0.output,
                    self.environment@ =~= st0.frames.push(
                        FrameM {
                            parent: Option::Some(closure as int),
                            bindings: bind_params(
                                ps@.take(j as int),
                                vals_view(vals@).take(j as int),
                            ),
                        },
                    ),
                decreases ps@.len() - j,
            {
                let nm = ps[j].lexeme.clone();
                let vv = vals[j].clone();
                proof {
                    assert(ps@.take(j + 1).drop_last() =~= ps@.take(j as int));
                    assert(vals_view(vals@).take(j + 1).drop_last() =~= vals_view(vals@).take(
                        j as int,
                    ));
                    assert(ps@.take(j + 1).last() == ps@[j as int]);
                    assert(vals_view(vals@).take(j + 1).last() == vals@[j as int]@);
                }
                self.environment.define(newf, nm, vv);
                proof {
                    assert(self.environment@ =~= st0.frames.push(
                        FrameM {
                            parent: Option::Some(closure as int),
                            bindings: bind_params(
                                ps@.take(j + 1),
                                vals_view(vals@).take(j + 1),
                            ),
                        },
                    ));
                }
                j = j + 1;
            }
            proof {
                assert(ps@.take(ps@.len() as int) =~= ps@);
                assert(vals_view(vals@).take(vals_view(vals@).len() as int) =~= vals_view(vals@));
            }
        } else {
            proof {
                assert(bind_params(params@, vals_view(vals@)) =~= Map::<Seq<char>, ValueM>::empty());
            }
        }
        proof {
            assert(self.state() =~= (StateM {
                frames: st0.frames.push(
                    FrameM {
                        parent: Option::Some(closure as int),
                        bindings: bind_params(params@, vals_view(vals@)),
                    },
                ),
                ..st0
            }));
        }
        let b: &Vec<Stmt> = &*(*body);
        let r2 = self.exec_stmts(b, 0, newf, fuel);
        match r2 {
            Result::Err(er) => Result::Err(er),
            Result::Ok(Signal::Return(v)) => Result::Ok(v),
            Result::Ok(Signal::Normal) => Result::Ok(LiteralValue::Nil),
        }
    }

    /// Evaluates call arguments left to right, from index `i` on,
    /// stopping at the first error.
    fn eval_args(&mut self, args: &Vec<Expr>, i: usize, env: usize, fuel: u64) -> (r: Result<
        Vec<LiteralValue>,
        RuntimeError,
    >)
        requires
            old(self).wf(),
            env < old(self).environment.len(),
            i <= args@.len(),
        ensures
            final(self).wf(),
            final(self).locals@ == old(self).locals@,
            final(self).environment.len() >= old(self).environment.len(),
            ({
                let (st1, rm) = eval_args_spec(
                    args@,
                    i as int,
                    env as int,
                    old(self).state(),
                    old(self).locals@,
                    fuel as nat,
                );
                final(self).state() == st1 && match (r, rm) {
                    (Result::Ok(vs), Result::Ok(vm)) => vals_view(vs@) == vm && vs@.len()
                        == args@.len() - i,
                    (Result::Err(e2), Result::Err(em)) => e2@ == em,
                    _ => false,
                }
            }),
        decreases fuel, args@, args@.len() - i,
    {
        if i >= args.len() {
            let out: Vec<LiteralValue> = Vec::new();
            proof {
                assert(vals_view(out@) =~= Seq::<ValueM>::empty());
            }
            Result::Ok(out)
        } else {
            let r1 = self.eval_expr(&args[i], env, fuel);
            match r1 {
                Result::Err(er) => Result::Err(er),
                Result::Ok(v) => {
                    let r2 = self.eval_args(args, i + 1, env, fuel);
                    match r2 {
                        Result::Err(er) => Result::Err(er),
                        Result::Ok(rest) => {
                            let ghost rest0 = rest@;
                            let mut out: Vec<LiteralValue> = Vec::new();
                            out.push(v);
                            let mut rest = rest;
                            out.append(&mut rest);
                            proof {
                                assert(out@ =~= seq![v] + rest0);
                                assert(vals_view(out@) =~= seq![v@] + vals_view(rest0));
                            }
                            Result::Ok(out)
                        },
                    }
                },
            }
        }
    }

    /// Executes the statements of `ss` from index `i` on, in order,
    /// stopping at the first signal that is not plain fall-through.
    fn exec_stmts(&mut self, ss: &Vec<Stmt>, i: usize, env: usize, fuel: u64) -> (r: Result<
        Signal,
        RuntimeError,
    >)
        requires
            old(self).wf(),
            env < old(self).environment.len(),
            i <= ss@.len(),
        ensures
            final(self).wf(),
            final(self).locals@ == old(self).locals@,
            final(self).environment.len() >= old(self).environment.len(),
            ({
                let (st1, sm) = eval_stmts_spec(
                    ss@,
                    i as int,
                    env as int,
                    old(self).state(),
                    old(self).locals@,
                    fuel as nat,
                );
                final(self).state() == st1 && step_matches(r, sm)
            }),
        decreases fuel, ss@, ss@.len() - i,
    {
        if i >= ss.len() {
            Result::Ok(Signal::Normal)
        } else {
            let r1 = self.exec_stmt(&ss[i], env, fuel);
            match r1 {
                Result::Ok(Signal::Normal) => self.exec_stmts(ss, i + 1, env, fuel),
                Result::Ok(Signal::Return(v)) => Result::Ok(Signal::Return(v)),
                Result::Err(er) => Result::Err(er),
            }
        }
    }

    /// Executes one statement.
    #[verifier::rlimit(100)]
    fn exec_stmt(&mut self, s: &Stmt, env: usize, fuel: u64) -> (r: Result<Signal, RuntimeError>)
        requires
            old(self).wf(),
            env < old(self).environment.len(),
        ensures
            final(self).wf(),
            final(self).locals@ == old(self).locals@,
            final(self).environment.len() >= old(self).environment.len(),
            ({
                let (st1, sm) = eval_stmt_spec(
                    *s,
                    env as int,
                    old(self).state(),
                    old(self).locals@,
                    fuel as nat,
                );
                final(self).state() == st1 && step_matches(r, sm)
            }),
        decreases fuel, *s, 1int,
    {
        match s {
            Stmt::Expression { expression } => {
                let r1 = self.eval_expr(expression, env, fuel);
                match r1 {
                    Result::Err(er) => Result::Err(er),
                    Result::Ok(_) => Result::Ok(Signal::Normal),
                }
            },
            Stmt::Print { expression } => {
                let r1 = self.eval_expr(expression, env, fuel);
                match r1 {
                    Result::Err(er) => Result::Err(er),
                    Result::Ok(v) => {
                        let ghost mid = self.state();
                        let line = v.to_string();
                        self.output.push(line);
                        proof {
                            assert(self.output.deep_view() =~= mid.output.push(val_str(v@)));
                            assert(self.state() =~= (StateM {
                                output: mid.output.push(val_str(v@)),
                                ..mid
                            }));
                        }
                        Result::Ok(Signal::Normal)
                    },
                }
            },
            Stmt::Var { name, initializer } => {
                let r1 = self.eval_expr(initializer, env, fuel);
                match r1 {
                    Result::Err(er) => Result::Err(er),
                    Result::Ok(v) => {
                        let ghost mid = self.state();
                        proof {
                            assert(env < self.environment.len());
                        }
                        self.environment.define(env, name.lexeme.clone(), v);
                        proof {
                            assert(self.state() =~= (StateM {
                                frames: mid.frames.update(
                                    env as int,
                                    FrameM {
                                        parent: mid.frames[env as int].parent,
                                        bindings: mid.frames[env as int].bindings.insert(
                                            name.lexeme@,
                                            v@,
                                        ),
                                    },
                                ),
                                ..mid
                            }));
                        }
                        Result::Ok(Signal::Normal)
                    },
                }
            },
            Stmt::Block { statements } => {
                let ghost st0 = self.state();
                let newf = self.environment.push_frame(env);
                proof {
                    assert(self.state() =~= (StateM {
                        frames: st0.frames.push(
                            FrameM { parent: Option::Some(env as int), bindings: Map::empty() },
                        ),
                        ..st0
                    }));
                }
                self.exec_stmts(statements, 0, newf, fuel)
            },
            Stmt::IfStmt { predicate, then_branch, els } => {
                let r1 = self.eval_expr(predicate, env, fuel);
                match r1 {
                    Result::Err(er) => Result::Err(er),
                    Result::Ok(v) => {
                        let t = truth_of(&v);
                        match t {
                            Result::Err(er) => Result::Err(er),
                            Result::Ok(true) => self.exec_stmt(&**then_branch, env, fuel),
                            Result::Ok(false) => match els {
                                Option::Some(e2) => self.exec_stmt(&**e2, env, fuel),
                                Option::None => Result::Ok(Signal::Normal),
                            },
                        }
                    },
                }
            },
            Stmt::WhileStmt { condition, body } => self.exec_while(s, env, fuel),
            Stmt::Function { name, params, body } => {
                let ghost st0 = self.state();
                let callable = LiteralValue::Callable {
                    name: name.lexeme.clone(),
                    arity: params.len(),
                    fun: FunKind::Declared {
                        params: params.clone(),
                        body: body.clone(),
                        closure: env,
                    },
                };
                self.environment.define(env, name.lexeme.clone(), callable);
                proof {
                    assert(self.state() =~= (StateM {
                        frames: st0.frames.update(
                            env as int,
                            FrameM {
                                parent: st0.frames[env as int].parent,
                                bindings: st0.frames[env as int].bindings.insert(
                                    name.lexeme@,
                                    callable@,
                                ),
                            },
                        ),
                        ..st0
                    }));
                }
                Result::Ok(Signal::Normal)
            },
            Stmt::ReturnStmt { keyword, value } => match value {
                Option::None => Result::Ok(Signal::Return(LiteralValue::Nil)),
                Option::Some(e2) => {
                    let r1 = self.eval_expr(e2, env, fuel);
                    match r1 {
                        Result::Err(er) => Result::Err(er),
                        Result::Ok(v) => Result::Ok(Signal::Return(v)),
                    }
                },
            },
        }
    }

    /// Runs one `while` statement, burning one unit of fuel per
    /// iteration.
    fn exec_while(&mut self, s: &Stmt, env: usize, fuel: u64) -> (r: Result<Signal, RuntimeError>)
        requires
            old(self).wf(),
            env < old(self).environment.len(),
        ensures
            final(self).wf(),
            final(self).locals@ == old(self).locals@,
            final(self).environment.len() >= old(self).environment.len(),
            ({
                let (st1, sm) = eval_while_spec(
                    *s,
                    env as int,
                    old(self).state(),
                    old(self).locals@,
                    fuel as nat,
                );
                final(self).state() == st1 && step_matches(r, sm)
            }),
        decreases fuel, *s, 0int,
    {
        match s {
            Stmt::WhileStmt { condition, body } => {
                let r1 = self.eval_expr(condition, env, fuel);
                match r1 {
                    Result::Err(er) => Result::Err(er),
                    Result::Ok(v) => {
                        let t = truth_of(&v);
                        match t {
                            Result::Err(er) => Result::Err(er),
                            Result::Ok(false) => Result::Ok(Signal::Normal),
                            Result::Ok(true) => {
                                let r2 = self.exec_stmt(&**body, env, fuel);
                                match r2 {
                                    Result::Ok(Signal::Normal) => {
                                        if fuel == 0 {
                                            Result::Err(RuntimeError::Exhausted)
                                        } else {
                                            self.exec_while(s, env, fuel - 1)
                                        }
                                    },
                                    Result::Ok(Signal::Return(v2)) => Result::Ok(
                                        Signal::Return(v2),
                                    ),
                                    Result::Err(er) => Result::Err(er),
                                }
                            },
                        }
                    },
                }
            },
            _ => Result::Ok(Signal::Normal),
        }
    }

    /// Executes a statement sequence at the top level, against the
    /// global frame, on a full evaluation budget. The program's print
    /// output accumulates in `self.output`; the first error aborts the
    /// run and is handed back.
    pub fn interpret(&mut self, stmts: &Vec<Stmt>) -> (r: Result<(), RuntimeError>)
        requires
            old(self).wf(),
        ensures
            final(self).wf(),
            final(self).locals@ == old(self).locals@,
            ({
                let (st1, sm) = eval_stmts_spec(
                    stmts@,
                    0,
                    0,
                    old(self).state(),
                    old(self).locals@,
                    EVAL_FUEL as nat,
                );
                final(self).state() == st1 && match sm {
                    StepM::Fail(em) => (r matches Result::Err(e2) && e2@ == em),
                    _ => r is Ok,
                }
            }),
    {
        let r = self.exec_stmts(stmts, 0, 0, EVAL_FUEL);
        match r {
            Result::Err(er) => Result::Err(er),
            Result::Ok(_) => Result::Ok(()),
        }
    }
}

impl Expr {
    /// Evaluates this expression in frame `env` of the interpreter:
    /// exactly the semantics [`eval_expr_spec`] gives it.
    pub fn evaluate(&self, interpreter: &mut Interpreter, env: usize, fuel: u64) -> (r: Result<
        LiteralValue,
        RuntimeError,
    >)
        requires
            old(interpreter).wf(),
            env < old(interpreter).environment.len(),
        ensures
            final(interpreter).wf(),
            final(interpreter).locals@ == old(interpreter).locals@,
            final(interpreter).environment.len() >= old(interpreter).environment.len(),
            ({
                let (st1, rm) = eval_expr_spec(
                    *self,
                    env as int,
                    old(interpreter).state(),
                    old(interpreter).locals@,
                    fuel as nat,
                );
                final(interpreter).state() == st1 && eval_matches(r, rm)
            }),
    {
        interpreter.eval_expr(self, env, fuel)
    }
}


/// Law: `and` short-circuits. Whenever the left operand of an `and`
/// evaluates to a falsy value, the whole expression is exactly the
/// evaluation of the left operand alone — same value, same resulting
/// state — so the right operand is never evaluated and none of its
/// effects can occur.
pub proof fn lemma_and_short_circuit(e: Expr, env: int, st: StateM, tbl: Map<usize, usize>, fuel: nat)
    ensures
        match e {
            Expr::Logical { id, left, operator, right } => {
                operator.token_type == TokenType::And ==> {
                    let (st1, r1) = eval_expr_spec(*left, env, st, tbl, fuel);
                    r1 matches EvalM::Val(v) ==> truthy(v) == Option::Some(false)
                        ==> eval_expr_spec(e, env, st, tbl, fuel) == (st1, EvalM::Val(v))
                }
            },
            _ => true,
        },
{
}

/// Law: `or` short-circuits. Whenever the left operand of an `or`
/// evaluates to a truthy value, the whole expression is exactly the
/// evaluation of the left operand alone — same value, same resulting
/// state — so the right operand is never evaluated and none of its
/// effects can occur.
pub proof fn lemma_or_short_circuit(e: Expr, env: int, st: StateM, tbl: Map<usize, usize>, fuel: nat)
    ensures
        match e {
            Expr::Logical { id, left, operator, right } => {
                operator.token_type == TokenType::Or ==> {
                    let (st1, r1) = eval_expr_spec(*left, env, st, tbl, fuel);
                    r1 matches EvalM::Val(v) ==> truthy(v) == Option::Some(true)
                        ==> eval_expr_spec(e, env, st, tbl, fuel) == (st1, EvalM::Val(v))
                }
            },
            _ => true,
        },
{
}

/// Law: a variable declaration binds in the current frame alone.
/// After the initializer is evaluated, declaring the name touches
/// exactly the frame the declaration runs in: every other frame keeps
/// its bindings, so a declaration that shadows an outer variable never
/// mutates the outer binding.
pub proof fn lemma_var_decl_shadows_locally(
    s: Stmt,
    env: int,
    st: StateM,
    tbl: Map<usize, usize>,
    fuel: nat,
)
    ensures
        match s {
            Stmt::Var { name, initializer } => {
                let (st1, r) = eval_expr_spec(initializer, env, st, tbl, fuel);
                r matches EvalM::Val(v) ==> 0 <= env < st1.frames.len() ==> {
                    let (st2, sig) = eval_stmt_spec(s, env, st, tbl, fuel);
                    &&& sig is Norm
                    &&& st2.frames.len() == st1.frames.len()
                    &&& forall|j: int|
                        0 <= j < st1.frames.len() && j != env ==> st2.frames[j] == st1.frames[j]
                    &&& st2.frames[env] == (FrameM {
                        parent: st1.frames[env].parent,
                        bindings: st1.frames[env].bindings.insert(name.lexeme@, v),
                    })
                }
            },
            _ => true,
        },
{
}


/// Law: equality is total. `==` and `!=` are defined for every pair of
/// values — no operand combination makes them fail — and a number and
/// a string are simply unequal, never an error.
pub proof fn lemma_equality_is_total(a: ValueM, b: ValueM)
    ensures
        bin_op_spec(TokenType::EqualEqual, a, b) == EvalM::Val(bool_val(val_eq(a, b))),
        bin_op_spec(TokenType::BangEqual, a, b) == EvalM::Val(bool_val(!val_eq(a, b))),
        (a matches ValueM::Num(_) && b matches ValueM::Str(_)) ==> !val_eq(a, b),
        (a matches ValueM::Str(_) && b matches ValueM::Num(_)) ==> !val_eq(a, b),
{
}


/// Law: every invocation of a declared function runs its body in a
/// fresh frame. The frame is appended to the arena — its handle is the
/// arena's length, so it is no frame that existed before the call —
/// its parent is exactly the frame the function captured at its
/// definition, and its bindings are exactly the parameters bound to
/// the argument values. Two invocations can therefore never share a
/// frame, while both see the captured frame through the parent link.
pub proof fn lemma_call_runs_in_fresh_frame(
    e: Expr,
    env: int,
    st: StateM,
    tbl: Map<usize, usize>,
    fuel: nat,
)
    ensures
        match e {
            Expr::Call { id, callee, paren, arguments } => {
                let (st1, r1) = eval_callee_spec(id, *callee, env, st, tbl, fuel);
                r1 matches EvalM::Val(v) ==> (match v {
                    ValueM::Callable { name, arity, fun } => arguments@.len() == arity ==> {
                        let (st2, r2) = eval_args_spec(arguments@, 0, env, st1, tbl, fuel);
                        r2 matches Result::Ok(vals) ==> (match fun {
                            FunM::Declared { params, body, closure } => (fuel > 0 && 0 <= closure
                                < st2.frames.len()) ==> {
                                let newf = st2.frames.len() as int;
                                let st3 = StateM {
                                    frames: st2.frames.push(
                                        FrameM {
                                            parent: Option::Some(closure),
                                            bindings: bind_params(params, vals),
                                        },
                                    ),
                                    ..st2
                                };
                                let (st4, sig) = eval_stmts_spec(
                                    body,
                                    0,
                                    newf,
                                    st3,
                                    tbl,
                                    (fuel - 1) as nat,
                                );
                                eval_expr_spec(e, env, st, tbl, fuel) == ((
                                    st4,
                                    match sig {
                                        StepM::Fail(er) => EvalM::Fail(er),
                                        StepM::Ret(v2) => EvalM::Val(v2),
                                        StepM::Norm => EvalM::Val(ValueM::Nil),
                                    },
                                ))
                            },
                            FunM::Clock => true,
                        })
                    },
                    _ => true,
                })
            },
            _ => true,
        },
{
}

} // verus!
