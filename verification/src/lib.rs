//! A tree-walking interpreter for a small dynamically typed scripting
//! language with C-like syntax: expressions, variables, blocks, control
//! flow, functions and closures.
//!
//! The pipeline is: source text -> [`scanner`] (tokens) -> [`parser`]
//! (statements) -> [`resolver`] (a side table of lexical distances) ->
//! [`interpreter`] (evaluation against a chain of environment frames).
//! [`run_string`] drives the whole pipeline and collects everything the
//! program printed.
//!
//! The scanner, the resolver and the interpreter carry full functional
//! contracts: what they compute is exactly what the spec functions
//! `scan_all_spec`, `resolve_stmts_spec` and `eval_stmts_spec` say. The
//! parser is specified by the node shapes its productions yield and by
//! its safety and progress properties, not by a full tree-valued spec
//! function, so the pipeline contracts quantify over the statements it
//! handed on: whatever they were, resolving and executing them behaved
//! exactly as the semantics says.

pub mod environment;
pub mod expr;
pub mod interpreter;
pub mod numfmt;
pub mod parser;
pub mod resolver;
pub mod scanner;
pub mod stmt;

use crate::environment::{clock_callable, FrameM};
use crate::expr::ValueM;
use crate::interpreter::{err_str, eval_stmts_spec, Interpreter, StateM, StepM, EVAL_FUEL};
use crate::parser::Parser;
use crate::resolver::{resolution_err, resolve_stmts_spec, Resolver, TableM};
use crate::scanner::{join_errs, scan_all_spec, Scanner, TokenType};
use crate::stmt::Stmt;
use vstd::prelude::*;

verus! {

/// The state a fresh interpreter starts in: only the global frame with
/// its natives, nothing printed, and the given clock reading.
pub open spec fn init_state(clock: i64) -> StateM {
    StateM {
        frames: seq![
            FrameM {
                parent: Option::None,
                bindings: Map::<Seq<char>, ValueM>::empty().insert("clock"@, clock_callable()),
            },
        ],
        output: Seq::<Seq<char>>::empty(),
        clock,
    }
}

/// What resolving and then executing the statements `stmts` does to an
/// interpreter: from state `st0` and distance table `tbl0` it ends in
/// state `st1` with table `tbl1`; `ok` says whether the run succeeded
/// and `msg` carries the report when it did not.
pub open spec fn staged_outcome(
    stmts: Seq<Stmt>,
    st0: StateM,
    tbl0: TableM,
    st1: StateM,
    tbl1: TableM,
    ok: bool,
    msg: Seq<char>,
) -> bool {
    match resolve_stmts_spec(stmts, 0, Seq::<Map<Seq<char>, bool>>::empty(), tbl0) {
        Result::Err((sce, te)) => !ok && msg == resolution_err() && st1 == st0 && tbl1 == te,
        Result::Ok((sc2, t2)) => {
            let (st2, sm) = eval_stmts_spec(stmts, 0, 0, st0, t2, EVAL_FUEL as nat);
            &&& st1 == st2
            &&& tbl1 == t2
            &&& match sm {
                StepM::Fail(em) => !ok && msg == err_str(em),
                _ => ok,
            }
        },
    }
}

/// The error message a result carries, or nothing.
pub open spec fn msg_of(r: Result<(), String>) -> Seq<char> {
    match r {
        Result::Err(m) => m@,
        Result::Ok(()) => Seq::<char>::empty(),
    }
}

/// Runs one piece of source text against an existing interpreter, as a
/// prompt loop does: scan, parse, resolve, execute. Printed lines
/// accumulate in the interpreter; the first error of any stage aborts
/// the run and comes back as its message. Lexical errors are exactly
/// the scanner's collected report and leave the interpreter untouched;
/// so does a parse error; and the statements the parser handed on were
/// resolved and executed exactly as [`staged_outcome`] says — on a
/// resolution error with the table exactly as the failure left it.
pub fn run(interpreter: &mut Interpreter, contents: &str) -> (r: Result<(), String>)
    requires
        old(interpreter).wf(),
    ensures
        final(interpreter).wf(),
        contents@.len() == 0 ==> (r is Ok && final(interpreter).state() == old(
            interpreter,
        ).state() && final(interpreter).locals@ == old(interpreter).locals@),
        ({
            let (toks, errs) = scan_all_spec(contents@, 0, 1);
            if errs.len() > 0 {
                &&& (r matches Result::Err(m) && m@ == join_errs(errs))
                &&& final(interpreter).state() == old(interpreter).state()
                &&& final(interpreter).locals@ == old(interpreter).locals@
            } else {
                ||| ((r matches Result::Err(_)) && final(interpreter).state() == old(
                    interpreter,
                ).state() && final(interpreter).locals@ == old(interpreter).locals@)
                ||| (exists |stmts: Seq<Stmt>|
                    #[trigger] staged_outcome(
                        stmts,
                        old(interpreter).state(),
                        old(interpreter).locals@,
                        final(interpreter).state(),
                        final(interpreter).locals@,
                        r is Ok,
                        msg_of(r),
                    ))
            }
        }),
{
    proof {
        if contents@.len() == 0 {
            assert(scan_all_spec(contents@, 0, 1) == (
                seq![
                    crate::scanner::plain_token(TokenType::Eof, Seq::<char>::empty(), 1),
                ],
                Seq::<Seq<char>>::empty(),
            ));
        }
    }
    let mut scanner = Scanner::new(contents);
    let tokens = match scanner.scan_tokens() {
        Result::Ok(t) => t,
        Result::Err(m) => {
            return Result::Err(m);
        },
    };
    proof {
        crate::scanner::lemma_scan_all_ends_eof(contents@, 0, 1);
        assert(tokens@.last().token_type == TokenType::Eof);
        if contents@.len() == 0 {
            assert(crate::scanner::tokens_view(tokens@)[0] == tokens@[0]@);
            assert(tokens@.len() == 1 && tokens@[0].token_type == TokenType::Eof);
        }
    }
    let mut parser = Parser::new(tokens);
    let stmts = match parser.parse() {
        Result::Ok(s) => s,
        Result::Err(m) => {
            return Result::Err(m);
        },
    };
    proof {
        if contents@.len() == 0 {
            assert(stmts@.len() == 0);
        }
    }
    let mut resolver = Resolver::new();
    match resolver.resolve_many(&stmts, interpreter) {
        Result::Ok(()) => {},
        Result::Err(m) => {
            let r: Result<(), String> = Result::Err(m);
            proof {
                assert(staged_outcome(
                    stmts@,
                    old(interpreter).state(),
                    old(interpreter).locals@,
                    interpreter.state(),
                    interpreter.locals@,
                    r is Ok,
                    msg_of(r),
                ));
            }
            return r;
        },
    }
    let r = match interpreter.interpret(&stmts) {
        Result::Ok(()) => Result::Ok(()),
        Result::Err(e) => Result::Err(e.message()),
    };
    proof {
        assert(staged_outcome(
            stmts@,
            old(interpreter).state(),
            old(interpreter).locals@,
            interpreter.state(),
            interpreter.locals@,
            r is Ok,
            msg_of(r),
        ));
        if contents@.len() == 0 {
            assert(resolve_stmts_spec(
                stmts@,
                0,
                Seq::<Map<Seq<char>, bool>>::empty(),
                old(interpreter).locals@,
            ) is Ok);
            assert(eval_stmts_spec(
                stmts@,
                0,
                0,
                old(interpreter).state(),
                interpreter.locals@,
                EVAL_FUEL as nat,
            ) == (old(interpreter).state(), StepM::Norm));
        }
    }
    r
}

/// Runs a whole program from source text on a fresh interpreter: the
/// lines it printed, in order, and the final success or error result.
/// The clock reading the interpreter starts with is whatever the
/// moment gave, so the contract holds for some reading: lexical errors
/// are the scanner's collected report with nothing printed, and a
/// parsed program prints exactly what [`staged_outcome`] says it
/// prints.
pub fn run_string(contents: &str) -> (r: (Vec<String>, Result<(), String>))
    ensures
        contents@.len() == 0 ==> (r.1 is Ok && r.0@.len() == 0),
        ({
            let (toks, errs) = scan_all_spec(contents@, 0, 1);
            if errs.len() > 0 {
                &&& (r.1 matches Result::Err(m) && m@ == join_errs(errs))
                &&& r.0@.len() == 0
            } else {
                ||| ((r.1 matches Result::Err(_)) && r.0@.len() == 0)
                ||| (exists |clock: i64, stmts: Seq<Stmt>, st2: StateM, tbl1: TableM|
                    #[trigger] staged_outcome(
                        stmts,
                        init_state(clock),
                        Map::empty(),
                        st2,
                        tbl1,
                        r.1 is Ok,
                        msg_of(r.1),
                    ) && st2.output == r.0.deep_view())
            }
        }),
{
    let mut interpreter = Interpreter::new();
    let ghost clock = interpreter.clock;
    proof {
        assert(interpreter.state() =~= init_state(clock));
    }
    let r = run(&mut interpreter, contents);
    proof {
        let (toks, errs) = scan_all_spec(contents@, 0, 1);
        assert(interpreter.output.deep_view() == interpreter.state().output);
        assert(interpreter.output.deep_view().len() == interpreter.output@.len());
        if contents@.len() == 0 {
            assert(interpreter.state().output =~= Seq::<Seq<char>>::empty());
        }
        if errs.len() > 0 {
            assert(interpreter.state() == init_state(clock));
            assert(interpreter.output.deep_view() =~= Seq::<Seq<char>>::empty());
            assert(interpreter.output@.len() == 0);
        } else {
            if (r matches Result::Err(_)) && interpreter.state() == init_state(clock) {
                assert(interpreter.output.deep_view() =~= Seq::<Seq<char>>::empty());
                assert(interpreter.output@.len() == 0);
            } else {
                let stmts = choose |stmts: Seq<Stmt>|
                    #[trigger] staged_outcome(
                        stmts,
                        init_state(clock),
                        Map::empty(),
                        interpreter.state(),
                        interpreter.locals@,
                        r is Ok,
                        msg_of(r),
                    );
                assert(staged_outcome(
                    stmts,
                    init_state(clock),
                    Map::empty(),
                    interpreter.state(),
                    interpreter.locals@,
                    r is Ok,
                    msg_of(r),
                ));
            }
        }
    }
    (interpreter.output, r)
}

} // verus!
