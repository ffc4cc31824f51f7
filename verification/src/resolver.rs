//! The static scope resolver.
//!
//! A single pre-execution pass over the statements that computes, for
//! every variable use and assignment, the lexical distance — the
//! number of enclosing scopes between the use site and the scope that
//! binds the name — and registers it with the interpreter, keyed by
//! the expression's id. Globals are not tracked statically: a name
//! bound in no open scope gets no entry and is resolved against the
//! global frame at run time.
//!
//! The pass is specified by the `resolve_*_spec` functions, which
//! thread the scope stack and the distance table through the tree; the
//! executable resolver is proved to compute exactly that.

use crate::expr::Expr;
use crate::interpreter::Interpreter;
use crate::scanner::Token;
use crate::stmt::Stmt;
use vstd::prelude::*;

verus! {

/// The one resolution error: reading a local variable from within its
/// own initializer.
pub open spec fn resolution_err() -> Seq<char> {
    "Can't read local variable in its own initializer"@
}

/// The scope stack model: one map per open scope, innermost last; a
/// name maps to `true` once its initializer is fully resolved.
pub type ScopesM = Seq<Map<Seq<char>, bool>>;

/// The distance table model.
pub type TableM = Map<usize, usize>;

/// A scope map from parallel name/flag vectors; later entries win,
/// though well-formed scopes have unique names.
pub open spec fn scope_map(names: Seq<String>, flags: Seq<bool>) -> Map<Seq<char>, bool>
    decreases names.len(),
{
    if names.len() == 0 || names.len() != flags.len() {
        Map::empty()
    } else {
        scope_map(names.drop_last(), flags.drop_last()).insert(names.last()@, flags.last())
    }
}

/// One open scope: names declared in it, each with its "ready" flag.
pub struct Scope {
    pub names: Vec<String>,
    pub flags: Vec<bool>,
}

impl View for Scope {
    type V = Map<Seq<char>, bool>;

    open spec fn view(&self) -> Map<Seq<char>, bool> {
        scope_map(self.names@, self.flags@)
    }
}

impl Scope {
    /// Well-formed: parallel vectors of one length, names unique.
    pub open spec fn wf(&self) -> bool {
        &&& self.names@.len() == self.flags@.len()
        &&& forall|i: int, j: int|
            0 <= i < j < self.names@.len() ==> self.names@[i]@ != self.names@[j]@
    }
}

proof fn lemma_scope_map_found(names: Seq<String>, flags: Seq<bool>, i: int)
    requires
        names.len() == flags.len(),
        0 <= i < names.len(),
        forall|a: int, b: int| 0 <= a < b < names.len() ==> names[a]@ != names[b]@,
    ensures
        scope_map(names, flags).contains_key(names[i]@),
        scope_map(names, flags)[names[i]@] == flags[i],
    decreases names.len(),
{
    if i == names.len() - 1 {
    } else {
        lemma_scope_map_found(names.drop_last(), flags.drop_last(), i);
    }
}

proof fn lemma_scope_map_missing(names: Seq<String>, flags: Seq<bool>, key: Seq<char>)
    requires
        names.len() == flags.len(),
        forall|a: int| 0 <= a < names.len() ==> names[a]@ != key,
    ensures
        !scope_map(names, flags).contains_key(key),
    decreases names.len(),
{
    if names.len() > 0 {
        lemma_scope_map_missing(names.drop_last(), flags.drop_last(), key);
    }
}

proof fn lemma_scope_map_update(names: Seq<String>, flags: Seq<bool>, i: int, f: bool)
    requires
        names.len() == flags.len(),
        0 <= i < names.len(),
        forall|a: int, b: int| 0 <= a < b < names.len() ==> names[a]@ != names[b]@,
    ensures
        scope_map(names, flags.update(i, f)) == scope_map(names, flags).insert(names[i]@, f),
    decreases names.len(),
{
    let upd = flags.update(i, f);
    if i == names.len() - 1 {
        assert(upd.drop_last() =~= flags.drop_last());
        assert(scope_map(names, upd) =~= scope_map(names, flags).insert(names[i]@, f));
    } else {
        assert(upd.drop_last() =~= flags.drop_last().update(i, f));
        lemma_scope_map_update(names.drop_last(), flags.drop_last(), i, f);
        assert(scope_map(names, upd) =~= scope_map(names, flags).insert(names[i]@, f));
    }
}

impl Scope {
    /// The flag recorded for `name` in this scope, if declared here.
    fn get(&self, name: &String) -> (r: Option<bool>)
        requires
            self.wf(),
        ensures
            match r {
                Option::Some(b) => self@.contains_key(name@) && self@[name@] == b,
                Option::None => !self@.contains_key(name@),
            },
    {
        let mut i: usize = 0;
        while i < self.names.len()
            invariant
                self.wf(),
                i <= self.names@.len(),
                forall|a: int| 0 <= a < i ==> self.names@[a]@ != name@,
            decreases self.names@.len() - i,
        {
            if self.names[i] == *name {
                proof {
                    lemma_scope_map_found(self.names@, self.flags@, i as int);
                }
                return Option::Some(self.flags[i]);
            }
            i = i + 1;
        }
        proof {
            lemma_scope_map_missing(self.names@, self.flags@, name@);
        }
        Option::None
    }

    /// Declares or re-flags `name` in this scope.
    fn set(&mut self, name: String, flag: bool)
        requires
            old(self).wf(),
        ensures
            final(self).wf(),
            final(self)@ == old(self)@.insert(name@, flag),
    {
        let mut i: usize = 0;
        while i < self.names.len()
            invariant
                self.wf(),
                self.names@ == old(self).names@,
                self.flags@ == old(self).flags@,
                i <= self.names@.len(),
                forall|a: int| 0 <= a < i ==> self.names@[a]@ != name@,
            decreases self.names@.len() - i,
        {
            if self.names[i] == name {
                proof {
                    lemma_scope_map_update(self.names@, self.flags@, i as int, flag);
                }
                self.flags[i] = flag;
                return ;
            }
            i = i + 1;
        }
        proof {
            lemma_scope_map_missing(self.names@, self.flags@, name@);
        }
        let ghost old_names = self.names@;
        let ghost old_flags = self.flags@;
        self.names.push(name);
        self.flags.push(flag);
        proof {
            assert(self.names@.drop_last() =~= old_names);
            assert(self.flags@.drop_last() =~= old_flags);
            assert(self@ =~= old(self)@.insert(name@, flag));
        }
    }
}

/// Declares `name` in the innermost scope, not yet ready; at global
/// scope (no open scope) nothing is tracked.
pub open spec fn declare_spec(sc: ScopesM, name: Seq<char>) -> ScopesM {
    if sc.len() == 0 {
        sc
    } else {
        sc.update(sc.len() - 1, sc.last().insert(name, false))
    }
}

/// Marks `name` ready in the innermost scope; at global scope nothing
/// is tracked.
pub open spec fn define_spec(sc: ScopesM, name: Seq<char>) -> ScopesM {
    if sc.len() == 0 {
        sc
    } else {
        sc.update(sc.len() - 1, sc.last().insert(name, true))
    }
}

/// Closes the innermost scope.
pub open spec fn pop_scope(sc: ScopesM) -> ScopesM {
    if sc.len() == 0 {
        sc
    } else {
        sc.drop_last()
    }
}

/// The innermost scope index at or below `i` that declares `name`.
pub open spec fn find_scope(sc: ScopesM, name: Seq<char>, i: int) -> Option<int>
    decreases i + 1,
{
    if i < 0 || i >= sc.len() {
        Option::None
    } else if sc[i].contains_key(name) {
        Option::Some(i)
    } else {
        find_scope(sc, name, i - 1)
    }
}

/// Records the lexical distance for expression id `id`: the hop count
/// from the innermost scope to the innermost scope declaring `name`.
/// A name declared in no open scope is assumed global and gets no
/// entry.
pub open spec fn resolve_local_spec(sc: ScopesM, tbl: TableM, id: usize, name: Seq<char>) -> TableM {
    match find_scope(sc, name, sc.len() - 1) {
        Option::None => tbl,
        Option::Some(i) => tbl.insert(id, (sc.len() - 1 - i) as usize),
    }
}

/// Declares and defines every parameter in the map of a fresh scope.
pub open spec fn params_scope(params: Seq<Token>) -> Map<Seq<char>, bool>
    decreases params.len(),
{
    if params.len() == 0 {
        Map::empty()
    } else {
        params_scope(params.drop_last()).insert(params.last().lexeme@, true)
    }
}

/// Resolves one expression: on success, the scope stack and table it
/// leaves; on the one resolution error, the scope stack and table at
/// the moment of failure — the failing use itself gets no entry, and
/// nothing after it is resolved.
pub open spec fn resolve_expr_spec(e: Expr, sc: ScopesM, tbl: TableM) -> Result<
    (ScopesM, TableM),
    (ScopesM, TableM),
>
    decreases e, 0int,
{
    match e {
        Expr::Literal { id, value } => Result::Ok((sc, tbl)),
        Expr::Grouping { id, expression } => resolve_expr_spec(*expression, sc, tbl),
        Expr::Unary { id, operator, right } => resolve_expr_spec(*right, sc, tbl),
        Expr::Binary { id, left, operator, right } => {
            match resolve_expr_spec(*left, sc, tbl) {
                Result::Err(h) => Result::Err(h),
                Result::Ok((sc1, t1)) => resolve_expr_spec(*right, sc1, t1),
            }
        },
        Expr::Logical { id, left, operator, right } => {
            match resolve_expr_spec(*left, sc, tbl) {
                Result::Err(h) => Result::Err(h),
                Result::Ok((sc1, t1)) => resolve_expr_spec(*right, sc1, t1),
            }
        },
        Expr::Variable { id, name } => {
            if sc.len() > 0 && sc.last().contains_key(name.lexeme@) && sc.last()[name.lexeme@]
                == false {
                Result::Err((sc, tbl))
            } else {
                Result::Ok((sc, resolve_local_spec(sc, tbl, id, name.lexeme@)))
            }
        },
        Expr::Assign { id, name, value } => {
            match resolve_expr_spec(*value, sc, tbl) {
                Result::Err(h) => Result::Err(h),
                Result::Ok((sc1, t1)) => Result::Ok(
                    (sc1, resolve_local_spec(sc1, t1, id, name.lexeme@)),
                ),
            }
        },
        Expr::Call { id, callee, paren, arguments } => {
            let after_callee = match *callee {
                Expr::Variable { id: _, name } => Result::Ok(
                    (sc, resolve_local_spec(sc, tbl, id, name.lexeme@)),
                ),
                _ => resolve_expr_spec(*callee, sc, tbl),
            };
            match after_callee {
                Result::Err(h) => Result::Err(h),
                Result::Ok((sc1, t1)) => resolve_exprs_spec(arguments@, 0, sc1, t1),
            }
        },
        Expr::AnonFunction { id, paren, arguments, body } => resolve_fun_spec(
            arguments@,
            body@,
            sc,
            tbl,
        ),
    }
}

/// Resolves the expressions of `es` from index `i` on, in order.
pub open spec fn resolve_exprs_spec(es: Seq<Expr>, i: int, sc: ScopesM, tbl: TableM) -> Result<
    (ScopesM, TableM),
    (ScopesM, TableM),
>
    decreases es, es.len() - i,
{
    if i < 0 || i >= es.len() {
        Result::Ok((sc, tbl))
    } else {
        match resolve_expr_spec(es[i], sc, tbl) {
            Result::Err(h) => Result::Err(h),
            Result::Ok((sc1, t1)) => resolve_exprs_spec(es, i + 1, sc1, t1),
        }
    }
}

/// Resolves a function body: opens a scope, declares and defines every
/// parameter, resolves the body, closes the scope.
pub open spec fn resolve_fun_spec(params: Seq<Token>, body: Seq<Stmt>, sc: ScopesM, tbl: TableM) -> Result<
    (ScopesM, TableM),
    (ScopesM, TableM),
>
    decreases body, body.len() + 1,
{
    let sc1 = sc.push(params_scope(params));
    match resolve_stmts_spec(body, 0, sc1, tbl) {
        Result::Err(h) => Result::Err(h),
        Result::Ok((sc2, t2)) => Result::Ok((pop_scope(sc2), t2)),
    }
}

/// Resolves one statement.
pub open spec fn resolve_stmt_spec(s: Stmt, sc: ScopesM, tbl: TableM) -> Result<
    (ScopesM, TableM),
    (ScopesM, TableM),
>
    decreases s, 1int,
{
    match s {
        Stmt::Expression { expression } => resolve_expr_spec(expression, sc, tbl),
        Stmt::Print { expression } => resolve_expr_spec(expression, sc, tbl),
        Stmt::Var { name, initializer } => {
            let sc1 = declare_spec(sc, name.lexeme@);
            match resolve_expr_spec(initializer, sc1, tbl) {
                Result::Err(h) => Result::Err(h),
                Result::Ok((sc2, t2)) => Result::Ok((define_spec(sc2, name.lexeme@), t2)),
            }
        },
        Stmt::Block { statements } => {
            let sc1 = sc.push(Map::empty());
            match resolve_stmts_spec(statements@, 0, sc1, tbl) {
                Result::Err(h) => Result::Err(h),
                Result::Ok((sc2, t2)) => Result::Ok((pop_scope(sc2), t2)),
            }
        },
        Stmt::IfStmt { predicate, then_branch, els } => {
            match resolve_expr_spec(predicate, sc, tbl) {
                Result::Err(h) => Result::Err(h),
                Result::Ok((sc1, t1)) => match resolve_stmt_spec(*then_branch, sc1, t1) {
                    Result::Err(h) => Result::Err(h),
                    Result::Ok((sc2, t2)) => match els {
                        Option::None => Result::Ok((sc2, t2)),
                        Option::Some(e) => resolve_stmt_spec(*e, sc2, t2),
                    },
                },
            }
        },
        Stmt::WhileStmt { condition, body } => {
            match resolve_expr_spec(condition, sc, tbl) {
                Result::Err(h) => Result::Err(h),
                Result::Ok((sc1, t1)) => resolve_stmt_spec(*body, sc1, t1),
            }
        },
        Stmt::Function { name, params, body } => {
            let sc1 = define_spec(declare_spec(sc, name.lexeme@), name.lexeme@);
            resolve_fun_spec(params@, body@, sc1, tbl)
        },
        Stmt::ReturnStmt { keyword, value } => match value {
            Option::None => Result::Ok((sc, tbl)),
            Option::Some(e) => resolve_expr_spec(e, sc, tbl),
        },
    }
}

/// Resolves the statements of `ss` from index `i` on, in order.
pub open spec fn resolve_stmts_spec(ss: Seq<Stmt>, i: int, sc: ScopesM, tbl: TableM) -> Result<
    (ScopesM, TableM),
    (ScopesM, TableM),
>
    decreases ss, ss.len() - i,
{
    if i < 0 || i >= ss.len() {
        Result::Ok((sc, tbl))
    } else {
        match resolve_stmt_spec(ss[i], sc, tbl) {
            Result::Err(h) => Result::Err(h),
            Result::Ok((sc1, t1)) => resolve_stmts_spec(ss, i + 1, sc1, t1),
        }
    }
}

/// The static resolver: a stack of open scopes. The distances it
/// computes go straight into the interpreter's table through
/// [`Interpreter::resolve`].
pub struct Resolver {
    pub scopes: Vec<Scope>,
}

impl View for Resolver {
    type V = ScopesM;

    open spec fn view(&self) -> ScopesM {
        self.scopes@.map_values(|s: Scope| s@)
    }
}

impl Resolver {
    /// Well-formed: every open scope is.
    pub open spec fn wf(&self) -> bool {
        forall|i: int| 0 <= i < self.scopes@.len() ==> (#[trigger] self.scopes@[i]).wf()
    }

    /// A fresh resolver with no open scope: global scope.
    pub fn new() -> (r: Resolver)
        ensures
            r.wf(),
            r@ =~= Seq::<Map<Seq<char>, bool>>::empty(),
    {
        let r = Resolver { scopes: Vec::new() };
        proof {
            assert(r@ =~= Seq::<Map<Seq<char>, bool>>::empty());
        }
        r
    }

    fn begin_scope(&mut self)
        requires
            old(self).wf(),
        ensures
            final(self).wf(),
            final(self)@ =~= old(self)@.push(Map::empty()),
    {
        let s = Scope { names: Vec::new(), flags: Vec::new() };
        proof {
            assert(s@ =~= Map::<Seq<char>, bool>::empty());
        }
        self.scopes.push(s);
        proof {
            assert(self@ =~= old(self)@.push(Map::empty()));
        }
    }

    fn end_scope(&mut self)
        requires
            old(self).wf(),
        ensures
            final(self).wf(),
            final(self)@ =~= pop_scope(old(self)@),
    {
        if self.scopes.len() > 0 {
            self.scopes.pop();
            proof {
                assert(self@ =~= old(self)@.drop_last());
            }
        }
    }

    fn declare(&mut self, name: &Token)
        requires
            old(self).wf(),
        ensures
            final(self).wf(),
            final(self)@ =~= declare_spec(old(self)@, name.lexeme@),
    {
        let n = self.scopes.len();
        if n == 0 {
            return ;
        }
        self.scopes[n - 1].set(name.lexeme.clone(), false);
        proof {
            assert(self@ =~= declare_spec(old(self)@, name.lexeme@));
        }
    }

    fn define(&mut self, name: &Token)
        requires
            old(self).wf(),
        ensures
            final(self).wf(),
            final(self)@ =~= define_spec(old(self)@, name.lexeme@),
    {
        let n = self.scopes.len();
        if n == 0 {
            return ;
        }
        self.scopes[n - 1].set(name.lexeme.clone(), true);
        proof {
            assert(self@ =~= define_spec(old(self)@, name.lexeme@));
        }
    }

    /// Searches the open scopes innermost to outermost for `name` and
    /// registers the hop count against `id`; a name found nowhere is
    /// assumed global and gets no entry.
    fn resolve_local(&mut self, interpreter: &mut Interpreter, id: usize, name: &Token)
        requires
            old(self).wf(),
            old(interpreter).wf(),
        ensures
            final(self).wf(),
            final(interpreter).wf(),
            final(self)@ == old(self)@,
            final(interpreter).state() == old(interpreter).state(),
            final(interpreter).locals@ == resolve_local_spec(
                old(self)@,
                old(interpreter).locals@,
                id,
                name.lexeme@,
            ),
    {
        let n = self.scopes.len();
        let mut i: usize = n;
        while i > 0
            invariant
                self.wf(),
                interpreter.wf(),
                interpreter.locals@ == old(interpreter).locals@,
                interpreter.state() == old(interpreter).state(),
                i <= n,
                n == self.scopes@.len(),
                self@ == old(self)@,
                find_scope(self@, name.lexeme@, self@.len() - 1) == find_scope(
                    self@,
                    name.lexeme@,
                    i - 1,
                ),
            decreases i,
        {
            proof {
                assert(self@[i - 1] == self.scopes@[i - 1]@);
            }
            let found = self.scopes[i - 1].get(&name.lexeme);
            if found.is_some() {
                let d = n - i;
                let _r = interpreter.resolve(id, d);
                return ;
            }
            i = i - 1;
        }
    }
}


impl Resolver {
    /// Resolves one expression, registering distances with the
    /// interpreter: exactly the pass [`resolve_expr_spec`] describes.
    fn resolve_expr(&mut self, expr: &Expr, interpreter: &mut Interpreter) -> (r: Result<
        (),
        String,
    >)
        requires
            old(self).wf(),
            old(interpreter).wf(),
        ensures
            final(self).wf(),
            final(interpreter).wf(),
            final(interpreter).state() == old(interpreter).state(),
            match resolve_expr_spec(*expr, old(self)@, old(interpreter).locals@) {
                Result::Ok((sc2, t2)) => r is Ok && final(self)@ == sc2 && final(interpreter).locals@ == t2,
                Result::Err((sce, te)) => (r matches Result::Err(m) && m@ == resolution_err())
                    && final(self)@ == sce && final(interpreter).locals@ == te,
            },
        decreases *expr, 0int,
    {
        match expr {
            Expr::Literal { id, value } => Result::Ok(()),
            Expr::Grouping { id, expression } => self.resolve_expr(expression, interpreter),
            Expr::Unary { id, operator, right } => self.resolve_expr(right, interpreter),
            Expr::Binary { id, left, operator, right } => {
                let r1 = self.resolve_expr(left, interpreter);
                match r1 {
                    Result::Err(m) => Result::Err(m),
                    Result::Ok(()) => self.resolve_expr(right, interpreter),
                }
            },
            Expr::Logical { id, left, operator, right } => {
                let r1 = self.resolve_expr(left, interpreter);
                match r1 {
                    Result::Err(m) => Result::Err(m),
                    Result::Ok(()) => self.resolve_expr(right, interpreter),
                }
            },
            Expr::Variable { id, name } => {
                let n = self.scopes.len();
                if n > 0 {
                    proof {
                        assert(self@[n - 1] == self.scopes@[n - 1]@);
                        assert(self@.last() == self.scopes@[n - 1]@);
                    }
                    let flag = self.scopes[n - 1].get(&name.lexeme);
                    match flag {
                        Option::Some(false) => {
                            return Result::Err(
                                "Can't read local variable in its own initializer".to_owned(),
                            );
                        },
                        _ => {},
                    }
                }
                self.resolve_local(interpreter, expr.get_id(), name);
                Result::Ok(())
            },
            Expr::Assign { id, name, value } => {
                let r1 = self.resolve_expr(value, interpreter);
                match r1 {
                    Result::Err(m) => Result::Err(m),
                    Result::Ok(()) => {
                        self.resolve_local(interpreter, expr.get_id(), name);
                        Result::Ok(())
                    },
                }
            },
            Expr::Call { id, callee, paren, arguments } => {
                let r1 = match &**callee {
                    Expr::Variable { id: _, name } => {
                        self.resolve_local(interpreter, expr.get_id(), name);
                        Result::Ok(())
                    },
                    _ => self.resolve_expr(&**callee, interpreter),
                };
                match r1 {
                    Result::Err(m) => Result::Err(m),
                    Result::Ok(()) => self.resolve_exprs(arguments, 0, interpreter),
                }
            },
            Expr::AnonFunction { id, paren, arguments, body } => {
                self.resolve_function_helper(&*(*arguments), &*(*body), interpreter)
            },
        }
    }

    /// Resolves the expressions of `es` from index `i` on.
    fn resolve_exprs(&mut self, es: &Vec<Expr>, i: usize, interpreter: &mut Interpreter) -> (r:
        Result<(), String>)
        requires
            old(self).wf(),
            old(interpreter).wf(),
            i <= es@.len(),
        ensures
            final(self).wf(),
            final(interpreter).wf(),
            final(interpreter).state() == old(interpreter).state(),
            match resolve_exprs_spec(es@, i as int, old(self)@, old(interpreter).locals@) {
                Result::Ok((sc2, t2)) => r is Ok && final(self)@ == sc2 && final(interpreter).locals@ == t2,
                Result::Err((sce, te)) => (r matches Result::Err(m) && m@ == resolution_err())
                    && final(self)@ == sce && final(interpreter).locals@ == te,
            },
        decreases es@, es@.len() - i,
    {
        if i >= es.len() {
            Result::Ok(())
        } else {
            let r1 = self.resolve_expr(&es[i], interpreter);
            match r1 {
                Result::Err(m) => Result::Err(m),
                Result::Ok(()) => self.resolve_exprs(es, i + 1, interpreter),
            }
        }
    }

    /// Resolves a function body: a fresh scope with every parameter
    /// declared and defined, then the body, then the scope closes.
    fn resolve_function_helper(
        &mut self,
        params: &Vec<Token>,
        body: &Vec<Stmt>,
        interpreter: &mut Interpreter,
    ) -> (r: Result<(), String>)
        requires
            old(self).wf(),
            old(interpreter).wf(),
        ensures
            final(self).wf(),
            final(interpreter).wf(),
            final(interpreter).state() == old(interpreter).state(),
            match resolve_fun_spec(params@, body@, old(self)@, old(interpreter).locals@) {
                Result::Ok((sc2, t2)) => r is Ok && final(self)@ == sc2 && final(interpreter).locals@ == t2,
                Result::Err((sce, te)) => (r matches Result::Err(m) && m@ == resolution_err())
                    && final(self)@ == sce && final(interpreter).locals@ == te,
            },
        decreases body@, body@.len() + 1,
    {
        let ghost sc0 = self@;
        self.begin_scope();
        let mut j: usize = 0;
        while j < params.len()
            invariant
                self.wf(),
                interpreter.wf(),
                interpreter.locals@ == old(interpreter).locals@,
                interpreter.state() == old(interpreter).state(),
                j <= params@.len(),
                self@ == sc0.push(params_scope(params@.take(j as int))),
            decreases params@.len() - j,
        {
            proof {
                assert(params@.take(j + 1).drop_last() =~= params@.take(j as int));
                assert(params@.take(j + 1).last() == params@[j as int]);
            }
            let name = params[j].clone();
            self.declare(&name);
            self.define(&name);
            proof {
                assert(self@ =~~= sc0.push(params_scope(params@.take(j + 1))));
            }
            j = j + 1;
        }
        proof {
            assert(params@.take(params@.len() as int) =~= params@);
        }
        let r1 = self.resolve_seq(body, 0, interpreter);
        match r1 {
            Result::Err(m) => Result::Err(m),
            Result::Ok(()) => {
                self.end_scope();
                Result::Ok(())
            },
        }
    }

    /// Resolves one statement: exactly the pass [`resolve_stmt_spec`]
    /// describes.
    pub fn resolve(&mut self, stmt: &Stmt, interpreter: &mut Interpreter) -> (r: Result<
        (),
        String,
    >)
        requires
            old(self).wf(),
            old(interpreter).wf(),
        ensures
            final(self).wf(),
            final(interpreter).wf(),
            final(interpreter).state() == old(interpreter).state(),
            match resolve_stmt_spec(*stmt, old(self)@, old(interpreter).locals@) {
                Result::Ok((sc2, t2)) => r is Ok && final(self)@ == sc2 && final(interpreter).locals@ == t2,
                Result::Err((sce, te)) => (r matches Result::Err(m) && m@ == resolution_err())
                    && final(self)@ == sce && final(interpreter).locals@ == te,
            },
        decreases *stmt, 1int,
    {
        match stmt {
            Stmt::Expression { expression } => self.resolve_expr(expression, interpreter),
            Stmt::Print { expression } => self.resolve_expr(expression, interpreter),
            Stmt::Var { name, initializer } => {
                self.declare(name);
                let r1 = self.resolve_expr(initializer, interpreter);
                match r1 {
                    Result::Err(m) => Result::Err(m),
                    Result::Ok(()) => {
                        self.define(name);
                        Result::Ok(())
                    },
                }
            },
            Stmt::Block { statements } => {
                self.begin_scope();
                let r1 = self.resolve_seq(statements, 0, interpreter);
                match r1 {
                    Result::Err(m) => Result::Err(m),
                    Result::Ok(()) => {
                        self.end_scope();
                        Result::Ok(())
                    },
                }
            },
            Stmt::IfStmt { predicate, then_branch, els } => {
                let r1 = self.resolve_expr(predicate, interpreter);
                match r1 {
                    Result::Err(m) => Result::Err(m),
                    Result::Ok(()) => {
                        let r2 = self.resolve(&**then_branch, interpreter);
                        match r2 {
                            Result::Err(m) => Result::Err(m),
                            Result::Ok(()) => match els {
                                Option::None => Result::Ok(()),
                                Option::Some(e) => self.resolve(&**e, interpreter),
                            },
                        }
                    },
                }
            },
            Stmt::WhileStmt { condition, body } => {
                let r1 = self.resolve_expr(condition, interpreter);
                match r1 {
                    Result::Err(m) => Result::Err(m),
                    Result::Ok(()) => self.resolve(&**body, interpreter),
                }
            },
            Stmt::Function { name, params, body } => {
                self.declare(name);
                self.define(name);
                self.resolve_function_helper(&*(*params), &*(*body), interpreter)
            },
            Stmt::ReturnStmt { keyword, value } => match value {
                Option::None => Result::Ok(()),
                Option::Some(e) => self.resolve_expr(e, interpreter),
            },
        }
    }

    /// Resolves the statements of `ss` from index `i` on.
    fn resolve_seq(&mut self, ss: &Vec<Stmt>, i: usize, interpreter: &mut Interpreter) -> (r:
        Result<(), String>)
        requires
            old(self).wf(),
            old(interpreter).wf(),
            i <= ss@.len(),
        ensures
            final(self).wf(),
            final(interpreter).wf(),
            final(interpreter).state() == old(interpreter).state(),
            match resolve_stmts_spec(ss@, i as int, old(self)@, old(interpreter).locals@) {
                Result::Ok((sc2, t2)) => r is Ok && final(self)@ == sc2 && final(interpreter).locals@ == t2,
                Result::Err((sce, te)) => (r matches Result::Err(m) && m@ == resolution_err())
                    && final(self)@ == sce && final(interpreter).locals@ == te,
            },
        decreases ss@, ss@.len() - i,
    {
        if i >= ss.len() {
            Result::Ok(())
        } else {
            let r1 = self.resolve(&ss[i], interpreter);
            match r1 {
                Result::Err(m) => Result::Err(m),
                Result::Ok(()) => self.resolve_seq(ss, i + 1, interpreter),
            }
        }
    }

    /// Resolves a whole statement sequence, in order.
    pub fn resolve_many(&mut self, stmts: &Vec<Stmt>, interpreter: &mut Interpreter) -> (r: Result<
        (),
        String,
    >)
        requires
            old(self).wf(),
            old(interpreter).wf(),
        ensures
            final(self).wf(),
            final(interpreter).wf(),
            final(interpreter).state() == old(interpreter).state(),
            match resolve_stmts_spec(stmts@, 0, old(self)@, old(interpreter).locals@) {
                Result::Ok((sc2, t2)) => r is Ok && final(self)@ == sc2 && final(interpreter).locals@ == t2,
                Result::Err((sce, te)) => (r matches Result::Err(m) && m@ == resolution_err())
                    && final(self)@ == sce && final(interpreter).locals@ == te,
            },
    {
        self.resolve_seq(stmts, 0, interpreter)
    }
}

} // verus!
