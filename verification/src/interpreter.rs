//! The tree-walking interpreter, proved to compute what
//! [`crate::semantics`] defines.

use vstd::prelude::*;
use vstd::hash_map::StringHashMap;
use crate::arith::{wrapping_add, wrapping_div, wrapping_mul, wrapping_neg, wrapping_sub};
use crate::ast::{
    exprs_view, functions_view, stmts_view, BinOp, Expr, ExprView, Function, FunctionView,
    LogicalOp, Stmt, UnaryOp,
};
use crate::env::{table_view, Environment};
use crate::semantics::{
    bind, binary_value, eval, eval_args, exec, loop_body, loop_condition, loop_update, outcome,
    register, repeat, run, Completion, Executed, Functions, Locals, RuntimeError,
    RuntimeErrorView, Value,
};

verus! {

/// How deep calls may nest in a run of [`Interpreter::new`].
pub const DEFAULT_MAX_DEPTH: u64 = 256;

/// How often a loop may run its body in a run of [`Interpreter::new`].
pub const DEFAULT_MAX_ITERATIONS: u64 = 0xffff_ffff_ffff_ffff;

/// What a result of the interpreter denotes: an error by its view.
pub open spec fn denoted<T>(r: Result<T, RuntimeError>) -> Result<T, RuntimeErrorView> {
    match r {
        Ok(v) => Ok(v),
        Err(e) => Err(e@),
    }
}

/// The interpreter: an environment and the two bounds of a run.
pub struct Interpreter {
    env: Environment,
    max_depth: u64,
    max_iterations: u64,
}

impl Interpreter {
    /// The functions entered so far.
    pub closed spec fn functions(&self) -> Functions {
        self.env.functions()
    }

    /// The variables that the runs so far have left.
    pub closed spec fn locals(&self) -> Locals {
        self.env.locals()
    }

    /// How deep calls may nest.
    pub closed spec fn max_depth(&self) -> nat {
        self.max_depth as nat
    }

    /// How often a loop may run its body.
    pub closed spec fn max_iterations(&self) -> nat {
        self.max_iterations as nat
    }

    /// An interpreter without functions or variables, with the default bounds.
    pub fn new() -> (interpreter: Self)
        ensures
            interpreter.functions() == Map::<Seq<char>, FunctionView>::empty(),
            interpreter.locals() == Map::<Seq<char>, Value>::empty(),
            interpreter.max_depth() == DEFAULT_MAX_DEPTH,
            interpreter.max_iterations() == DEFAULT_MAX_ITERATIONS,
    {
        Interpreter {
            env: Environment::new(),
            max_depth: DEFAULT_MAX_DEPTH,
            max_iterations: DEFAULT_MAX_ITERATIONS,
        }
    }

    /// An interpreter without functions or variables, with the given bounds.
    pub fn with_limits(max_depth: u64, max_iterations: u64) -> (interpreter: Self)
        ensures
            interpreter.functions() == Map::<Seq<char>, FunctionView>::empty(),
            interpreter.locals() == Map::<Seq<char>, Value>::empty(),
            interpreter.max_depth() == max_depth,
            interpreter.max_iterations() == max_iterations,
    {
        Interpreter { env: Environment::new(), max_depth, max_iterations }
    }

    /// Enters `funcoes` in the table of functions, then runs `main_body`.
    ///
    /// Of two functions of one name the later one stays. The statements run
    /// on the variables that earlier runs of this interpreter have left. The
    /// result is the value of the first `return` met, or else of the last
    /// statement, or else `Void`.
    pub fn interpret(&mut self, funcoes: Vec<Function>, main_body: Vec<Stmt>) -> (r: Result<
        Value,
        RuntimeError,
    >)
        ensures
            final(self).max_depth() == old(self).max_depth(),
            final(self).max_iterations() == old(self).max_iterations(),
            final(self).functions() == register(
                old(self).functions(),
                functions_view(funcoes@),
                funcoes@.len(),
            ),
            final(self).locals() == run(
                final(self).functions(),
                old(self).locals(),
                stmts_view(main_body@),
                0,
                Value::Void,
                old(self).max_depth(),
                old(self).max_iterations(),
            ).locals,
            denoted(r) == outcome(
                final(self).functions(),
                old(self).locals(),
                stmts_view(main_body@),
                old(self).max_depth(),
                old(self).max_iterations(),
            ),
    {
        let ghost table = self.env.functions();
        let ghost all = functions_view(funcoes@);
        for func in it: funcoes.into_iter()
            invariant
                it.seq() == funcoes@,
                all == functions_view(funcoes@),
                table == old(self).functions(),
                self.env.locals() == old(self).env.locals(),
                self.max_depth == old(self).max_depth,
                self.max_iterations == old(self).max_iterations,
                self.env.functions() == register(table, all, it.index() as nat),
        {
            self.env.define(func);
        }
        match Self::execute_statements(
            &self.env.functions,
            &mut self.env.locals,
            &main_body,
            self.max_depth,
            self.max_iterations,
        ) {
            Ok(c) => Ok(c.into_value()),
            Err(e) => Err(e),
        }
    }

    /// Runs `statements` in order on `locals`.
    pub fn execute_statements(
        functions: &StringHashMap<Function>,
        locals: &mut StringHashMap<Value>,
        statements: &Vec<Stmt>,
        depth: u64,
        loops: u64,
    ) -> (r: Result<Completion, RuntimeError>)
        ensures
            (Executed { locals: final(locals)@, result: denoted(r) }) == run(
                table_view(functions@),
                old(locals)@,
                stmts_view(statements@),
                0,
                Value::Void,
                depth as nat,
                loops as nat,
            ),
        decreases depth, 1nat, statements, statements@.len(),
    {
        let ghost table = table_view(functions@);
        let ghost block = stmts_view(statements@);
        let mut last = Value::Void;
        let mut i: usize = 0;
        while i < statements.len()
            invariant
                i <= statements@.len(),
                table == table_view(functions@),
                block == stmts_view(statements@),
                run(table, old(locals)@, block, 0, Value::Void, depth as nat, loops as nat) == run(
                    table,
                    locals@,
                    block,
                    i as nat,
                    last,
                    depth as nat,
                    loops as nat,
                ),
            decreases statements@.len() - i,
        {
            match Self::execute_statement(functions, locals, &statements[i], depth, loops) {
                Ok(Completion::Normal(v)) => {
                    last = v;
                },
                Ok(Completion::Return(v)) => {
                    return Ok(Completion::Return(v));
                },
                Err(e) => {
                    return Err(e);
                },
            }
            i = i + 1;
        }
        Ok(Completion::Normal(last))
    }

    /// Runs one statement on `locals`.
    pub fn execute_statement(
        functions: &StringHashMap<Function>,
        locals: &mut StringHashMap<Value>,
        stmt: &Stmt,
        depth: u64,
        loops: u64,
    ) -> (r: Result<Completion, RuntimeError>)
        ensures
            (Executed { locals: final(locals)@, result: denoted(r) }) == exec(
                table_view(functions@),
                old(locals)@,
                stmt@,
                depth as nat,
                loops as nat,
            ),
        decreases depth, 1nat, stmt, loops + 1,
    {
        match stmt {
            Stmt::VarDecl { name, value } => {
                match Self::evaluate_expression(functions, locals, value, depth, loops) {
                    Ok(v) => {
                        locals.insert(name.clone(), v);
                        Ok(Completion::Normal(v))
                    },
                    Err(e) => Err(e),
                }
            },
            Stmt::Return(e) => {
                match Self::evaluate_expression(functions, locals, e, depth, loops) {
                    Ok(v) => Ok(Completion::Return(v)),
                    Err(e) => Err(e),
                }
            },
            Stmt::ExprStmt(e) => {
                match Self::evaluate_expression(functions, locals, e, depth, loops) {
                    Ok(v) => Ok(Completion::Normal(v)),
                    Err(e) => Err(e),
                }
            },
            Stmt::If { condition, then_branch, else_branch } => {
                match Self::evaluate_expression(functions, locals, condition, depth, loops) {
                    Ok(c) => {
                        if c.is_truthy() {
                            Self::execute_statements(functions, locals, then_branch, depth, loops)
                        } else {
                            match else_branch {
                                Some(b) => Self::execute_statements(
                                    functions,
                                    locals,
                                    b,
                                    depth,
                                    loops,
                                ),
                                None => Ok(Completion::Normal(Value::Void)),
                            }
                        }
                    },
                    Err(e) => Err(e),
                }
            },
            Stmt::While { condition, body } => {
                Self::execute_loop(
                    functions,
                    locals,
                    stmt,
                    Some(condition),
                    None,
                    body,
                    depth,
                    loops,
                )
            },
            Stmt::For { init, condition, update, body } => {
                match init {
                    Some(first) => {
                        match Self::execute_statement(functions, locals, first, depth, loops) {
                            Ok(Completion::Normal(_)) => {},
                            Ok(Completion::Return(v)) => {
                                return Ok(Completion::Return(v));
                            },
                            Err(e) => {
                                return Err(e);
                            },
                        }
                    },
                    None => {},
                }
                Self::execute_loop(
                    functions,
                    locals,
                    stmt,
                    condition.as_ref(),
                    update.as_ref(),
                    body,
                    depth,
                    loops,
                )
            },
        }
    }

    /// Runs the loop `stmt`, whose parts are `condition`, `update` and `body`,
    /// from the first test of its condition on.
    fn execute_loop(
        functions: &StringHashMap<Function>,
        locals: &mut StringHashMap<Value>,
        stmt: &Stmt,
        condition: Option<&Expr>,
        update: Option<&Expr>,
        body: &Vec<Stmt>,
        depth: u64,
        loops: u64,
    ) -> (r: Result<Completion, RuntimeError>)
        requires
            stmt is While || stmt is For,
            loop_condition(stmt@) == match condition {
                Some(c) => Some(c@),
                None => None,
            },
            loop_update(stmt@) == match update {
                Some(u) => Some(u@),
                None => None,
            },
            loop_body(stmt@) == stmts_view(body@),
            decreases_to!(stmt => body),
        ensures
            (Executed { locals: final(locals)@, result: denoted(r) }) == repeat(
                table_view(functions@),
                old(locals)@,
                stmt@,
                Value::Void,
                depth as nat,
                loops as nat,
                loops as nat,
            ),
        decreases depth, 1nat, stmt, loops,
    {
        let ghost table = table_view(functions@);
        let mut last = Value::Void;
        let mut n = loops;
        loop
            invariant
                stmt is While || stmt is For,
                table == table_view(functions@),
                loop_condition(stmt@) == match condition {
                    Some(c) => Some(c@),
                    None => None,
                },
                loop_update(stmt@) == match update {
                    Some(u) => Some(u@),
                    None => None,
                },
                loop_body(stmt@) == stmts_view(body@),
                decreases_to!(stmt => body),
                n <= loops,
                repeat(
                    table,
                    old(locals)@,
                    stmt@,
                    Value::Void,
                    depth as nat,
                    loops as nat,
                    loops as nat,
                ) == repeat(table, locals@, stmt@, last, depth as nat, loops as nat, n as nat),
            decreases n,
        {
            let go = match condition {
                Some(c) => match Self::evaluate_expression(functions, locals, c, depth, loops) {
                    Ok(v) => v.is_truthy(),
                    Err(e) => {
                        return Err(e);
                    },
                },
                None => true,
            };
            if !go {
                return Ok(Completion::Normal(last));
            }
            if n == 0 {
                return Err(RuntimeError::IterationLimit);
            }
            match Self::execute_statements(functions, locals, body, depth, loops) {
                Ok(Completion::Normal(v)) => {
                    last = v;
                },
                Ok(Completion::Return(v)) => {
                    return Ok(Completion::Return(v));
                },
                Err(e) => {
                    return Err(e);
                },
            }
            match update {
                Some(u) => match Self::evaluate_expression(functions, locals, u, depth, loops) {
                    Ok(_) => {},
                    Err(e) => {
                        return Err(e);
                    },
                },
                None => {},
            }
            n = n - 1;
        }
    }

    /// Evaluates an expression. It reads `locals` and cannot change them.
    pub fn evaluate_expression(
        functions: &StringHashMap<Function>,
        locals: &StringHashMap<Value>,
        expr: &Expr,
        depth: u64,
        loops: u64,
    ) -> (r: Result<Value, RuntimeError>)
        ensures
            denoted(r) == eval(table_view(functions@), locals@, expr@, depth as nat, loops as nat),
        decreases depth, 0nat, expr, 1nat,
    {
        match expr {
            Expr::Number(n) => Ok(Value::Number(*n)),
            Expr::Bool(b) => Ok(Value::Bool(*b)),
            Expr::Var(name) => match locals.get(name.as_str()) {
                Some(v) => Ok(*v),
                None => Err(RuntimeError::UndefinedVariable(name.clone())),
            },
            Expr::Binary { op, lhs, rhs } => {
                let l = match Self::evaluate_expression(functions, locals, lhs, depth, loops) {
                    Ok(v) => v,
                    Err(e) => {
                        return Err(e);
                    },
                };
                let r = match Self::evaluate_expression(functions, locals, rhs, depth, loops) {
                    Ok(v) => v,
                    Err(e) => {
                        return Err(e);
                    },
                };
                Self::binary_operation(*op, l, r)
            },
            Expr::Logical { op, lhs, rhs } => {
                let l = match Self::evaluate_expression(functions, locals, lhs, depth, loops) {
                    Ok(v) => v,
                    Err(e) => {
                        return Err(e);
                    },
                };
                let settled = match op {
                    LogicalOp::And => !l.is_truthy(),
                    LogicalOp::Or => l.is_truthy(),
                };
                if settled {
                    Ok(l)
                } else {
                    Self::evaluate_expression(functions, locals, rhs, depth, loops)
                }
            },
            Expr::Unary { op, expr } => {
                let v = match Self::evaluate_expression(functions, locals, expr, depth, loops) {
                    Ok(v) => v,
                    Err(e) => {
                        return Err(e);
                    },
                };
                match op {
                    UnaryOp::Not => Ok(Value::Bool(!v.is_truthy())),
                    UnaryOp::Minus => match v.as_number() {
                        Some(n) => Ok(Value::Number(wrapping_neg(n))),
                        None => Err(RuntimeError::TypeMismatch),
                    },
                }
            },
            Expr::Call { name, args } => Self::call_function(
                functions,
                locals,
                name,
                args,
                depth,
                loops,
            ),
        }
    }

    /// Applies a binary operator to two values.
    pub fn binary_operation(op: BinOp, l: Value, r: Value) -> (res: Result<Value, RuntimeError>)
        ensures
            denoted(res) == binary_value(op, l, r),
    {
        match op {
            BinOp::Equal => Ok(Value::Bool(Self::values_equal(&l, &r))),
            BinOp::NotEqual => Ok(Value::Bool(!Self::values_equal(&l, &r))),
            _ => {
                let a = match l.as_number() {
                    Some(a) => a,
                    None => {
                        return Err(RuntimeError::TypeMismatch);
                    },
                };
                let b = match r.as_number() {
                    Some(b) => b,
                    None => {
                        return Err(RuntimeError::TypeMismatch);
                    },
                };
                match op {
                    BinOp::Add => Ok(Value::Number(wrapping_add(a, b))),
                    BinOp::Sub => Ok(Value::Number(wrapping_sub(a, b))),
                    BinOp::Mul => Ok(Value::Number(wrapping_mul(a, b))),
                    BinOp::Div => {
                        if b == 0 {
                            Err(RuntimeError::DivisionByZero)
                        } else {
                            Ok(Value::Number(wrapping_div(a, b)))
                        }
                    },
                    BinOp::Greater => Ok(Value::Bool(a > b)),
                    BinOp::GreaterEqual => Ok(Value::Bool(a >= b)),
                    BinOp::Less => Ok(Value::Bool(a < b)),
                    _ => Ok(Value::Bool(a <= b)),
                }
            },
        }
    }

    /// Whether two values are the same: of one kind, and equal.
    pub fn values_equal(left: &Value, right: &Value) -> (r: bool)
        ensures
            r == (*left == *right),
    {
        match (left, right) {
            (Value::Number(a), Value::Number(b)) => *a == *b,
            (Value::Bool(a), Value::Bool(b)) => *a == *b,
            (Value::Void, Value::Void) => true,
            _ => false,
        }
    }

    /// Calls the function `name` with the arguments `args`, which it evaluates
    /// on `locals`. The function's body runs on a table of its own.
    pub fn call_function(
        functions: &StringHashMap<Function>,
        locals: &StringHashMap<Value>,
        name: &String,
        args: &Vec<Expr>,
        depth: u64,
        loops: u64,
    ) -> (r: Result<Value, RuntimeError>)
        ensures
            denoted(r) == eval(
                table_view(functions@),
                locals@,
                ExprView::Call { name: name@, args: exprs_view(args@) },
                depth as nat,
                loops as nat,
            ),
        decreases depth, 0nat, args, 0nat,
    {
        let ghost table = table_view(functions@);
        let ghost views = exprs_view(args@);
        let function = match functions.get(name.as_str()) {
            Some(f) => f,
            None => {
                return Err(RuntimeError::UndefinedFunction(name.clone()));
            },
        };
        assert(table.contains_key(name@) && table[name@] == function@);
        if args.len() != function.params.len() {
            return Err(
                RuntimeError::WrongArgumentCount(name.clone(), function.params.len(), args.len()),
            );
        }
        let mut values: Vec<Value> = Vec::new();
        let mut i: usize = 0;
        while i < args.len()
            invariant
                i <= args@.len(),
                values@.len() == i,
                table == table_view(functions@),
                views == exprs_view(args@),
                table.contains_key(name@),
                table[name@] == function@,
                args@.len() == function.params@.len(),
                eval_args(table, locals@, views, 0, Seq::empty(), depth as nat, loops as nat)
                    == eval_args(
                    table,
                    locals@,
                    views,
                    i as nat,
                    values@,
                    depth as nat,
                    loops as nat,
                ),
            decreases args@.len() - i,
        {
            match Self::evaluate_expression(functions, locals, &args[i], depth, loops) {
                Ok(v) => {
                    values.push(v);
                },
                Err(e) => {
                    return Err(e);
                },
            }
            i = i + 1;
        }
        if depth == 0 {
            return Err(RuntimeError::DepthLimit);
        }
        let mut frame: StringHashMap<Value> = StringHashMap::new();
        let mut k: usize = 0;
        while k < function.params.len()
            invariant
                k <= function.params@.len(),
                values@.len() == function.params@.len(),
                frame@ == bind(function@.params, values@, k as nat),
            decreases function.params@.len() - k,
        {
            frame.insert(function.params[k].clone(), values[k]);
            k = k + 1;
        }
        match Self::execute_statements(functions, &mut frame, &function.body, depth - 1, loops) {
            Ok(c) => Ok(c.into_value()),
            Err(e) => Err(e),
        }
    }
}

impl Default for Interpreter {
    /// An interpreter without functions or variables, with the default bounds.
    fn default() -> (interpreter: Self)
        ensures
            interpreter.functions() == Map::<Seq<char>, FunctionView>::empty(),
            interpreter.locals() == Map::<Seq<char>, Value>::empty(),
            interpreter.max_depth() == DEFAULT_MAX_DEPTH,
            interpreter.max_iterations() == DEFAULT_MAX_ITERATIONS,
    {
        Interpreter::new()
    }
}

} // verus!
