//! What a program means: values, errors, and the evaluation of expressions and
//! statements as functions over maps and sequences.
//!
//! A run has two bounds. `depth` is how many calls may still nest; a call
//! that would nest deeper fails with [`RuntimeError::DepthLimit`]. `loops` is
//! how many times one loop may run its body; a loop that wants one more pass
//! fails with [`RuntimeError::IterationLimit`]. With them every definition
//! below is total.

use vstd::prelude::*;
use crate::arith::{quotient, wrap};
use crate::ast::{BinOp, ExprView, FunctionView, LogicalOp, StmtView, UnaryOp};

verus! {

/// A value at run time. Values of different kinds are never equal.
#[derive(Debug, Clone, Copy, PartialEq, Eq, Structural)]
pub enum Value {
    Number(i64),
    Bool(bool),
    /// The absence of a value.
    Void,
}

impl Value {
    /// Whether the value counts as true in a condition: a number other than
    /// zero, or `true`.
    pub open spec fn truthy(self) -> bool {
        match self {
            Value::Bool(b) => b,
            Value::Number(n) => n != 0,
            Value::Void => false,
        }
    }

    /// Whether the value counts as true in a condition.
    pub fn is_truthy(&self) -> (r: bool)
        ensures
            r == self.truthy(),
    {
        match self {
            Value::Bool(b) => *b,
            Value::Number(n) => *n != 0,
            Value::Void => false,
        }
    }

    /// The number that the value is, if it is one.
    pub fn as_number(&self) -> (r: Option<i64>)
        ensures
            r == match *self {
                Value::Number(n) => Some(n),
                _ => None::<i64>,
            },
    {
        match self {
            Value::Number(n) => Some(*n),
            _ => None,
        }
    }
}

/// How a statement ends when it does not fail.
#[derive(Debug, Clone, Copy, PartialEq, Eq, Structural)]
pub enum Completion {
    /// It ran to its end, with this value.
    Normal(Value),
    /// It met a `return` with this value: the function ends here.
    Return(Value),
}

impl Completion {
    /// The value carried, either way.
    pub open spec fn value(self) -> Value {
        match self {
            Completion::Normal(v) => v,
            Completion::Return(v) => v,
        }
    }

    /// The value carried, either way.
    pub fn into_value(self) -> (v: Value)
        ensures
            v == self.value(),
    {
        match self {
            Completion::Normal(v) => v,
            Completion::Return(v) => v,
        }
    }
}

/// Why a run failed.
#[derive(Debug, PartialEq, Eq)]
pub enum RuntimeError {
    /// A variable was read before any declaration of it.
    UndefinedVariable(String),
    /// A function was called that the program does not define.
    UndefinedFunction(String),
    /// A function was called with a number of arguments other than the number
    /// of its parameters: the name, the parameters, the arguments.
    WrongArgumentCount(String, usize, usize),
    /// A division by zero.
    DivisionByZero,
    /// A value that is no number stood where a number is required.
    TypeMismatch,
    /// Calls nested deeper than the run allows.
    DepthLimit,
    /// A loop ran its body more often than the run allows.
    IterationLimit,
}

/// What a [`RuntimeError`] denotes.
pub enum RuntimeErrorView {
    UndefinedVariable(Seq<char>),
    UndefinedFunction(Seq<char>),
    WrongArgumentCount(Seq<char>, usize, usize),
    DivisionByZero,
    TypeMismatch,
    DepthLimit,
    IterationLimit,
}

impl View for RuntimeError {
    type V = RuntimeErrorView;

    open spec fn view(&self) -> RuntimeErrorView {
        match self {
            RuntimeError::UndefinedVariable(name) => RuntimeErrorView::UndefinedVariable(name@),
            RuntimeError::UndefinedFunction(name) => RuntimeErrorView::UndefinedFunction(name@),
            RuntimeError::WrongArgumentCount(name, expected, actual) => {
                RuntimeErrorView::WrongArgumentCount(name@, *expected, *actual)
            },
            RuntimeError::DivisionByZero => RuntimeErrorView::DivisionByZero,
            RuntimeError::TypeMismatch => RuntimeErrorView::TypeMismatch,
            RuntimeError::DepthLimit => RuntimeErrorView::DepthLimit,
            RuntimeError::IterationLimit => RuntimeErrorView::IterationLimit,
        }
    }
}

/// The functions of a program, by name.
pub type Functions = Map<Seq<char>, FunctionView>;

/// The variables of a call, by name: one flat table, shared by every block of
/// the function.
pub type Locals = Map<Seq<char>, Value>;

/// What the evaluation of an expression gives.
pub type Evaluated = Result<Value, RuntimeErrorView>;

/// What the execution of statements gives: the variables afterwards, and how
/// it ended.
pub struct Executed {
    pub locals: Locals,
    pub result: Result<Completion, RuntimeErrorView>,
}

// ---------------------------------------------------------------------------
// Operators
// ---------------------------------------------------------------------------

/// `l op r`. Arithmetic and ordering are for numbers only; equality compares
/// any two values. Arithmetic wraps around at 64 bits.
pub open spec fn binary_value(op: BinOp, l: Value, r: Value) -> Evaluated {
    match op {
        BinOp::Equal => Ok(Value::Bool(l == r)),
        BinOp::NotEqual => Ok(Value::Bool(l != r)),
        _ => match (l, r) {
            (Value::Number(a), Value::Number(b)) => match op {
                BinOp::Add => Ok(Value::Number(wrap(a + b))),
                BinOp::Sub => Ok(Value::Number(wrap(a - b))),
                BinOp::Mul => Ok(Value::Number(wrap(a * b))),
                BinOp::Div => if b == 0 {
                    Err(RuntimeErrorView::DivisionByZero)
                } else {
                    Ok(Value::Number(wrap(quotient(a as int, b as int))))
                },
                BinOp::Greater => Ok(Value::Bool(a > b)),
                BinOp::GreaterEqual => Ok(Value::Bool(a >= b)),
                BinOp::Less => Ok(Value::Bool(a < b)),
                _ => Ok(Value::Bool(a <= b)),
            },
            _ => Err(RuntimeErrorView::TypeMismatch),
        },
    }
}

/// `op v`. Negation is for numbers only and wraps around; `!` takes any
/// value by its truth.
pub open spec fn unary_value(op: UnaryOp, v: Value) -> Evaluated {
    match op {
        UnaryOp::Not => Ok(Value::Bool(!v.truthy())),
        UnaryOp::Minus => match v {
            Value::Number(n) => Ok(Value::Number(wrap(-n))),
            _ => Err(RuntimeErrorView::TypeMismatch),
        },
    }
}

/// Whether the left operand of a logical operator settles the result, so
/// that the right one is not evaluated.
pub open spec fn settles(op: LogicalOp, l: Value) -> bool {
    match op {
        LogicalOp::And => !l.truthy(),
        LogicalOp::Or => l.truthy(),
    }
}

// ---------------------------------------------------------------------------
// Calls
// ---------------------------------------------------------------------------

/// The variables of a fresh call after the first `n` parameters have been
/// bound to their arguments, in order: of two parameters of one name the
/// later one stays.
pub open spec fn bind(params: Seq<Seq<char>>, values: Seq<Value>, n: nat) -> Locals
    decreases n,
{
    if n == 0 {
        Map::empty()
    } else {
        bind(params, values, (n - 1) as nat).insert(params[n - 1], values[n - 1])
    }
}

/// The table `table` after the first `n` of `funcs` have been entered, in
/// order: of two functions of one name the later one stays.
pub open spec fn register(table: Functions, funcs: Seq<FunctionView>, n: nat) -> Functions
    decreases n,
{
    if n == 0 {
        table
    } else {
        register(table, funcs, (n - 1) as nat).insert(funcs[n - 1].name, funcs[n - 1])
    }
}

// ---------------------------------------------------------------------------
// Evaluation
// ---------------------------------------------------------------------------

/// The value of the expression `e`.
///
/// An expression reads `locals` and never changes them: a call runs on a
/// table of its own, which holds its parameters and nothing else.
pub open spec fn eval(
    funcs: Functions,
    locals: Locals,
    e: ExprView,
    depth: nat,
    loops: nat,
) -> Evaluated
    decreases depth, 0nat, e, 0nat,
{
    match e {
        ExprView::Number(n) => Ok(Value::Number(n)),
        ExprView::Bool(b) => Ok(Value::Bool(b)),
        ExprView::Var(name) => {
            if locals.contains_key(name) {
                Ok(locals[name])
            } else {
                Err(RuntimeErrorView::UndefinedVariable(name))
            }
        },
        ExprView::Binary { op, lhs, rhs } => match eval(funcs, locals, *lhs, depth, loops) {
            Err(e) => Err(e),
            Ok(l) => match eval(funcs, locals, *rhs, depth, loops) {
                Err(e) => Err(e),
                Ok(r) => binary_value(op, l, r),
            },
        },
        ExprView::Logical { op, lhs, rhs } => match eval(funcs, locals, *lhs, depth, loops) {
            Err(e) => Err(e),
            Ok(l) => {
                if settles(op, l) {
                    Ok(l)
                } else {
                    eval(funcs, locals, *rhs, depth, loops)
                }
            },
        },
        ExprView::Unary { op, expr } => match eval(funcs, locals, *expr, depth, loops) {
            Err(e) => Err(e),
            Ok(v) => unary_value(op, v),
        },
        ExprView::Call { name, args } => {
            if !funcs.contains_key(name) {
                Err(RuntimeErrorView::UndefinedFunction(name))
            } else if args.len() != funcs[name].params.len() {
                Err(
                    RuntimeErrorView::WrongArgumentCount(
                        name,
                        funcs[name].params.len() as usize,
                        args.len() as usize,
                    ),
                )
            } else {
                match eval_args(funcs, locals, args, 0, Seq::empty(), depth, loops) {
                    Err(e) => Err(e),
                    Ok(values) => {
                        if depth == 0 {
                            Err(RuntimeErrorView::DepthLimit)
                        } else {
                            let f = funcs[name];
                            let frame = bind(f.params, values, f.params.len());
                            match run(
                                funcs,
                                frame,
                                f.body,
                                0,
                                Value::Void,
                                (depth - 1) as nat,
                                loops,
                            ).result {
                                Err(e) => Err(e),
                                Ok(c) => Ok(c.value()),
                            }
                        }
                    },
                }
            }
        },
    }
}

/// The values of the arguments `args` from the `i`-th on, after those in
/// `acc`: from left to right, up to the first that fails.
pub open spec fn eval_args(
    funcs: Functions,
    locals: Locals,
    args: Seq<ExprView>,
    i: nat,
    acc: Seq<Value>,
    depth: nat,
    loops: nat,
) -> Result<Seq<Value>, RuntimeErrorView>
    decreases depth, 0nat, args, args.len() - i,
{
    if i >= args.len() {
        Ok(acc)
    } else {
        match eval(funcs, locals, args[i as int], depth, loops) {
            Err(e) => Err(e),
            Ok(v) => eval_args(funcs, locals, args, i + 1, acc.push(v), depth, loops),
        }
    }
}

/// What the statements of `stmts` from the `i`-th on do, the one before
/// having given `last`: each runs in turn on the variables that the one
/// before left; the first that returns or fails ends the sequence; the value
/// of the sequence is that of its last statement.
pub open spec fn run(
    funcs: Functions,
    locals: Locals,
    stmts: Seq<StmtView>,
    i: nat,
    last: Value,
    depth: nat,
    loops: nat,
) -> Executed
    decreases depth, 1nat, stmts, stmts.len() - i,
{
    if i >= stmts.len() {
        Executed { locals, result: Ok(Completion::Normal(last)) }
    } else {
        let step = exec(funcs, locals, stmts[i as int], depth, loops);
        match step.result {
            Ok(Completion::Normal(v)) => run(funcs, step.locals, stmts, i + 1, v, depth, loops),
            _ => step,
        }
    }
}

/// What the statement `s` does.
pub open spec fn exec(
    funcs: Functions,
    locals: Locals,
    s: StmtView,
    depth: nat,
    loops: nat,
) -> Executed
    decreases depth, 1nat, s, loops + 1,
{
    match s {
        StmtView::VarDecl { name, value } => match eval(funcs, locals, value, depth, loops) {
            Err(e) => Executed { locals, result: Err(e) },
            Ok(v) => Executed {
                locals: locals.insert(name, v),
                result: Ok(Completion::Normal(v)),
            },
        },
        StmtView::Return(e) => match eval(funcs, locals, e, depth, loops) {
            Err(e) => Executed { locals, result: Err(e) },
            Ok(v) => Executed { locals, result: Ok(Completion::Return(v)) },
        },
        StmtView::ExprStmt(e) => match eval(funcs, locals, e, depth, loops) {
            Err(e) => Executed { locals, result: Err(e) },
            Ok(v) => Executed { locals, result: Ok(Completion::Normal(v)) },
        },
        StmtView::If { condition, then_branch, else_branch } => match eval(
            funcs,
            locals,
            condition,
            depth,
            loops,
        ) {
            Err(e) => Executed { locals, result: Err(e) },
            Ok(c) => {
                if c.truthy() {
                    run(funcs, locals, then_branch, 0, Value::Void, depth, loops)
                } else {
                    match else_branch {
                        Some(b) => run(funcs, locals, b, 0, Value::Void, depth, loops),
                        None => Executed { locals, result: Ok(Completion::Normal(Value::Void)) },
                    }
                }
            },
        },
        StmtView::While { condition, body } => repeat(
            funcs,
            locals,
            s,
            Value::Void,
            depth,
            loops,
            loops,
        ),
        StmtView::For { init, condition, update, body } => match init {
            None => repeat(funcs, locals, s, Value::Void, depth, loops, loops),
            Some(first) => {
                let step = exec(funcs, locals, *first, depth, loops);
                match step.result {
                    Ok(Completion::Normal(_)) => repeat(
                        funcs,
                        step.locals,
                        s,
                        Value::Void,
                        depth,
                        loops,
                        loops,
                    ),
                    _ => step,
                }
            },
        },
    }
}

/// The condition of the loop `s`, if it has one.
pub open spec fn loop_condition(s: StmtView) -> Option<ExprView> {
    match s {
        StmtView::While { condition, .. } => Some(condition),
        StmtView::For { condition, .. } => condition,
        _ => None,
    }
}

/// The body of the loop `s`.
pub open spec fn loop_body(s: StmtView) -> Seq<StmtView> {
    match s {
        StmtView::While { body, .. } => body,
        StmtView::For { body, .. } => body,
        _ => Seq::empty(),
    }
}

/// The expression that the loop `s` evaluates after each pass, if it has one.
pub open spec fn loop_update(s: StmtView) -> Option<ExprView> {
    match s {
        StmtView::For { update, .. } => update,
        _ => None,
    }
}

/// What the loop `s` does from one test of its condition on, the pass before
/// having given `last`, with `n` passes still allowed.
///
/// A loop without a condition goes on. A pass that returns or fails ends the
/// loop, and so does an update that fails. The value of the loop is that of
/// its last pass.
pub open spec fn repeat(
    funcs: Functions,
    locals: Locals,
    s: StmtView,
    last: Value,
    depth: nat,
    loops: nat,
    n: nat,
) -> Executed
    decreases depth, 1nat, s, n,
{
    if !(s is While || s is For) {
        Executed { locals, result: Ok(Completion::Normal(last)) }
    } else {
        let test = match loop_condition(s) {
            None => Ok(Value::Bool(true)),
            Some(c) => eval(funcs, locals, c, depth, loops),
        };
        match test {
            Err(e) => Executed { locals, result: Err(e) },
            Ok(c) => {
                if !c.truthy() {
                    Executed { locals, result: Ok(Completion::Normal(last)) }
                } else if n == 0 {
                    Executed { locals, result: Err(RuntimeErrorView::IterationLimit) }
                } else {
                    let pass = run(funcs, locals, loop_body(s), 0, Value::Void, depth, loops);
                    match pass.result {
                        Ok(Completion::Normal(v)) => {
                            let after = match loop_update(s) {
                                None => Ok(Value::Void),
                                Some(u) => eval(funcs, pass.locals, u, depth, loops),
                            };
                            match after {
                                Err(e) => Executed { locals: pass.locals, result: Err(e) },
                                Ok(_) => repeat(
                                    funcs,
                                    pass.locals,
                                    s,
                                    v,
                                    depth,
                                    loops,
                                    (n - 1) as nat,
                                ),
                            }
                        },
                        _ => pass,
                    }
                }
            },
        }
    }
}

/// What a call of the function `f` with the argument values `values` gives:
/// its body runs on a table that holds its parameters and nothing else; the
/// call's value is that of a `return`, or else of the body's last statement.
pub open spec fn invoke(
    funcs: Functions,
    f: FunctionView,
    values: Seq<Value>,
    depth: nat,
    loops: nat,
) -> Evaluated {
    if depth == 0 {
        Err(RuntimeErrorView::DepthLimit)
    } else {
        match run(
            funcs,
            bind(f.params, values, f.params.len()),
            f.body,
            0,
            Value::Void,
            (depth - 1) as nat,
            loops,
        ).result {
            Err(e) => Err(e),
            Ok(c) => Ok(c.value()),
        }
    }
}

/// What a program gives: the statements of its entry run in order; the
/// program's value is that of a `return`, or else of the last statement.
pub open spec fn outcome(
    funcs: Functions,
    locals: Locals,
    entry: Seq<StmtView>,
    depth: nat,
    loops: nat,
) -> Evaluated {
    match run(funcs, locals, entry, 0, Value::Void, depth, loops).result {
        Err(e) => Err(e),
        Ok(c) => Ok(c.value()),
    }
}

// ---------------------------------------------------------------------------
// Facts
// ---------------------------------------------------------------------------

/// A quotient by zero fails with `DivisionByZero`, whatever the dividend and
/// wherever the two numbers come from.
pub proof fn lemma_division_by_zero(
    funcs: Functions,
    locals: Locals,
    lhs: ExprView,
    rhs: ExprView,
    depth: nat,
    loops: nat,
)
    requires
        eval(funcs, locals, lhs, depth, loops) matches Ok(Value::Number(_)),
        eval(funcs, locals, rhs, depth, loops) == Ok::<Value, RuntimeErrorView>(Value::Number(0)),
    ensures
        eval(
            funcs,
            locals,
            ExprView::Binary { op: BinOp::Div, lhs: Box::new(lhs), rhs: Box::new(rhs) },
            depth,
            loops,
        ) == Err::<Value, RuntimeErrorView>(RuntimeErrorView::DivisionByZero),
{
}

/// Reading a variable that has no value fails with `UndefinedVariable` and
/// the variable's name; reading one that has a value gives it.
pub proof fn lemma_variable(
    funcs: Functions,
    locals: Locals,
    name: Seq<char>,
    depth: nat,
    loops: nat,
)
    ensures
        !locals.contains_key(name) ==> eval(funcs, locals, ExprView::Var(name), depth, loops)
            == Err::<Value, RuntimeErrorView>(RuntimeErrorView::UndefinedVariable(name)),
        locals.contains_key(name) ==> eval(funcs, locals, ExprView::Var(name), depth, loops)
            == Ok::<Value, RuntimeErrorView>(locals[name]),
{
}

/// A call with a number of arguments other than the number of the function's
/// parameters fails with `WrongArgumentCount`, the function's name and the
/// two numbers, before any argument is evaluated.
pub proof fn lemma_wrong_argument_count(
    funcs: Functions,
    locals: Locals,
    name: Seq<char>,
    args: Seq<ExprView>,
    depth: nat,
    loops: nat,
)
    requires
        funcs.contains_key(name),
        args.len() != funcs[name].params.len(),
    ensures
        eval(funcs, locals, ExprView::Call { name, args }, depth, loops) == Err::<
            Value,
            RuntimeErrorView,
        >(
            RuntimeErrorView::WrongArgumentCount(
                name,
                funcs[name].params.len() as usize,
                args.len() as usize,
            ),
        ),
{
}

/// A call whose arguments have the values `values` gives what [`invoke`]
/// gives for them: nothing of the caller's variables reaches the function but
/// these values.
pub proof fn lemma_call_passes_values_only(
    funcs: Functions,
    locals: Locals,
    name: Seq<char>,
    args: Seq<ExprView>,
    values: Seq<Value>,
    depth: nat,
    loops: nat,
)
    requires
        funcs.contains_key(name),
        args.len() == funcs[name].params.len(),
        eval_args(funcs, locals, args, 0, Seq::empty(), depth, loops) == Ok::<
            Seq<Value>,
            RuntimeErrorView,
        >(values),
    ensures
        eval(funcs, locals, ExprView::Call { name, args }, depth, loops) == invoke(
            funcs,
            funcs[name],
            values,
            depth,
            loops,
        ),
{
}

/// Two callers whose arguments come to the same values get the same result
/// from the same call, whatever else their variables hold.
pub proof fn lemma_call_ignores_caller_variables(
    funcs: Functions,
    locals_a: Locals,
    locals_b: Locals,
    name: Seq<char>,
    args: Seq<ExprView>,
    depth: nat,
    loops: nat,
)
    requires
        eval_args(funcs, locals_a, args, 0, Seq::empty(), depth, loops) == eval_args(
            funcs,
            locals_b,
            args,
            0,
            Seq::empty(),
            depth,
            loops,
        ),
    ensures
        eval(funcs, locals_a, ExprView::Call { name, args }, depth, loops) == eval(
            funcs,
            locals_b,
            ExprView::Call { name, args },
            depth,
            loops,
        ),
{
}

/// A statement that only evaluates an expression, a call for one, leaves the
/// variables exactly as they were, whether the expression has a value or
/// fails.
pub proof fn lemma_expression_keeps_variables(
    funcs: Functions,
    locals: Locals,
    e: ExprView,
    depth: nat,
    loops: nat,
)
    ensures
        exec(funcs, locals, StmtView::ExprStmt(e), depth, loops).locals == locals,
        exec(funcs, locals, StmtView::Return(e), depth, loops).locals == locals,
{
}

/// A declaration changes the declared variable and no other: it gets the
/// expression's value, and where the expression fails nothing changes.
pub proof fn lemma_declaration_changes_one_variable(
    funcs: Functions,
    locals: Locals,
    name: Seq<char>,
    e: ExprView,
    depth: nat,
    loops: nat,
)
    ensures
        exec(funcs, locals, StmtView::VarDecl { name, value: e }, depth, loops).locals
            == match eval(funcs, locals, e, depth, loops) {
            Ok(v) => locals.insert(name, v),
            Err(_) => locals,
        },
{
}

/// Of two expression statements in a row, the second gives what it would
/// give alone: whatever the first one called has left nothing behind.
pub proof fn lemma_calls_in_sequence_are_independent(
    funcs: Functions,
    locals: Locals,
    first: ExprView,
    second: ExprView,
    depth: nat,
    loops: nat,
)
    requires
        eval(funcs, locals, first, depth, loops) is Ok,
    ensures
        run(
            funcs,
            locals,
            seq![StmtView::ExprStmt(first), StmtView::ExprStmt(second)],
            0,
            Value::Void,
            depth,
            loops,
        ) == exec(funcs, locals, StmtView::ExprStmt(second), depth, loops),
{
    let stmts = seq![StmtView::ExprStmt(first), StmtView::ExprStmt(second)];
    let v = eval(funcs, locals, first, depth, loops)->Ok_0;
    assert(stmts[0] == StmtView::ExprStmt(first));
    assert(stmts[1] == StmtView::ExprStmt(second));
    assert(exec(funcs, locals, stmts[0], depth, loops) == Executed {
        locals,
        result: Ok(Completion::Normal(v)),
    });
    assert(run(funcs, locals, stmts, 0, Value::Void, depth, loops) == run(
        funcs,
        locals,
        stmts,
        1,
        v,
        depth,
        loops,
    ));
    let step = exec(funcs, locals, StmtView::ExprStmt(second), depth, loops);
    match step.result {
        Ok(Completion::Normal(w)) => {
            assert(run(funcs, locals, stmts, 2, w, depth, loops) == step);
        },
        _ => {},
    }
}

} // verus!
