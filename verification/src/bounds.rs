//! The two bounds of a run only cut it off: what a program gives within
//! them, it gives within any larger ones.

use vstd::prelude::*;
use crate::ast::{ExprView, StmtView};
use crate::semantics::{
    bind, eval, eval_args, exec, loop_body, loop_condition, loop_update, outcome, repeat, run,
    settles, Completion, Functions, Locals, RuntimeErrorView, Value,
};

verus! {

/// Whether a result is one of the two failures that a bound brings.
pub open spec fn cut_off<T>(r: Result<T, RuntimeErrorView>) -> bool {
    r matches Err(e) && (e is DepthLimit || e is IterationLimit)
}

/// An expression that has a value, or fails for a reason of its own, within
/// `depth` and `loops`, does the same within `depth2` and `loops2`.
pub proof fn lemma_eval_within_larger_bounds(
    funcs: Functions,
    locals: Locals,
    e: ExprView,
    depth: nat,
    loops: nat,
    depth2: nat,
    loops2: nat,
)
    requires
        depth <= depth2,
        loops <= loops2,
        !cut_off(eval(funcs, locals, e, depth, loops)),
    ensures
        eval(funcs, locals, e, depth2, loops2) == eval(funcs, locals, e, depth, loops),
    decreases depth, 0nat, e, 0nat,
{
    match e {
        ExprView::Binary { op, lhs, rhs } => {
            lemma_eval_within_larger_bounds(funcs, locals, *lhs, depth, loops, depth2, loops2);
            if eval(funcs, locals, *lhs, depth, loops) is Ok {
                lemma_eval_within_larger_bounds(funcs, locals, *rhs, depth, loops, depth2, loops2);
            }
        },
        ExprView::Logical { op, lhs, rhs } => {
            lemma_eval_within_larger_bounds(funcs, locals, *lhs, depth, loops, depth2, loops2);
            match eval(funcs, locals, *lhs, depth, loops) {
                Ok(l) => {
                    if !settles(op, l) {
                        lemma_eval_within_larger_bounds(
                            funcs,
                            locals,
                            *rhs,
                            depth,
                            loops,
                            depth2,
                            loops2,
                        );
                    }
                },
                Err(_) => {},
            }
        },
        ExprView::Unary { op, expr } => {
            lemma_eval_within_larger_bounds(funcs, locals, *expr, depth, loops, depth2, loops2);
        },
        ExprView::Call { name, args } => {
            if funcs.contains_key(name) && args.len() == funcs[name].params.len() {
                lemma_eval_args_within_larger_bounds(
                    funcs,
                    locals,
                    args,
                    0,
                    Seq::empty(),
                    depth,
                    loops,
                    depth2,
                    loops2,
                );
                match eval_args(funcs, locals, args, 0, Seq::empty(), depth, loops) {
                    Ok(values) => {
                        let f = funcs[name];
                        lemma_run_within_larger_bounds(
                            funcs,
                            bind(f.params, values, f.params.len()),
                            f.body,
                            0,
                            Value::Void,
                            (depth - 1) as nat,
                            loops,
                            (depth2 - 1) as nat,
                            loops2,
                        );
                    },
                    Err(_) => {},
                }
            }
        },
        _ => {},
    }
}

/// Arguments that have values, or of which one fails for a reason of its own,
/// within `depth` and `loops`, do the same within `depth2` and `loops2`.
pub proof fn lemma_eval_args_within_larger_bounds(
    funcs: Functions,
    locals: Locals,
    args: Seq<ExprView>,
    i: nat,
    acc: Seq<Value>,
    depth: nat,
    loops: nat,
    depth2: nat,
    loops2: nat,
)
    requires
        depth <= depth2,
        loops <= loops2,
        !cut_off(eval_args(funcs, locals, args, i, acc, depth, loops)),
    ensures
        eval_args(funcs, locals, args, i, acc, depth2, loops2) == eval_args(
            funcs,
            locals,
            args,
            i,
            acc,
            depth,
            loops,
        ),
    decreases depth, 0nat, args, args.len() - i,
{
    if i < args.len() {
        let arg = args[i as int];
        lemma_eval_within_larger_bounds(funcs, locals, arg, depth, loops, depth2, loops2);
        match eval(funcs, locals, args[i as int], depth, loops) {
            Ok(v) => {
                lemma_eval_args_within_larger_bounds(
                    funcs,
                    locals,
                    args,
                    i + 1,
                    acc.push(v),
                    depth,
                    loops,
                    depth2,
                    loops2,
                );
            },
            Err(_) => {},
        }
    }
}

/// Statements that end, or fail for a reason of their own, within `depth` and
/// `loops`, do the same, and leave the same variables, within `depth2` and
/// `loops2`.
pub proof fn lemma_run_within_larger_bounds(
    funcs: Functions,
    locals: Locals,
    stmts: Seq<StmtView>,
    i: nat,
    last: Value,
    depth: nat,
    loops: nat,
    depth2: nat,
    loops2: nat,
)
    requires
        depth <= depth2,
        loops <= loops2,
        !cut_off(run(funcs, locals, stmts, i, last, depth, loops).result),
    ensures
        run(funcs, locals, stmts, i, last, depth2, loops2) == run(
            funcs,
            locals,
            stmts,
            i,
            last,
            depth,
            loops,
        ),
    decreases depth, 1nat, stmts, stmts.len() - i,
{
    if i < stmts.len() {
        let s = stmts[i as int];
        lemma_exec_within_larger_bounds(funcs, locals, s, depth, loops, depth2, loops2);
        let step = exec(funcs, locals, stmts[i as int], depth, loops);
        match step.result {
            Ok(Completion::Normal(v)) => {
                lemma_run_within_larger_bounds(
                    funcs,
                    step.locals,
                    stmts,
                    i + 1,
                    v,
                    depth,
                    loops,
                    depth2,
                    loops2,
                );
            },
            _ => {},
        }
    }
}

/// A statement that ends, or fails for a reason of its own, within `depth`
/// and `loops`, does the same, and leaves the same variables, within `depth2`
/// and `loops2`.
pub proof fn lemma_exec_within_larger_bounds(
    funcs: Functions,
    locals: Locals,
    s: StmtView,
    depth: nat,
    loops: nat,
    depth2: nat,
    loops2: nat,
)
    requires
        depth <= depth2,
        loops <= loops2,
        !cut_off(exec(funcs, locals, s, depth, loops).result),
    ensures
        exec(funcs, locals, s, depth2, loops2) == exec(funcs, locals, s, depth, loops),
    decreases depth, 1nat, s, loops + 1,
{
    match s {
        StmtView::VarDecl { name, value } => {
            lemma_eval_within_larger_bounds(funcs, locals, value, depth, loops, depth2, loops2);
        },
        StmtView::Return(e) => {
            lemma_eval_within_larger_bounds(funcs, locals, e, depth, loops, depth2, loops2);
        },
        StmtView::ExprStmt(e) => {
            lemma_eval_within_larger_bounds(funcs, locals, e, depth, loops, depth2, loops2);
        },
        StmtView::If { condition, then_branch, else_branch } => {
            lemma_eval_within_larger_bounds(funcs, locals, condition, depth, loops, depth2, loops2);
            match eval(funcs, locals, condition, depth, loops) {
                Ok(c) => {
                    if c.truthy() {
                        lemma_run_within_larger_bounds(
                            funcs,
                            locals,
                            then_branch,
                            0,
                            Value::Void,
                            depth,
                            loops,
                            depth2,
                            loops2,
                        );
                    } else {
                        match else_branch {
                            Some(b) => {
                                lemma_run_within_larger_bounds(
                                    funcs,
                                    locals,
                                    b,
                                    0,
                                    Value::Void,
                                    depth,
                                    loops,
                                    depth2,
                                    loops2,
                                );
                            },
                            None => {},
                        }
                    }
                },
                Err(_) => {},
            }
        },
        StmtView::While { condition, body } => {
            lemma_repeat_within_larger_bounds(
                funcs,
                locals,
                s,
                Value::Void,
                depth,
                loops,
                loops,
                depth2,
                loops2,
                loops2,
            );
        },
        StmtView::For { init, condition, update, body } => {
            match init {
                None => {
                    lemma_repeat_within_larger_bounds(
                        funcs,
                        locals,
                        s,
                        Value::Void,
                        depth,
                        loops,
                        loops,
                        depth2,
                        loops2,
                        loops2,
                    );
                },
                Some(first) => {
                    lemma_exec_within_larger_bounds(
                        funcs,
                        locals,
                        *first,
                        depth,
                        loops,
                        depth2,
                        loops2,
                    );
                    let step = exec(funcs, locals, *first, depth, loops);
                    match step.result {
                        Ok(Completion::Normal(_)) => {
                            lemma_repeat_within_larger_bounds(
                                funcs,
                                step.locals,
                                s,
                                Value::Void,
                                depth,
                                loops,
                                loops,
                                depth2,
                                loops2,
                                loops2,
                            );
                        },
                        _ => {},
                    }
                },
            }
        },
    }
}

/// A loop that ends, or fails for a reason of its own, with `n` passes
/// allowed within `depth` and `loops`, does the same, and leaves the same
/// variables, with `n2` passes allowed within `depth2` and `loops2`.
pub proof fn lemma_repeat_within_larger_bounds(
    funcs: Functions,
    locals: Locals,
    s: StmtView,
    last: Value,
    depth: nat,
    loops: nat,
    n: nat,
    depth2: nat,
    loops2: nat,
    n2: nat,
)
    requires
        depth <= depth2,
        loops <= loops2,
        n <= n2,
        !cut_off(repeat(funcs, locals, s, last, depth, loops, n).result),
    ensures
        repeat(funcs, locals, s, last, depth2, loops2, n2) == repeat(
            funcs,
            locals,
            s,
            last,
            depth,
            loops,
            n,
        ),
    decreases depth, 1nat, s, n,
{
    if s is While || s is For {
        let test = match loop_condition(s) {
            None => Ok(Value::Bool(true)),
            Some(c) => {
                lemma_eval_within_larger_bounds(funcs, locals, c, depth, loops, depth2, loops2);
                eval(funcs, locals, c, depth, loops)
            },
        };
        match test {
            Ok(c) => {
                if c.truthy() && n > 0 {
                    lemma_run_within_larger_bounds(
                        funcs,
                        locals,
                        loop_body(s),
                        0,
                        Value::Void,
                        depth,
                        loops,
                        depth2,
                        loops2,
                    );
                    let pass = run(funcs, locals, loop_body(s), 0, Value::Void, depth, loops);
                    match pass.result {
                        Ok(Completion::Normal(v)) => {
                            let after = match loop_update(s) {
                                None => Ok(Value::Void),
                                Some(u) => {
                                    lemma_eval_within_larger_bounds(
                                        funcs,
                                        pass.locals,
                                        u,
                                        depth,
                                        loops,
                                        depth2,
                                        loops2,
                                    );
                                    eval(funcs, pass.locals, u, depth, loops)
                                },
                            };
                            if after is Ok {
                                lemma_repeat_within_larger_bounds(
                                    funcs,
                                    pass.locals,
                                    s,
                                    v,
                                    depth,
                                    loops,
                                    (n - 1) as nat,
                                    depth2,
                                    loops2,
                                    (n2 - 1) as nat,
                                );
                            }
                        },
                        _ => {},
                    }
                }
            },
            Err(_) => {},
        }
    }
}

/// A program that gives a value, or fails for a reason of its own, within
/// `depth` and `loops`, gives the same within `depth2` and `loops2`.
pub proof fn lemma_outcome_within_larger_bounds(
    funcs: Functions,
    locals: Locals,
    entry: Seq<StmtView>,
    depth: nat,
    loops: nat,
    depth2: nat,
    loops2: nat,
)
    requires
        depth <= depth2,
        loops <= loops2,
        !cut_off(outcome(funcs, locals, entry, depth, loops)),
    ensures
        outcome(funcs, locals, entry, depth2, loops2) == outcome(
            funcs,
            locals,
            entry,
            depth,
            loops,
        ),
{
    lemma_run_within_larger_bounds(
        funcs,
        locals,
        entry,
        0,
        Value::Void,
        depth,
        loops,
        depth2,
        loops2,
    );
}

} // verus!
