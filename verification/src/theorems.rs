//! What some shapes of program give, for every choice of the numbers and
//! names in them.

use vstd::prelude::*;
use crate::arith::{lemma_wrap_add, lemma_wrap_fits, wrap};
use crate::ast::{BinOp, ExprView, StmtView};
use crate::semantics::{
    bind, eval, eval_args, exec, lemma_call_passes_values_only, repeat, run, Completion, Executed,
    Functions, Locals, RuntimeErrorView, Value,
};

verus! {

/// A condition is taken by its truth: an `if` does what its first block
/// does where the condition is a number other than zero or `true`, and
/// otherwise what its second block does, or nothing. Either block runs on the
/// variables of the statement itself, and what it declares stays.
pub proof fn lemma_condition_by_truth(
    funcs: Functions,
    locals: Locals,
    condition: ExprView,
    then_branch: Seq<StmtView>,
    else_branch: Option<Seq<StmtView>>,
    depth: nat,
    loops: nat,
)
    requires
        eval(funcs, locals, condition, depth, loops) is Ok,
    ensures
        exec(
            funcs,
            locals,
            StmtView::If { condition, then_branch, else_branch },
            depth,
            loops,
        ) == if eval(funcs, locals, condition, depth, loops)->Ok_0.truthy() {
            run(funcs, locals, then_branch, 0, Value::Void, depth, loops)
        } else if else_branch is Some {
            run(funcs, locals, else_branch->Some_0, 0, Value::Void, depth, loops)
        } else {
            Executed { locals, result: Ok(Completion::Normal(Value::Void)) }
        },
{
}

/// `a + b * c` has the value of `a` plus the product, each reduced to 64
/// bits.
pub proof fn lemma_sum_with_product(
    funcs: Functions,
    locals: Locals,
    a: i64,
    b: i64,
    c: i64,
    depth: nat,
    loops: nat,
)
    ensures
        eval(
            funcs,
            locals,
            ExprView::Binary {
                op: BinOp::Add,
                lhs: Box::new(ExprView::Number(a)),
                rhs: Box::new(
                    ExprView::Binary {
                        op: BinOp::Mul,
                        lhs: Box::new(ExprView::Number(b)),
                        rhs: Box::new(ExprView::Number(c)),
                    },
                ),
            },
            depth,
            loops,
        ) == Ok::<Value, RuntimeErrorView>(Value::Number(wrap(a + wrap(b * c)))),
{
    reveal_with_fuel(eval, 3);
}

/// `a - b - c` has the value of `a - b`, reduced to 64 bits, less `c`.
pub proof fn lemma_difference_of_difference(
    funcs: Functions,
    locals: Locals,
    a: i64,
    b: i64,
    c: i64,
    depth: nat,
    loops: nat,
)
    ensures
        eval(
            funcs,
            locals,
            ExprView::Binary {
                op: BinOp::Sub,
                lhs: Box::new(
                    ExprView::Binary {
                        op: BinOp::Sub,
                        lhs: Box::new(ExprView::Number(a)),
                        rhs: Box::new(ExprView::Number(b)),
                    },
                ),
                rhs: Box::new(ExprView::Number(c)),
            },
            depth,
            loops,
        ) == Ok::<Value, RuntimeErrorView>(Value::Number(wrap(wrap(a - b) - c))),
{
    reveal_with_fuel(eval, 3);
}

/// Two declarations and the sum of the two variables: `x = a; y = b;
/// return x + y;` returns `a + b`, reduced to 64 bits, and leaves the two
/// variables.
pub proof fn lemma_declared_variables_add(
    funcs: Functions,
    locals: Locals,
    x: Seq<char>,
    y: Seq<char>,
    a: i64,
    b: i64,
    depth: nat,
    loops: nat,
)
    requires
        x != y,
    ensures
        run(
            funcs,
            locals,
            seq![
                StmtView::VarDecl { name: x, value: ExprView::Number(a) },
                StmtView::VarDecl { name: y, value: ExprView::Number(b) },
                StmtView::Return(
                    ExprView::Binary {
                        op: BinOp::Add,
                        lhs: Box::new(ExprView::Var(x)),
                        rhs: Box::new(ExprView::Var(y)),
                    },
                ),
            ],
            0,
            Value::Void,
            depth,
            loops,
        ) == (Executed {
            locals: locals.insert(x, Value::Number(a)).insert(y, Value::Number(b)),
            result: Ok(Completion::Return(Value::Number(wrap(a + b)))),
        }),
{
    let sum = ExprView::Binary {
        op: BinOp::Add,
        lhs: Box::new(ExprView::Var(x)),
        rhs: Box::new(ExprView::Var(y)),
    };
    let stmts = seq![
        StmtView::VarDecl { name: x, value: ExprView::Number(a) },
        StmtView::VarDecl { name: y, value: ExprView::Number(b) },
        StmtView::Return(sum),
    ];
    let one = locals.insert(x, Value::Number(a));
    let two = one.insert(y, Value::Number(b));
    assert(stmts[0] == StmtView::VarDecl { name: x, value: ExprView::Number(a) });
    assert(stmts[1] == StmtView::VarDecl { name: y, value: ExprView::Number(b) });
    assert(stmts[2] == StmtView::Return(sum));
    assert(eval(funcs, locals, ExprView::Number(a), depth, loops) == Ok::<Value, RuntimeErrorView>(
        Value::Number(a),
    ));
    assert(eval(funcs, one, ExprView::Number(b), depth, loops) == Ok::<Value, RuntimeErrorView>(
        Value::Number(b),
    ));
    assert(exec(funcs, locals, stmts[0], depth, loops) == Executed {
        locals: one,
        result: Ok(Completion::Normal(Value::Number(a))),
    });
    assert(exec(funcs, one, stmts[1], depth, loops) == Executed {
        locals: two,
        result: Ok(Completion::Normal(Value::Number(b))),
    });
    assert(eval(funcs, two, sum, depth, loops) == Ok::<Value, RuntimeErrorView>(
        Value::Number(wrap(a + b)),
    )) by {
        reveal_with_fuel(eval, 2);
    }
    assert(exec(funcs, two, stmts[2], depth, loops) == Executed {
        locals: two,
        result: Ok(Completion::Return(Value::Number(wrap(a + b)))),
    });
    assert(run(funcs, two, stmts, 2, Value::Number(b), depth, loops) == exec(
        funcs,
        two,
        stmts[2],
        depth,
        loops,
    ));
    assert(run(funcs, one, stmts, 1, Value::Number(a), depth, loops) == run(
        funcs,
        two,
        stmts,
        2,
        Value::Number(b),
        depth,
        loops,
    ));
}

/// A function that returns the sum of its two parameters, called with two
/// numbers, gives their sum, reduced to 64 bits: each parameter is bound to
/// the argument at its place.
pub proof fn lemma_call_binds_parameters(
    funcs: Functions,
    locals: Locals,
    name: Seq<char>,
    p: Seq<char>,
    q: Seq<char>,
    a: i64,
    b: i64,
    depth: nat,
    loops: nat,
)
    requires
        depth > 0,
        p != q,
        funcs.contains_key(name),
        funcs[name].params == seq![p, q],
        funcs[name].body == seq![
            StmtView::Return(
                ExprView::Binary {
                    op: BinOp::Add,
                    lhs: Box::new(ExprView::Var(p)),
                    rhs: Box::new(ExprView::Var(q)),
                },
            ),
        ],
    ensures
        eval(
            funcs,
            locals,
            ExprView::Call { name, args: seq![ExprView::Number(a), ExprView::Number(b)] },
            depth,
            loops,
        ) == Ok::<Value, RuntimeErrorView>(Value::Number(wrap(a + b))),
{
    let f = funcs[name];
    let args = seq![ExprView::Number(a), ExprView::Number(b)];
    let values = seq![Value::Number(a), Value::Number(b)];
    let sum = ExprView::Binary {
        op: BinOp::Add,
        lhs: Box::new(ExprView::Var(p)),
        rhs: Box::new(ExprView::Var(q)),
    };
    assert(eval_args(funcs, locals, args, 0, Seq::empty(), depth, loops) == Ok::<
        Seq<Value>,
        RuntimeErrorView,
    >(values)) by {
        reveal_with_fuel(eval_args, 3);
        assert(Seq::<Value>::empty().push(Value::Number(a)).push(Value::Number(b)) =~= values);
    }
    let frame = bind(f.params, values, 2);
    assert(frame == Map::<Seq<char>, Value>::empty().insert(p, Value::Number(a)).insert(
        q,
        Value::Number(b),
    )) by {
        reveal_with_fuel(bind, 3);
    }
    let inner = (depth - 1) as nat;
    assert(eval(funcs, frame, sum, inner, loops) == Ok::<Value, RuntimeErrorView>(
        Value::Number(wrap(a + b)),
    )) by {
        reveal_with_fuel(eval, 2);
    }
    assert(exec(funcs, frame, f.body[0], inner, loops).result == Ok::<
        Completion,
        RuntimeErrorView,
    >(Completion::Return(Value::Number(wrap(a + b)))));
    assert(run(funcs, frame, f.body, 0, Value::Void, inner, loops).result == Ok::<
        Completion,
        RuntimeErrorView,
    >(Completion::Return(Value::Number(wrap(a + b)))));
    lemma_call_passes_values_only(funcs, locals, name, args, values, depth, loops);
}

/// The sum of the numbers from 1 to `n`.
pub open spec fn triangle(n: nat) -> nat
    decreases n,
{
    if n == 0 {
        0
    } else {
        n + triangle((n - 1) as nat)
    }
}

/// The loop `for (i = 1; i <= n; i) { t = t + i; i = i + 1; }`.
pub open spec fn summing_loop(t: Seq<char>, i: Seq<char>, n: i64) -> StmtView {
    StmtView::For {
        init: Some(Box::new(StmtView::VarDecl { name: i, value: ExprView::Number(1) })),
        condition: Some(
            ExprView::Binary {
                op: BinOp::LessEqual,
                lhs: Box::new(ExprView::Var(i)),
                rhs: Box::new(ExprView::Number(n)),
            },
        ),
        update: Some(ExprView::Var(i)),
        body: seq![
            StmtView::VarDecl {
                name: t,
                value: ExprView::Binary {
                    op: BinOp::Add,
                    lhs: Box::new(ExprView::Var(t)),
                    rhs: Box::new(ExprView::Var(i)),
                },
            },
            StmtView::VarDecl {
                name: i,
                value: ExprView::Binary {
                    op: BinOp::Add,
                    lhs: Box::new(ExprView::Var(i)),
                    rhs: Box::new(ExprView::Number(1)),
                },
            },
        ],
    }
}

/// The summing loop from the test of its condition on, when `i` is `k` and
/// `t` holds the sum up to `k - 1`: it ends with `i` at `n + 1` and the sum up
/// to `n` in `t`, and changes no other variable.
proof fn lemma_summing_loop_from(
    funcs: Functions,
    locals: Locals,
    t: Seq<char>,
    i: Seq<char>,
    n: i64,
    k: int,
    last: Value,
    depth: nat,
    loops: nat,
    m: nat,
)
    requires
        t != i,
        0 <= n < i64::MAX,
        1 <= k <= n + 1,
        n + 1 - k <= m,
        locals.contains_key(t),
        locals.contains_key(i),
        locals[t] == Value::Number(wrap(triangle((k - 1) as nat) as int)),
        locals[i] == Value::Number(k as i64),
    ensures
        repeat(funcs, locals, summing_loop(t, i, n), last, depth, loops, m).locals
            == locals.insert(t, Value::Number(wrap(triangle(n as nat) as int))).insert(
            i,
            Value::Number((n + 1) as i64),
        ),
        repeat(funcs, locals, summing_loop(t, i, n), last, depth, loops, m).result matches Ok(
            Completion::Normal(_),
        ),
    decreases n + 1 - k,
{
    let s = summing_loop(t, i, n);
    let test = ExprView::Binary {
        op: BinOp::LessEqual,
        lhs: Box::new(ExprView::Var(i)),
        rhs: Box::new(ExprView::Number(n)),
    };
    let add_t = ExprView::Binary {
        op: BinOp::Add,
        lhs: Box::new(ExprView::Var(t)),
        rhs: Box::new(ExprView::Var(i)),
    };
    let add_i = ExprView::Binary {
        op: BinOp::Add,
        lhs: Box::new(ExprView::Var(i)),
        rhs: Box::new(ExprView::Number(1)),
    };
    let body = seq![
        StmtView::VarDecl { name: t, value: add_t },
        StmtView::VarDecl { name: i, value: add_i },
    ];
    let goal = locals.insert(t, Value::Number(wrap(triangle(n as nat) as int))).insert(
        i,
        Value::Number((n + 1) as i64),
    );
    assert(eval(funcs, locals, test, depth, loops) == Ok::<Value, RuntimeErrorView>(
        Value::Bool(k <= n),
    )) by {
        reveal_with_fuel(eval, 2);
    }
    if k > n {
        assert(goal =~= locals);
    } else {
        let sum = wrap(wrap(triangle((k - 1) as nat) as int) + k);
        assert(sum == wrap(triangle(k as nat) as int)) by {
            lemma_wrap_add(triangle((k - 1) as nat) as int, k);
        }
        assert(eval(funcs, locals, add_t, depth, loops) == Ok::<Value, RuntimeErrorView>(
            Value::Number(sum),
        )) by {
            reveal_with_fuel(eval, 2);
        }
        let one = locals.insert(t, Value::Number(sum));
        assert(body[0] == StmtView::VarDecl { name: t, value: add_t });
        assert(body[1] == StmtView::VarDecl { name: i, value: add_i });
        assert(exec(funcs, locals, body[0], depth, loops) == Executed {
            locals: one,
            result: Ok(Completion::Normal(Value::Number(sum))),
        });
        assert(eval(funcs, one, add_i, depth, loops) == Ok::<Value, RuntimeErrorView>(
            Value::Number((k + 1) as i64),
        )) by {
            reveal_with_fuel(eval, 2);
            lemma_wrap_fits(k + 1);
        }
        let two = one.insert(i, Value::Number((k + 1) as i64));
        assert(exec(funcs, one, body[1], depth, loops) == Executed {
            locals: two,
            result: Ok(Completion::Normal(Value::Number((k + 1) as i64))),
        });
        assert(run(funcs, two, body, 2, Value::Number((k + 1) as i64), depth, loops) == Executed {
            locals: two,
            result: Ok(Completion::Normal(Value::Number((k + 1) as i64))),
        });
        assert(run(funcs, one, body, 1, Value::Number(sum), depth, loops) == run(
            funcs,
            two,
            body,
            2,
            Value::Number((k + 1) as i64),
            depth,
            loops,
        ));
        assert(run(funcs, locals, body, 0, Value::Void, depth, loops) == Executed {
            locals: two,
            result: Ok(Completion::Normal(Value::Number((k + 1) as i64))),
        });
        assert(eval(funcs, two, ExprView::Var(i), depth, loops) is Ok);
        lemma_summing_loop_from(
            funcs,
            two,
            t,
            i,
            n,
            k + 1,
            Value::Number((k + 1) as i64),
            depth,
            loops,
            (m - 1) as nat,
        );
        assert(repeat(funcs, locals, s, last, depth, loops, m) == repeat(
            funcs,
            two,
            s,
            Value::Number((k + 1) as i64),
            depth,
            loops,
            (m - 1) as nat,
        ));
        assert(two.insert(t, Value::Number(wrap(triangle(n as nat) as int))).insert(
            i,
            Value::Number((n + 1) as i64),
        ) =~= goal);
    }
}

/// A loop that adds the numbers from 1 to `n` to a variable that holds zero
/// leaves their sum in it, reduced to 64 bits, and the counter at `n + 1`:
/// what the body of a loop declares stays after the loop, and no other
/// variable changes. The loop needs `n` passes.
pub proof fn lemma_summing_loop(
    funcs: Functions,
    locals: Locals,
    t: Seq<char>,
    i: Seq<char>,
    n: i64,
    depth: nat,
    loops: nat,
)
    requires
        t != i,
        0 <= n < i64::MAX,
        n <= loops,
        locals.contains_key(t),
        locals[t] == Value::Number(0),
    ensures
        exec(funcs, locals, summing_loop(t, i, n), depth, loops).locals == locals.insert(
            t,
            Value::Number(wrap(triangle(n as nat) as int)),
        ).insert(i, Value::Number((n + 1) as i64)),
        exec(funcs, locals, summing_loop(t, i, n), depth, loops).result matches Ok(
            Completion::Normal(_),
        ),
{
    let s = summing_loop(t, i, n);
    let first = StmtView::VarDecl { name: i, value: ExprView::Number(1) };
    let start = locals.insert(i, Value::Number(1));
    assert(eval(funcs, locals, ExprView::Number(1), depth, loops) == Ok::<Value, RuntimeErrorView>(
        Value::Number(1),
    ));
    assert(exec(funcs, locals, first, depth, loops) == Executed {
        locals: start,
        result: Ok(Completion::Normal(Value::Number(1))),
    });
    assert(exec(funcs, locals, s, depth, loops) == repeat(
        funcs,
        start,
        s,
        Value::Void,
        depth,
        loops,
        loops,
    ));
    lemma_wrap_fits(0);
    lemma_summing_loop_from(funcs, start, t, i, n, 1, Value::Void, depth, loops, loops);
    assert(start.insert(t, Value::Number(wrap(triangle(n as nat) as int))).insert(
        i,
        Value::Number((n + 1) as i64),
    ) =~= locals.insert(t, Value::Number(wrap(triangle(n as nat) as int))).insert(
        i,
        Value::Number((n + 1) as i64),
    ));
}

} // verus!
