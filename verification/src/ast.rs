//! The syntax tree: operators, expressions, statements and functions, each with
//! its mathematical view. A view replaces every `String` by its `Seq<char>` and
//! every `Vec` by a `Seq`, so that two trees with the same view are the same
//! program.

use vstd::prelude::*;

verus! {

/// Arithmetic and comparison operators of a binary expression.
#[derive(Debug, Clone, Copy, PartialEq, Eq, Structural)]
pub enum BinOp {
    Add,
    Sub,
    Mul,
    Div,
    Equal,
    NotEqual,
    Greater,
    GreaterEqual,
    Less,
    LessEqual,
}

/// The two short-circuiting operators.
#[derive(Debug, Clone, Copy, PartialEq, Eq, Structural)]
pub enum LogicalOp {
    And,
    Or,
}

/// Prefix operators.
#[derive(Debug, Clone, Copy, PartialEq, Eq, Structural)]
pub enum UnaryOp {
    Not,
    Minus,
}

/// An expression. Each node owns its children.
#[allow(inconsistent_fields)]
#[derive(Debug)]
pub enum Expr {
    Number(i64),
    Bool(bool),
    Var(String),
    Binary { op: BinOp, lhs: Box<Expr>, rhs: Box<Expr> },
    Logical { op: LogicalOp, lhs: Box<Expr>, rhs: Box<Expr> },
    Unary { op: UnaryOp, expr: Box<Expr> },
    Call { name: String, args: Vec<Expr> },
}

/// A statement. A block is an ordered sequence of statements.
#[allow(inconsistent_fields)]
#[derive(Debug)]
pub enum Stmt {
    VarDecl { name: String, value: Expr },
    Return(Expr),
    ExprStmt(Expr),
    If { condition: Expr, then_branch: Vec<Stmt>, else_branch: Option<Vec<Stmt>> },
    While { condition: Expr, body: Vec<Stmt> },
    For { init: Option<Box<Stmt>>, condition: Option<Expr>, update: Option<Expr>, body: Vec<Stmt> },
}

/// A function definition: its name, its parameter names in order, its body.
#[derive(Debug)]
pub struct Function {
    pub name: String,
    pub params: Vec<String>,
    pub body: Vec<Stmt>,
}

/// What an [`Expr`] denotes.
#[allow(inconsistent_fields)]
pub enum ExprView {
    Number(i64),
    Bool(bool),
    Var(Seq<char>),
    Binary { op: BinOp, lhs: Box<ExprView>, rhs: Box<ExprView> },
    Logical { op: LogicalOp, lhs: Box<ExprView>, rhs: Box<ExprView> },
    Unary { op: UnaryOp, expr: Box<ExprView> },
    Call { name: Seq<char>, args: Seq<ExprView> },
}

/// What a [`Stmt`] denotes.
#[allow(inconsistent_fields)]
pub enum StmtView {
    VarDecl { name: Seq<char>, value: ExprView },
    Return(ExprView),
    ExprStmt(ExprView),
    If { condition: ExprView, then_branch: Seq<StmtView>, else_branch: Option<Seq<StmtView>> },
    While { condition: ExprView, body: Seq<StmtView> },
    For {
        init: Option<Box<StmtView>>,
        condition: Option<ExprView>,
        update: Option<ExprView>,
        body: Seq<StmtView>,
    },
}

/// What a [`Function`] denotes.
pub struct FunctionView {
    pub name: Seq<char>,
    pub params: Seq<Seq<char>>,
    pub body: Seq<StmtView>,
}

/// The views of a list of expressions, element by element.
pub open spec fn exprs_view(v: Seq<Expr>) -> Seq<ExprView>
    decreases v,
{
    Seq::new(
        v.len(),
        |i: int|
            if 0 <= i < v.len() {
                expr_view(v[i])
            } else {
                ExprView::Bool(false)
            },
    )
}

/// The view of one expression.
pub open spec fn expr_view(e: Expr) -> ExprView
    decreases e,
{
    match e {
        Expr::Number(n) => ExprView::Number(n),
        Expr::Bool(b) => ExprView::Bool(b),
        Expr::Var(name) => ExprView::Var(name@),
        Expr::Binary { op, lhs, rhs } => ExprView::Binary {
            op,
            lhs: Box::new(expr_view(*lhs)),
            rhs: Box::new(expr_view(*rhs)),
        },
        Expr::Logical { op, lhs, rhs } => ExprView::Logical {
            op,
            lhs: Box::new(expr_view(*lhs)),
            rhs: Box::new(expr_view(*rhs)),
        },
        Expr::Unary { op, expr } => ExprView::Unary { op, expr: Box::new(expr_view(*expr)) },
        Expr::Call { name, args } => ExprView::Call { name: name@, args: exprs_view(args@) },
    }
}

/// The views of a block, statement by statement.
pub open spec fn stmts_view(v: Seq<Stmt>) -> Seq<StmtView>
    decreases v,
{
    Seq::new(
        v.len(),
        |i: int|
            if 0 <= i < v.len() {
                stmt_view(v[i])
            } else {
                StmtView::ExprStmt(ExprView::Bool(false))
            },
    )
}

/// The view of one statement.
pub open spec fn stmt_view(s: Stmt) -> StmtView
    decreases s,
{
    match s {
        Stmt::VarDecl { name, value } => StmtView::VarDecl { name: name@, value: expr_view(value) },
        Stmt::Return(e) => StmtView::Return(expr_view(e)),
        Stmt::ExprStmt(e) => StmtView::ExprStmt(expr_view(e)),
        Stmt::If { condition, then_branch, else_branch } => StmtView::If {
            condition: expr_view(condition),
            then_branch: stmts_view(then_branch@),
            else_branch: match else_branch {
                Some(b) => Some(stmts_view(b@)),
                None => None,
            },
        },
        Stmt::While { condition, body } => StmtView::While {
            condition: expr_view(condition),
            body: stmts_view(body@),
        },
        Stmt::For { init, condition, update, body } => StmtView::For {
            init: match init {
                Some(b) => Some(Box::new(stmt_view(*b))),
                None => None,
            },
            condition: match condition {
                Some(c) => Some(expr_view(c)),
                None => None,
            },
            update: match update {
                Some(u) => Some(expr_view(u)),
                None => None,
            },
            body: stmts_view(body@),
        },
    }
}

/// The views of a list of names.
pub open spec fn names_view(v: Seq<String>) -> Seq<Seq<char>> {
    Seq::new(v.len(), |i: int| v[i]@)
}

/// The views of a list of functions.
pub open spec fn functions_view(v: Seq<Function>) -> Seq<FunctionView> {
    Seq::new(v.len(), |i: int| v[i]@)
}

impl View for Expr {
    type V = ExprView;

    open spec fn view(&self) -> ExprView {
        expr_view(*self)
    }
}

impl View for Stmt {
    type V = StmtView;

    open spec fn view(&self) -> StmtView {
        stmt_view(*self)
    }
}

impl View for Function {
    type V = FunctionView;

    open spec fn view(&self) -> FunctionView {
        FunctionView {
            name: self.name@,
            params: names_view(self.params@),
            body: stmts_view(self.body@),
        }
    }
}

/// Pushing an expression onto a list pushes its view onto the list's view.
pub proof fn lemma_exprs_view_push(v: Seq<Expr>, e: Expr)
    ensures
        exprs_view(v.push(e)) == exprs_view(v).push(expr_view(e)),
{
    assert(exprs_view(v.push(e)) =~= exprs_view(v).push(expr_view(e)));
}

/// Pushing a statement onto a block pushes its view onto the block's view.
pub proof fn lemma_stmts_view_push(v: Seq<Stmt>, s: Stmt)
    ensures
        stmts_view(v.push(s)) == stmts_view(v).push(stmt_view(s)),
{
    assert(stmts_view(v.push(s)) =~= stmts_view(v).push(stmt_view(s)));
}

/// Pushing a name onto a list pushes its view onto the list's view.
pub proof fn lemma_names_view_push(v: Seq<String>, s: String)
    ensures
        names_view(v.push(s)) == names_view(v).push(s@),
{
    assert(names_view(v.push(s)) =~= names_view(v).push(s@));
}

/// Pushing a function onto a list pushes its view onto the list's view.
pub proof fn lemma_functions_view_push(v: Seq<Function>, f: Function)
    ensures
        functions_view(v.push(f)) == functions_view(v).push(f@),
{
    assert(functions_view(v.push(f)) =~= functions_view(v).push(f@));
}

/// A copy of a list of expressions.
fn clone_exprs(v: &Vec<Expr>) -> (copy: Vec<Expr>)
    ensures
        exprs_view(copy@) == exprs_view(v@),
    decreases v,
{
    let mut copy: Vec<Expr> = Vec::new();
    let mut i: usize = 0;
    while i < v.len()
        invariant
            i <= v@.len(),
            copy@.len() == i,
            forall|j: int| 0 <= j < i ==> expr_view(copy@[j]) == expr_view(v@[j]),
        decreases v@.len() - i,
    {
        let e = v[i].clone();
        copy.push(e);
        i = i + 1;
    }
    assert(exprs_view(copy@) =~= exprs_view(v@));
    copy
}

/// A copy of a block.
fn clone_stmts(v: &Vec<Stmt>) -> (copy: Vec<Stmt>)
    ensures
        stmts_view(copy@) == stmts_view(v@),
    decreases v,
{
    let mut copy: Vec<Stmt> = Vec::new();
    let mut i: usize = 0;
    while i < v.len()
        invariant
            i <= v@.len(),
            copy@.len() == i,
            forall|j: int| 0 <= j < i ==> stmt_view(copy@[j]) == stmt_view(v@[j]),
        decreases v@.len() - i,
    {
        let s = v[i].clone();
        copy.push(s);
        i = i + 1;
    }
    assert(stmts_view(copy@) =~= stmts_view(v@));
    copy
}

impl Clone for Expr {
    /// A copy that denotes the same expression.
    fn clone(&self) -> (copy: Self)
        ensures
            copy@ == self@,
        decreases self,
    {
        match self {
            Expr::Number(n) => Expr::Number(*n),
            Expr::Bool(b) => Expr::Bool(*b),
            Expr::Var(name) => Expr::Var(name.clone()),
            Expr::Binary { op, lhs, rhs } => {
                let l = (**lhs).clone();
                let r = (**rhs).clone();
                Expr::Binary { op: *op, lhs: Box::new(l), rhs: Box::new(r) }
            },
            Expr::Logical { op, lhs, rhs } => {
                let l = (**lhs).clone();
                let r = (**rhs).clone();
                Expr::Logical { op: *op, lhs: Box::new(l), rhs: Box::new(r) }
            },
            Expr::Unary { op, expr } => {
                let e = (**expr).clone();
                Expr::Unary { op: *op, expr: Box::new(e) }
            },
            Expr::Call { name, args } => Expr::Call { name: name.clone(), args: clone_exprs(args) },
        }
    }
}

impl Clone for Stmt {
    /// A copy that denotes the same statement.
    fn clone(&self) -> (copy: Self)
        ensures
            copy@ == self@,
        decreases self,
    {
        match self {
            Stmt::VarDecl { name, value } => Stmt::VarDecl {
                name: name.clone(),
                value: value.clone(),
            },
            Stmt::Return(e) => Stmt::Return(e.clone()),
            Stmt::ExprStmt(e) => Stmt::ExprStmt(e.clone()),
            Stmt::If { condition, then_branch, else_branch } => Stmt::If {
                condition: condition.clone(),
                then_branch: clone_stmts(then_branch),
                else_branch: match else_branch {
                    Some(b) => Some(clone_stmts(b)),
                    None => None,
                },
            },
            Stmt::While { condition, body } => Stmt::While {
                condition: condition.clone(),
                body: clone_stmts(body),
            },
            Stmt::For { init, condition, update, body } => Stmt::For {
                init: match init {
                    Some(s) => Some(Box::new((**s).clone())),
                    None => None,
                },
                condition: match condition {
                    Some(c) => Some(c.clone()),
                    None => None,
                },
                update: match update {
                    Some(u) => Some(u.clone()),
                    None => None,
                },
                body: clone_stmts(body),
            },
        }
    }
}

impl Clone for Function {
    /// A copy that denotes the same function.
    fn clone(&self) -> (copy: Self)
        ensures
            copy@ == self@,
    {
        let mut params: Vec<String> = Vec::new();
        let mut i: usize = 0;
        while i < self.params.len()
            invariant
                i <= self.params@.len(),
                params@.len() == i,
                forall|j: int| 0 <= j < i ==> params@[j]@ == self.params@[j]@,
            decreases self.params@.len() - i,
        {
            params.push(self.params[i].clone());
            i = i + 1;
        }
        assert(names_view(params@) =~= names_view(self.params@));
        Function { name: self.name.clone(), params, body: clone_stmts(&self.body) }
    }
}

} // verus!
