use vstd::prelude::*;

verus! {

/// The types that a declaration may name.
#[derive(Debug, Clone, Copy, PartialEq, Eq, Structural)]
pub enum Type {
    Int,
    Float,
    String,
    Tensor,
    DynamicArray,
    Void,
}

/// The binary operators, loosest first: `||`, `&&`, comparisons, `+ -`,
/// `* / %`.
#[derive(Debug, Clone, Copy, PartialEq, Eq, Structural)]
pub enum BinaryOperator {
    Add,
    Sub,
    Mul,
    Div,
    Mod,
    Eq,
    Ne,
    Lt,
    Gt,
    Le,
    Ge,
    And,
    Or,
}

/// An expression. A float literal keeps the digits it was written with.
#[derive(Debug, PartialEq)]
pub enum Expr {
    IntLiteral(i64),
    FloatLiteral(String),
    StringLiteral(String),
    Identifier(String),
    BinaryOp(Box<Expr>, BinaryOperator, Box<Expr>),
    MethodCall(Box<Expr>, String, Vec<Expr>),
    Call(String, Vec<Expr>),
    MacroCall(String, Vec<Expr>),
    ArrayLit(Vec<Expr>),
}

/// The mathematical value of an expression.
pub enum ExprV {
    IntLiteral(i64),
    FloatLiteral(Seq<char>),
    StringLiteral(Seq<char>),
    Identifier(Seq<char>),
    BinaryOp(Box<ExprV>, BinaryOperator, Box<ExprV>),
    MethodCall(Box<ExprV>, Seq<char>, Seq<ExprV>),
    Call(Seq<char>, Seq<ExprV>),
    MacroCall(Seq<char>, Seq<ExprV>),
    ArrayLit(Seq<ExprV>),
}

pub open spec fn exprs_view(es: Seq<Expr>) -> Seq<ExprV>
    decreases es,
{
    Seq::new(es.len(), |i: int| if 0 <= i < es.len() { expr_view(es[i]) } else { ExprV::IntLiteral(0) })
}

pub open spec fn expr_view(e: Expr) -> ExprV
    decreases e,
{
    match e {
        Expr::IntLiteral(v) => ExprV::IntLiteral(v),
        Expr::FloatLiteral(s) => ExprV::FloatLiteral(s@),
        Expr::StringLiteral(s) => ExprV::StringLiteral(s@),
        Expr::Identifier(s) => ExprV::Identifier(s@),
        Expr::BinaryOp(l, op, r) => ExprV::BinaryOp(Box::new(expr_view(*l)), op, Box::new(expr_view(*r))),
        Expr::MethodCall(t, m, args) => ExprV::MethodCall(Box::new(expr_view(*t)), m@, exprs_view(args@)),
        Expr::Call(n, args) => ExprV::Call(n@, exprs_view(args@)),
        Expr::MacroCall(n, args) => ExprV::MacroCall(n@, exprs_view(args@)),
        Expr::ArrayLit(args) => ExprV::ArrayLit(exprs_view(args@)),
    }
}


/// A statement.
#[derive(Debug, PartialEq)]
pub enum Statement {
    LetDecl(String, Type, Expr),
    Assign(String, Expr),
    ExprStmt(Expr),
    If(Expr, Vec<Statement>, Vec<Statement>),
    While(Expr, Vec<Statement>),
    Return(Option<Expr>),
    FunctionDecl(String, Vec<(String, Type)>, Type, Vec<Statement>),
}

/// The mathematical value of a statement.
pub enum StmtV {
    LetDecl(Seq<char>, Type, ExprV),
    Assign(Seq<char>, ExprV),
    ExprStmt(ExprV),
    If(ExprV, Seq<StmtV>, Seq<StmtV>),
    While(ExprV, Seq<StmtV>),
    Return(Option<ExprV>),
    FunctionDecl(Seq<char>, Seq<(Seq<char>, Type)>, Type, Seq<StmtV>),
}

/// A whole program: its statements in order.
#[derive(Debug, PartialEq)]
pub struct Program {
    pub statements: Vec<Statement>,
}

pub open spec fn params_view(ps: Seq<(String, Type)>) -> Seq<(Seq<char>, Type)> {
    Seq::new(ps.len(), |i: int| (ps[i].0@, ps[i].1))
}

pub open spec fn stmts_view(ss: Seq<Statement>) -> Seq<StmtV>
    decreases ss,
{
    Seq::new(ss.len(), |i: int| if 0 <= i < ss.len() { stmt_view(ss[i]) } else { StmtV::Return(None) })
}

pub open spec fn stmt_view(s: Statement) -> StmtV
    decreases s,
{
    match s {
        Statement::LetDecl(n, t, e) => StmtV::LetDecl(n@, t, expr_view(e)),
        Statement::Assign(n, e) => StmtV::Assign(n@, expr_view(e)),
        Statement::ExprStmt(e) => StmtV::ExprStmt(expr_view(e)),
        Statement::If(c, a, b) => StmtV::If(expr_view(c), stmts_view(a@), stmts_view(b@)),
        Statement::While(c, b) => StmtV::While(expr_view(c), stmts_view(b@)),
        Statement::Return(e) => StmtV::Return(
            match e {
                Some(x) => Some(expr_view(x)),
                None => None,
            },
        ),
        Statement::FunctionDecl(n, ps, t, b) => StmtV::FunctionDecl(n@, params_view(ps@), t, stmts_view(b@)),
    }
}

impl View for Expr {
    type V = ExprV;

    open spec fn view(&self) -> ExprV {
        expr_view(*self)
    }
}

impl View for Statement {
    type V = StmtV;

    open spec fn view(&self) -> StmtV {
        stmt_view(*self)
    }
}

impl View for Program {
    type V = Seq<StmtV>;

    open spec fn view(&self) -> Seq<StmtV> {
        stmts_view(self.statements@)
    }
}
} // verus!
