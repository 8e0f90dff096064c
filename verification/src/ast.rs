//! The abstract syntax tree the parser builds, and its mathematical
//! model.
//!
//! Every node owns its children outright, so a tree is finite and
//! acyclic by construction.  Each executable type has a ghost mirror
//! over `Seq` and `int`, and a view function mapping one onto the other;
//! parser contracts speak only about the mirrors.

use vstd::prelude::*;

verus! {

broadcast use
    vstd::seq::axiom_seq_index_decreases,
    vstd::seq::axiom_seq_subrange_decreases,
    vstd::std_specs::vec::axiom_vec_decreases_to_view,
    vstd::std_specs::vec::axiom_vec_index_decreases,
;

/// A binary operator that keeps its operands as plain subexpressions.
/// Assignment and field access have nodes of their own.
#[derive(Debug, Clone, Copy, PartialEq, Eq)]
pub enum BinOp {
    Add,
    Sub,
    Mul,
    Div,
    Lt,
    Gt,
    Eq,
    Ne,
    And,
}

/// An expression.  A float literal carries the digit run it was scanned
/// from, exactly as the float token does.
#[derive(Debug, PartialEq)]
pub enum Expr {
    Integer(i64),
    Float(String),
    Text(String),
    Identifier(String),
    Boolean(bool),
    FnCall(String, Vec<Expr>),
    Dot(Box<Expr>, Box<Expr>),
    Index(String, Box<Expr>),
    Assignment(Box<Expr>, Box<Expr>),
    Binary(BinOp, Box<Expr>, Box<Expr>),
}

/// The ghost mirror of [`Expr`].
pub enum SpecExpr {
    Integer(int),
    Float(Seq<char>),
    Text(Seq<char>),
    Identifier(Seq<char>),
    Boolean(bool),
    FnCall(Seq<char>, Seq<SpecExpr>),
    Dot(Box<SpecExpr>, Box<SpecExpr>),
    Index(Seq<char>, Box<SpecExpr>),
    Assignment(Box<SpecExpr>, Box<SpecExpr>),
    Binary(BinOp, Box<SpecExpr>, Box<SpecExpr>),
}

/// The model of an expression.
pub open spec fn expr_view(e: Expr) -> SpecExpr
    decreases e,
{
    match e {
        Expr::Integer(n) => SpecExpr::Integer(n as int),
        Expr::Float(s) => SpecExpr::Float(s@),
        Expr::Text(s) => SpecExpr::Text(s@),
        Expr::Identifier(s) => SpecExpr::Identifier(s@),
        Expr::Boolean(b) => SpecExpr::Boolean(b),
        Expr::FnCall(name, args) => SpecExpr::FnCall(name@, exprs_view(args@)),
        Expr::Dot(base, field) => SpecExpr::Dot(
            Box::new(expr_view(*base)),
            Box::new(expr_view(*field)),
        ),
        Expr::Index(name, idx) => SpecExpr::Index(name@, Box::new(expr_view(*idx))),
        Expr::Assignment(target, value) => SpecExpr::Assignment(
            Box::new(expr_view(*target)),
            Box::new(expr_view(*value)),
        ),
        Expr::Binary(op, lhs, rhs) => SpecExpr::Binary(
            op,
            Box::new(expr_view(*lhs)),
            Box::new(expr_view(*rhs)),
        ),
    }
}

/// The models of a row of expressions, in order.
pub open spec fn exprs_view(es: Seq<Expr>) -> Seq<SpecExpr>
    decreases es,
{
    if es.len() <= 0 {
        Seq::empty()
    } else {
        exprs_view(es.drop_last()).push(expr_view(es.last()))
    }
}

/// A statement.  `unless` is kept as a statement kind of its own, with
/// the condition unchanged, rather than being rewritten into an `if`
/// with a negated condition; the consumer of the tree interprets it.
#[derive(Debug, PartialEq)]
pub enum Statement {
    If(Box<Expr>, Box<Statement>),
    IfElse(Box<Expr>, Box<Statement>, Box<Statement>),
    Unless(Box<Expr>, Box<Statement>),
    UnlessElse(Box<Expr>, Box<Statement>, Box<Statement>),
    Var(String, Option<Box<Expr>>),
    Block(Vec<Statement>),
    Expr(Box<Expr>),
    Return,
    ReturnWithVal(Box<Expr>),
}

/// The ghost mirror of [`Statement`].
pub enum SpecStatement {
    If(Box<SpecExpr>, Box<SpecStatement>),
    IfElse(Box<SpecExpr>, Box<SpecStatement>, Box<SpecStatement>),
    Unless(Box<SpecExpr>, Box<SpecStatement>),
    UnlessElse(Box<SpecExpr>, Box<SpecStatement>, Box<SpecStatement>),
    Var(Seq<char>, Option<Box<SpecExpr>>),
    Block(Seq<SpecStatement>),
    Expr(Box<SpecExpr>),
    Return,
    ReturnWithVal(Box<SpecExpr>),
}

/// The model of a statement.
pub open spec fn stmt_view(st: Statement) -> SpecStatement
    decreases st,
{
    match st {
        Statement::If(c, body) => SpecStatement::If(
            Box::new(expr_view(*c)),
            Box::new(stmt_view(*body)),
        ),
        Statement::IfElse(c, t, e) => SpecStatement::IfElse(
            Box::new(expr_view(*c)),
            Box::new(stmt_view(*t)),
            Box::new(stmt_view(*e)),
        ),
        Statement::Unless(c, body) => SpecStatement::Unless(
            Box::new(expr_view(*c)),
            Box::new(stmt_view(*body)),
        ),
        Statement::UnlessElse(c, t, e) => SpecStatement::UnlessElse(
            Box::new(expr_view(*c)),
            Box::new(stmt_view(*t)),
            Box::new(stmt_view(*e)),
        ),
        Statement::Var(name, init) => SpecStatement::Var(
            name@,
            match init {
                Some(e) => Some(Box::new(expr_view(*e))),
                None => None,
            },
        ),
        Statement::Block(stmts) => SpecStatement::Block(stmts_view(stmts@)),
        Statement::Expr(e) => SpecStatement::Expr(Box::new(expr_view(*e))),
        Statement::Return => SpecStatement::Return,
        Statement::ReturnWithVal(e) => SpecStatement::ReturnWithVal(Box::new(expr_view(*e))),
    }
}

/// The models of a row of statements, in order.
pub open spec fn stmts_view(ss: Seq<Statement>) -> Seq<SpecStatement>
    decreases ss,
{
    if ss.len() <= 0 {
        Seq::empty()
    } else {
        stmts_view(ss.drop_last()).push(stmt_view(ss.last()))
    }
}

/// One parameter of a function declaration: its name and the name of
/// its type annotation.
#[derive(Debug, PartialEq)]
pub struct Param {
    pub name: String,
    pub ty: String,
}

/// The model of a parameter: name and type annotation.
pub open spec fn param_view(p: Param) -> (Seq<char>, Seq<char>) {
    (p.name@, p.ty@)
}

/// A top-level function declaration: a possibly dotted name, the
/// ordered parameters, the return-type annotation (empty when the
/// declaration carries none), and the body block.
#[derive(Debug, PartialEq)]
pub struct Function {
    pub name: String,
    pub params: Vec<Param>,
    pub body: Box<Statement>,
    pub ret: String,
}

/// The ghost mirror of [`Function`].
pub struct SpecFunction {
    pub name: Seq<char>,
    pub params: Seq<(Seq<char>, Seq<char>)>,
    pub body: Box<SpecStatement>,
    pub ret: Seq<char>,
}

/// The models of a row of parameters, in order.
pub open spec fn params_view(ps: Seq<Param>) -> Seq<(Seq<char>, Seq<char>)>
    decreases ps.len(),
{
    if ps.len() <= 0 {
        Seq::empty()
    } else {
        params_view(ps.drop_last()).push(param_view(ps.last()))
    }
}

/// The model of a function declaration.
pub open spec fn fn_view(f: Function) -> SpecFunction {
    SpecFunction {
        name: f.name@,
        params: params_view(f.params@),
        body: Box::new(stmt_view(*f.body)),
        ret: f.ret@,
    }
}

/// One top-level item of a program.
#[derive(Debug, PartialEq)]
pub enum Item {
    Function(Function),
    Statement(Statement),
}

/// The ghost mirror of [`Item`].
pub enum SpecItem {
    Function(SpecFunction),
    Statement(SpecStatement),
}

/// The model of a top-level item.
pub open spec fn item_view(it: Item) -> SpecItem {
    match it {
        Item::Function(f) => SpecItem::Function(fn_view(f)),
        Item::Statement(s) => SpecItem::Statement(stmt_view(s)),
    }
}

/// A whole parsed program: its top-level items in source order.
#[derive(Debug, PartialEq)]
pub struct Program {
    pub items: Vec<Item>,
}

/// The models of a row of top-level items, in order.
pub open spec fn items_view(its: Seq<Item>) -> Seq<SpecItem>
    decreases its.len(),
{
    if its.len() <= 0 {
        Seq::empty()
    } else {
        items_view(its.drop_last()).push(item_view(its.last()))
    }
}

/// The model of a program.
pub open spec fn program_view(p: Program) -> Seq<SpecItem> {
    items_view(p.items@)
}

} // verus!
