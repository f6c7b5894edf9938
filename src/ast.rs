use vstd::prelude::*;

verus! {

#[derive(Debug, Clone, Copy, PartialEq, Eq, Structural)]
pub enum BinaryOp {
    Add,
    Sub,
    Mul,
    Div,
    Mod,
    Eq,
    NotEq,
    Lt,
    Lte,
    Gt,
    Gte,
    And,
    Or,
}

#[derive(Debug, Clone, Copy, PartialEq, Eq, Structural)]
pub enum UnaryOp {
    Minus,
    Not,
}

/// A constant written in the program. A number keeps the digits it was
/// written with.
#[derive(Debug, Clone)]
pub enum Literal {
    Null,
    Undefined,
    Bool(bool),
    Number(String),
    NaN,
    Infinity,
    Str(String),
}

#[derive(Debug)]
pub enum Expr {
    Literal(Literal),
    Variable(String),
    Assignment(String, Box<Expr>),
    Binary(Box<Expr>, BinaryOp, Box<Expr>),
    Unary(UnaryOp, Box<Expr>),
    Call(Box<Expr>, Vec<Expr>),
    /// `object.name`
    Get(Box<Expr>, String),
    /// `object[key]`
    Index(Box<Expr>, Box<Expr>),
    /// `object.name = value`
    SetField(Box<Expr>, String, Box<Expr>),
    /// `object[key] = value`
    SetIndex(Box<Expr>, Box<Expr>, Box<Expr>),
    ArrayLiteral(Vec<Expr>),
    ObjectLiteral(Vec<(String, Expr)>),
    Function(Option<String>, Vec<String>, Vec<Stmt>),
    /// The target, and whether the operator stands before it.
    Increment(Box<Expr>, bool),
    Decrement(Box<Expr>, bool),
}

#[derive(Debug)]
pub enum Stmt {
    Expression(Expr),
    Print(Expr),
    /// The name, its initializer, and whether it is a constant.
    VarDeclaration(String, Option<Expr>, bool),
    Block(Vec<Stmt>),
    If(Expr, Box<Stmt>, Option<Box<Stmt>>),
    While(Expr, Box<Stmt>),
    Function(String, Vec<String>, Vec<Stmt>),
    Return(Option<Expr>),
    Break,
    Continue,
    /// The subject and its clauses in order; a clause without an expression
    /// is the default clause.
    Switch(Expr, Vec<(Option<Expr>, Vec<Stmt>)>),
}

pub open spec fn is_variable(e: Expr, name: Seq<char>) -> bool {
    e matches Expr::Variable(n) && n@ == name
}

/// Whether `e` may stand before `++` or `--`, or on the left of `=`.
pub open spec fn is_place(e: Expr) -> bool {
    e is Variable || e is Get || e is Index
}

} // verus!
