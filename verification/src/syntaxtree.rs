//! A small syntax tree: values, expressions, statements and blocks.

use vstd::prelude::*;

verus! {

/// A constant. A floating constant is held as the bit pattern of its 64 bits.
#[derive(PartialEq)]
pub enum Constant {
    Int(i32),
    Float(u64),
    Bool(bool),
    String(String),
    Char(char),
}

impl Clone for Constant {
    /// A copy of the constant.
    fn clone(&self) -> (copy: Constant)
        ensures
            copy == *self,
    {
        match self {
            Constant::Int(n) => Constant::Int(*n),
            Constant::Float(bits) => Constant::Float(*bits),
            Constant::Bool(b) => Constant::Bool(*b),
            Constant::String(s) => Constant::String(s.clone()),
            Constant::Char(c) => Constant::Char(*c),
        }
    }
}

/// A value: a constant, or a variable by its name.
pub enum Value {
    Constant(Constant),
    Variable(String),
}

/// A binary operator.
pub enum Bop {
    Add,
    Subtract,
    Multiply,
    Divide,
    Eq,
    Neq,
    Leq,
    Geq,
    Lt,
    Gt,
}

/// A unary operator.
pub enum Unop {
    Not,
    Minus,
}

/// A function with its arguments.
pub struct Func {
    pub iden: String,
    pub args: Vec<Expr>,
}

/// A binary operation.
pub struct BinaryExpr {
    pub op: Bop,
    pub lhs: Box<Expr>,
    pub rhs: Box<Expr>,
}

/// An expression.
pub enum Expr {
    Value(Value),
    BinaryOp(BinaryExpr),
    UnaryOp(Unop, Box<Expr>),
    Func(Func),
}

/// A statement.
pub enum Statement {
    Assign(String, Expr),
    Func(Func),
    Return(Expr),
}

/// A block, a conditional, a loop, or the definition of a function.
pub enum Ast {
    Block(Vec<Statement>),
    IfElse(BinaryExpr, Vec<Statement>, Vec<Statement>),
    IfReturn(BinaryExpr, Expr),
    While(Expr, Vec<Statement>),
    DefineFunc(String, Vec<String>, Vec<Statement>),
}

} // verus!
