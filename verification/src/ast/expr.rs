//! Expressions.

use vstd::prelude::*;
use crate::ast::func::FuncCall;
use crate::ast::{BinOpKind, Ident, Node, UnOpKind};

verus! {

/// An expression.
#[derive(Debug, PartialEq)]
pub enum Expr {
    /// An integer literal, with its value.
    Integer(i64),
    /// A floating-point literal, with its text as written.
    Float(String),
    /// A character literal.
    Char(char),
    /// A string literal, with the text between the quotes.
    Text(String),
    /// The use of a name.
    Name(Ident),
    /// A unary operator and its operand.
    Unary(UnOpKind, Box<Node<Expr>>),
    /// A binary operator and its operands, left and right.
    Binary(BinOpKind, Box<Node<Expr>>, Box<Node<Expr>>),
    /// A call of a function.
    Call(FuncCall),
}

} // verus!
