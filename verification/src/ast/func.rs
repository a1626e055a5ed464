//! Functions: declared, called, and supplied from outside the language.

use vstd::prelude::*;
use crate::ast::expr::Expr;
use crate::ast::types::TypeExpr;
use crate::ast::{Block, Ident, Node};

verus! {

/// A function that is defined in the language.
#[derive(Debug, PartialEq)]
pub struct FuncDecl {
    /// The identifier of the function.
    pub ident: Node<Ident>,
    /// The parameters of the function, in the order of their declaration.
    pub args: Vec<Node<ParenArgument>>,
    /// The body of the function.
    pub body: Node<Block>,
}

/// A call of a function.
#[derive(Debug, PartialEq)]
pub struct FuncCall {
    /// The identifier of the function that is called.
    pub ident: Node<Ident>,
    /// The expressions that are passed to it, in the order of the call.
    pub args: Vec<Node<Expr>>,
}

/// One declared parameter.
#[derive(Debug, PartialEq, Clone)]
pub struct ParenArgument {
    /// The identifier of the parameter.
    pub ident: Node<Ident>,
    /// The type of the parameter as it was written.
    pub type_expr: Node<TypeExpr>,
}

/// A function whose body is supplied from outside the language. It has no
/// body here, and always a return type.
#[derive(Debug, PartialEq)]
pub struct ExternFunc {
    /// The identifier of the function.
    pub ident: Node<Ident>,
    /// The parameters of the function, in the order of their declaration.
    pub args: Vec<Node<ParenArgument>>,
    /// The return type of the function as it was written.
    pub ret_type_expr: Node<TypeExpr>,
}

impl ParenArgument {
    /// A parameter of the given name and type.
    pub fn new(ident: Node<Ident>, type_expr: Node<TypeExpr>) -> (arg: ParenArgument)
        ensures
            arg.ident == ident,
            arg.type_expr == type_expr,
    {
        ParenArgument { ident, type_expr }
    }
}

impl FuncDecl {
    /// A function of the given name, parameters and body. The parameters
    /// stay as they are and in their order.
    pub fn new(ident: Node<Ident>, args: Vec<Node<ParenArgument>>, body: Node<Block>) -> (decl:
        FuncDecl)
        ensures
            decl.ident == ident,
            decl.args == args,
            decl.body == body,
    {
        FuncDecl { ident, args, body }
    }

    /// The number of parameters.
    pub fn arity(&self) -> (n: usize)
        ensures
            n == self.args@.len(),
    {
        self.args.len()
    }

    /// The parameter at place `i`, counted from zero, if there is one.
    pub fn arg(&self, i: usize) -> (arg: Option<&Node<ParenArgument>>)
        ensures
            i < self.args@.len() ==> arg == Some(&self.args@[i as int]),
            i >= self.args@.len() ==> arg is None,
    {
        if i < self.args.len() {
            Some(&self.args[i])
        } else {
            None
        }
    }
}

impl FuncCall {
    /// A call of the function `ident` with the given arguments, which stay
    /// as they are and in their order.
    pub fn new(ident: Node<Ident>, args: Vec<Node<Expr>>) -> (call: FuncCall)
        ensures
            call.ident == ident,
            call.args == args,
    {
        FuncCall { ident, args }
    }
}

impl ExternFunc {
    /// A function of the given name, parameters and return type whose body
    /// lies outside the language. The parameters stay as they are and in
    /// their order.
    pub fn new(
        ident: Node<Ident>,
        args: Vec<Node<ParenArgument>>,
        ret_type_expr: Node<TypeExpr>,
    ) -> (func: ExternFunc)
        ensures
            func.ident == ident,
            func.args == args,
            func.ret_type_expr == ret_type_expr,
    {
        ExternFunc { ident, args, ret_type_expr }
    }

    /// The number of parameters.
    pub fn arity(&self) -> (n: usize)
        ensures
            n == self.args@.len(),
    {
        self.args.len()
    }

    /// The parameter at place `i`, counted from zero, if there is one.
    pub fn arg(&self, i: usize) -> (arg: Option<&Node<ParenArgument>>)
        ensures
            i < self.args@.len() ==> arg == Some(&self.args@[i as int]),
            i >= self.args@.len() ==> arg is None,
    {
        if i < self.args.len() {
            Some(&self.args[i])
        } else {
            None
        }
    }
}

} // verus!
