//! The tree nodes of the language and the operator kinds they carry.

use vstd::prelude::*;
use crate::ast::expr::Expr;
use crate::ast::types::Type;
use crate::lexer::chars::{chars_of, CharClass};

pub mod expr;
pub mod func;
pub mod types;

verus! {

/// The kinds of binary operator.
#[derive(Clone, Copy, Debug, PartialEq, Eq, Structural)]
pub enum BinOpKind {
    /// The `+` operator.
    Add,
    /// The `-` operator.
    Sub,
    /// The `*` operator.
    Mul,
    /// The `/` operator.
    Div,
    /// The `%` operator.
    Mod,
    /// The `==` operator.
    Eq,
    /// The `<` operator.
    Lt,
    /// The `>` operator.
    Gt,
    /// The `<=` operator.
    Le,
    /// The `>=` operator.
    Ge,
    /// The `>>` operator.
    Shr,
    /// The `<<` operator.
    Shl,
}

impl BinOpKind {
    /// The characters by which the operator is written.
    pub open spec fn symbol(self) -> Seq<char> {
        match self {
            BinOpKind::Add => seq!['+'],
            BinOpKind::Sub => seq!['-'],
            BinOpKind::Mul => seq!['*'],
            BinOpKind::Div => seq!['/'],
            BinOpKind::Mod => seq!['%'],
            BinOpKind::Eq => seq!['=', '='],
            BinOpKind::Lt => seq!['<'],
            BinOpKind::Gt => seq!['>'],
            BinOpKind::Le => seq!['<', '='],
            BinOpKind::Ge => seq!['>', '='],
            BinOpKind::Shr => seq!['>', '>'],
            BinOpKind::Shl => seq!['<', '<'],
        }
    }

    /// Whether the operator compares its operands, that is, whether it is one
    /// of `==`, `<`, `>`, `<=`, `>=`.
    pub open spec fn compares(self) -> bool {
        self is Eq || self is Lt || self is Gt || self is Le || self is Ge
    }

    /// The operator as it is written in source text.
    pub fn to_string(&self) -> (s: &'static str)
        ensures
            s@ == self.symbol(),
    {
        proof {
            reveal_strlit("+");
            reveal_strlit("-");
            reveal_strlit("*");
            reveal_strlit("/");
            reveal_strlit("%");
            reveal_strlit("==");
            reveal_strlit("<");
            reveal_strlit(">");
            reveal_strlit("<=");
            reveal_strlit(">=");
            reveal_strlit(">>");
            reveal_strlit("<<");
        }
        let s = match *self {
            BinOpKind::Add => "+",
            BinOpKind::Sub => "-",
            BinOpKind::Mul => "*",
            BinOpKind::Div => "/",
            BinOpKind::Mod => "%",
            BinOpKind::Eq => "==",
            BinOpKind::Lt => "<",
            BinOpKind::Gt => ">",
            BinOpKind::Le => "<=",
            BinOpKind::Ge => ">=",
            BinOpKind::Shr => ">>",
            BinOpKind::Shl => "<<",
        };
        assert(s@ =~= self.symbol());
        s
    }

    /// Tests whether this operator is a comparison.
    pub fn is_comparison(&self) -> (b: bool)
        ensures
            b == self.compares(),
    {
        match *self {
            BinOpKind::Eq | BinOpKind::Lt | BinOpKind::Gt | BinOpKind::Le | BinOpKind::Ge => true,
            BinOpKind::Add
            | BinOpKind::Sub
            | BinOpKind::Mul
            | BinOpKind::Div
            | BinOpKind::Mod
            | BinOpKind::Shr
            | BinOpKind::Shl => false,
        }
    }
}

/// The kinds of unary operator.
#[derive(Clone, Copy, Debug, PartialEq, Eq, Structural)]
pub enum UnOpKind {
    /// The `!` operator.
    Not,
    /// The `-` operator.
    Neg,
}

impl UnOpKind {
    /// The characters by which the operator is written.
    pub open spec fn symbol(self) -> Seq<char> {
        match self {
            UnOpKind::Not => seq!['!'],
            UnOpKind::Neg => seq!['-'],
        }
    }

    /// The operator as it is written in source text.
    pub fn to_string(&self) -> (s: &'static str)
        ensures
            s@ == self.symbol(),
    {
        proof {
            reveal_strlit("!");
            reveal_strlit("-");
        }
        let s = match *self {
            UnOpKind::Not => "!",
            UnOpKind::Neg => "-",
        };
        assert(s@ =~= self.symbol());
        s
    }
}

/// A payload together with the place in the source text where it was found.
/// The node owns its payload.
#[derive(Clone, Debug, PartialEq)]
pub struct Node<T> {
    /// The index in the source of the first character of the node.
    pub start: usize,
    /// The number of characters of the source that the node covers.
    pub length: usize,
    /// The payload.
    pub value: T,
}

impl<T> Node<T> {
    /// Wraps `value`, found at `start` and `length` characters long.
    pub fn new(start: usize, length: usize, value: T) -> (node: Node<T>)
        ensures
            node.start == start,
            node.length == length,
            node.value == value,
    {
        Node { start, length, value }
    }
}

/// Whether `text` is a name: one or more letters and underscores, which is
/// what the identifier rule of the lexer matches.
pub open spec fn is_name(text: Seq<char>) -> bool {
    &&& text.len() > 0
    &&& forall|i: int| 0 <= i < text.len() ==> CharClass::Ident.has(#[trigger] text[i])
}

/// An identifier.
#[derive(Clone, Debug, PartialEq)]
pub struct Ident {
    /// The number that tells this binding from every other. A later stage
    /// hands the numbers out; here one is only stored.
    pub id: i64,
    /// The name as written in the source.
    pub val: String,
}

impl Ident {
    /// Whether the identifier holds a name.
    pub open spec fn well_formed(self) -> bool {
        is_name(self.val@)
    }

    /// Tests whether the identifier holds a name.
    pub fn is_well_formed(&self) -> (b: bool)
        ensures
            b == self.well_formed(),
    {
        let chars = chars_of(self.val.as_str());
        let mut i: usize = 0;
        while i < chars.len()
            invariant
                i <= chars.len(),
                chars@ == self.val@,
                forall|j: int| 0 <= j < i ==> CharClass::Ident.has(#[trigger] chars@[j]),
            decreases chars.len() - i,
        {
            if !CharClass::Ident.contains(chars[i]) {
                return false;
            }
            i = i + 1;
        }
        chars.len() > 0
    }
}

/// Whether a binding may be assigned to again.
#[derive(Clone, Copy, Debug, PartialEq, Eq, Structural)]
pub enum Mutability {
    /// The binding is immutable.
    Not,
    /// The binding is mutable.
    Mut,
}

/// A declared binding.
#[derive(Clone, Debug, PartialEq)]
pub struct Variable {
    /// The identifier of the variable.
    pub ident: Ident,
    /// Whether the variable may be assigned to again.
    pub mutable: Mutability,
    /// The type of the variable.
    pub ty: Type,
}

/// The body of a lexical scope.
#[derive(Debug, PartialEq)]
pub struct Block {
    /// The block that encloses this one, if any. A block owns its parent.
    pub parent: Option<Box<Block>>,
    /// The expressions of the block, in the order of the source.
    pub exprs: Vec<Expr>,
}

/// A parameter of a function: its name and its type.
#[derive(Clone, Debug, PartialEq)]
pub struct ParenArgument {
    /// The identifier of the parameter.
    pub name: Ident,
    /// The type of the parameter.
    pub ty: Type,
}

/// A function with its body and its resolved types.
#[derive(Debug, PartialEq)]
pub struct FuncDeclare {
    ident: Ident,
    method: Block,
    args: Vec<ParenArgument>,
    ret_ty: Type,
}

impl FuncDeclare {
    /// The identifier of the function.
    pub closed spec fn spec_ident(&self) -> Ident {
        self.ident
    }

    /// The block that is the body of the function.
    pub closed spec fn spec_method(&self) -> Block {
        self.method
    }

    /// The parameters of the function, in the order of their declaration.
    pub closed spec fn spec_args(&self) -> Vec<ParenArgument> {
        self.args
    }

    /// The type of what the function returns.
    pub closed spec fn spec_ret_ty(&self) -> Type {
        self.ret_ty
    }

    /// A function of the given name, body, parameters and return type.
    pub fn new(ident: Ident, method: Block, args: Vec<ParenArgument>, ret_ty: Type) -> (decl:
        FuncDeclare)
        ensures
            decl.spec_ident() == ident,
            decl.spec_method() == method,
            decl.spec_args() == args,
            decl.spec_ret_ty() == ret_ty,
    {
        FuncDeclare { ident, method, args, ret_ty }
    }

    /// The identifier of the function.
    pub fn ident(&self) -> (ident: &Ident)
        ensures
            *ident == self.spec_ident(),
    {
        &self.ident
    }

    /// The block that is the body of the function.
    pub fn method(&self) -> (method: &Block)
        ensures
            *method == self.spec_method(),
    {
        &self.method
    }

    /// The parameters of the function, in the order of their declaration.
    pub fn args(&self) -> (args: &Vec<ParenArgument>)
        ensures
            *args == self.spec_args(),
    {
        &self.args
    }

    /// The type of what the function returns.
    pub fn ret_ty(&self) -> (ret_ty: Type)
        ensures
            ret_ty == self.spec_ret_ty(),
    {
        self.ret_ty
    }
}

impl BinOpKind {
    /// Spells out the symbol of one operator, character by character.
    proof fn lemma_symbol_chars(self)
        ensures
            self.symbol().len() == 1 || self.symbol().len() == 2,
            self is Add <==> self.symbol().len() == 1 && self.symbol()[0] == '+',
            self is Sub <==> self.symbol().len() == 1 && self.symbol()[0] == '-',
            self is Mul <==> self.symbol().len() == 1 && self.symbol()[0] == '*',
            self is Div <==> self.symbol().len() == 1 && self.symbol()[0] == '/',
            self is Mod <==> self.symbol().len() == 1 && self.symbol()[0] == '%',
            self is Lt <==> self.symbol().len() == 1 && self.symbol()[0] == '<',
            self is Gt <==> self.symbol().len() == 1 && self.symbol()[0] == '>',
            self is Eq <==> self.symbol().len() == 2 && self.symbol()[0] == '=',
            self is Le <==> self.symbol().len() == 2 && self.symbol()[0] == '<'
                && self.symbol()[1] == '=',
            self is Ge <==> self.symbol().len() == 2 && self.symbol()[0] == '>'
                && self.symbol()[1] == '=',
            self is Shr <==> self.symbol().len() == 2 && self.symbol()[0] == '>'
                && self.symbol()[1] == '>',
            self is Shl <==> self.symbol().len() == 2 && self.symbol()[0] == '<'
                && self.symbol()[1] == '<',
    {
        match self {
            BinOpKind::Add => assert(self.symbol() =~= seq!['+']),
            BinOpKind::Sub => assert(self.symbol() =~= seq!['-']),
            BinOpKind::Mul => assert(self.symbol() =~= seq!['*']),
            BinOpKind::Div => assert(self.symbol() =~= seq!['/']),
            BinOpKind::Mod => assert(self.symbol() =~= seq!['%']),
            BinOpKind::Eq => assert(self.symbol() =~= seq!['=', '=']),
            BinOpKind::Lt => assert(self.symbol() =~= seq!['<']),
            BinOpKind::Gt => assert(self.symbol() =~= seq!['>']),
            BinOpKind::Le => assert(self.symbol() =~= seq!['<', '=']),
            BinOpKind::Ge => assert(self.symbol() =~= seq!['>', '=']),
            BinOpKind::Shr => assert(self.symbol() =~= seq!['>', '>']),
            BinOpKind::Shl => assert(self.symbol() =~= seq!['<', '<']),
        }
    }
}

/// Two binary operators that are written alike are the same operator.
pub proof fn lemma_binop_symbol_injective(a: BinOpKind, b: BinOpKind)
    requires
        a.symbol() == b.symbol(),
    ensures
        a == b,
{
    a.lemma_symbol_chars();
    b.lemma_symbol_chars();
}

/// An operator is a comparison exactly when its symbol is one of `==`, `<`,
/// `>`, `<=` and `>=`.
pub proof fn lemma_comparison_by_symbol(k: BinOpKind)
    ensures
        k.compares() <==> k.symbol() == seq!['=', '='] || k.symbol() == seq!['<'] || k.symbol()
            == seq!['>'] || k.symbol() == seq!['<', '='] || k.symbol() == seq!['>', '='],
{
    k.lemma_symbol_chars();
    BinOpKind::Eq.lemma_symbol_chars();
    BinOpKind::Lt.lemma_symbol_chars();
    BinOpKind::Gt.lemma_symbol_chars();
    BinOpKind::Le.lemma_symbol_chars();
    BinOpKind::Ge.lemma_symbol_chars();
}

/// Two unary operators that are written alike are the same operator.
pub proof fn lemma_unop_symbol_injective(a: UnOpKind, b: UnOpKind)
    requires
        a.symbol() == b.symbol(),
    ensures
        a == b,
{
    assert(seq!['!'][0] == '!');
    assert(seq!['-'][0] == '-');
}

} // verus!
