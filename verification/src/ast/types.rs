//! Types, and types as they are written.

use vstd::prelude::*;
use crate::ast::Ident;

verus! {

/// A type of the language.
#[derive(Clone, Copy, Debug, PartialEq, Eq, Structural)]
pub enum Type {
    /// The type of an expression that has no value.
    Unit,
    /// The 64-bit signed integers.
    Int,
    /// The 64-bit floating-point numbers.
    Float,
    /// The truth values, which the comparisons give.
    Bool,
    /// The characters.
    Char,
    /// The strings.
    Text,
}

/// A type as it is written in the source: by its name.
#[derive(Clone, Debug, PartialEq)]
pub struct TypeExpr {
    /// The name of the type.
    pub name: Ident,
}

} // verus!
