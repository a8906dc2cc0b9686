//! Type expressions.
use vstd::prelude::*;

verus! {

/// The types that need no definition.
#[derive(Debug, Clone, Copy, PartialEq, Eq, Structural)]
pub enum PrimitiveType {
    Int,
    Float,
    String,
    Unit,
}

/// An expression that stands for a type.
#[derive(Debug, PartialEq)]
pub enum TypeExpr {
    TypeFn { arg: String, expr: Box<TypeExpr> },
    Record { fields: Vec<(String, TypeExpr)> },
    Enum { variants: Vec<(String, TypeExpr)> },
    Array(Box<TypeExpr>),
    Primitive(PrimitiveType),
    NamedType(String),
}

} // verus!
