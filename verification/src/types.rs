//! The types of the language, as a type checker would assign them.
use vstd::prelude::*;

verus! {

/// A type.
#[derive(Debug, PartialEq)]
pub enum Type {
    Unit,
    Bool,
    Int,
    Float,
    List(Box<Type>),
    Undefined,
}

/// Why an expression has no type.
#[derive(Debug, Clone, Copy, PartialEq, Eq, Structural)]
pub enum TypeError {
    /// An operator is applied to operands that it does not take.
    OperatorError,
    /// An identifier has no type in the context.
    TypedValueNotPresentInContext,
    /// The items of a list are not all of one type.
    NonUniformTypeInList,
}

/// The outcome of a type check.
pub type TypeRes = Result<Type, TypeError>;

/// What can be type checked in a context that gives the identifiers their
/// types.
pub trait TypeCheckVisitor {
    fn ty_check(&self, context: &mut Vec<(String, Type)>) -> TypeRes;
}

impl Type {
    /// How a type is shown.
    pub open spec fn shown(self) -> Seq<char>
        decreases self,
    {
        match self {
            Type::Unit => "unit"@,
            Type::Bool => "bool"@,
            Type::Int => "int"@,
            Type::Float => "float"@,
            Type::List(ty) => "list "@ + ty.shown(),
            Type::Undefined => "undefined type"@,
        }
    }

    /// Shows the type by its name.
    pub fn to_text(&self) -> (r: String)
        ensures
            r@ == self.shown(),
        decreases self,
    {
        match self {
            Type::Unit => "unit".to_owned(),
            Type::Bool => "bool".to_owned(),
            Type::Int => "int".to_owned(),
            Type::Float => "float".to_owned(),
            Type::List(ty) => "list ".to_owned().concat(ty.to_text().as_str()),
            Type::Undefined => "undefined type".to_owned(),
        }
    }
}

} // verus!
