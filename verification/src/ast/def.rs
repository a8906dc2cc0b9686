//! Definitions.
use vstd::prelude::*;
use crate::ast::context::Context;
use crate::ast::expr::{Expr, Value, ValueModel};
use crate::ast::ty::TypeExpr;

verus! {

/// A definition at the top level.
#[derive(Debug, PartialEq)]
pub enum Def {
    Fn { ident: String, ty: Option<TypeExpr>, expr: Expr },
    Type { ident: String, ty: TypeExpr },
    Binding { ident: String, ty: TypeExpr },
}

impl Def {
    /// The definition of `ident` as `expr`, with no type given.
    pub fn function(ident: String, expr: Expr) -> (r: Def)
        ensures
            r == (Def::Fn { ident, expr, ty: None }),
    {
        Def::Fn { ident, expr, ty: None }
    }

    /// The definition of the type `ident` as `ty`.
    pub fn ty(ident: String, ty: TypeExpr) -> (r: Def)
        ensures
            r == (Def::Type { ident, ty }),
    {
        Def::Type { ident, ty }
    }

    /// The definition of `ident` as `expr`, with the type `ty` if one is
    /// given.
    pub fn typed_function(ident: String, ty: Option<TypeExpr>, expr: Expr) -> (r: Def)
        ensures
            r == (Def::Fn { ident, ty, expr }),
    {
        Def::Fn { ident, ty, expr }
    }

    /// The declaration that `ident` has the type `ty`.
    pub fn type_binding(ident: String, ty: TypeExpr) -> (r: Def)
        ensures
            r == (Def::Binding { ident, ty }),
    {
        Def::Binding { ident, ty }
    }
}

/// A function: the name of its parameter and its body.
#[derive(Debug, PartialEq)]
pub struct Function {
    pub arg: String,
    pub body: Expr,
}

/// The definition of a function under a name.
#[derive(Debug, PartialEq)]
pub struct FunctionDef {
    pub ident: String,
    pub fun: Function,
}

impl FunctionDef {
    pub fn new(ident: String, fun: Function) -> (r: FunctionDef)
        ensures
            r.ident == ident,
            r.fun == fun,
    {
        FunctionDef { ident, fun }
    }

    /// The value that the definition binds its name to: the function, with
    /// its parameter and its body, which is not evaluated.
    pub open spec fn closure(&self) -> ValueModel {
        ValueModel::Fn { arg: self.fun.arg@, expr: Box::new(self.fun.body@) }
    }

    /// Binds the name to the function. The value of a definition is the
    /// unit.
    pub fn eval(&self, context: &mut Context) -> (r: Value)
        requires
            old(context).wf(),
        ensures
            final(context).wf(),
            final(context)@ == old(context)@.insert(self.ident@, self.closure()),
            r@ == ValueModel::Unit,
    {
        let value = Value::Fn { arg: self.fun.arg.clone(), expr: Box::new(self.fun.body.duplicate()) };
        context.insert(self.ident.clone(), value);
        Value::Unit
    }
}

} // verus!
