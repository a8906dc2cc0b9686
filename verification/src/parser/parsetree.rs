//! The kinds of node in the flat parse tree.
use vstd::prelude::*;

verus! {

/// The kind of a node of the parse tree. The tree is kept as a flat stream
/// of nodes; a node that stands for an operator or a binder comes after the
/// nodes of what it applies to.
#[derive(Debug, Clone, Copy, PartialEq, Eq, Structural)]
pub enum NodeKind {
    /// The colon of a function declaration.
    FnDecl,
    /// The parameter of a function declaration.
    FnArg,
    /// The equals sign of an assignment.
    Assign,
    /// The name that an assignment binds.
    LAssign,
    /// The application of a function to an argument. It is written by
    /// putting the two side by side, so the grammar records this node
    /// without a token of its own.
    FnApp,
    /// The parenthesis that opens an atom.
    AtomBegin,
    /// The parenthesis that closes an atom.
    AtomEnd,
    /// An identifier used as a value.
    IdentValue,
    /// A number literal.
    Number,
    /// A prefix operator.
    UnaryOp,
    /// An infix operator.
    BinaryOp,
}

impl NodeKind {
    /// How a kind of node is shown.
    pub open spec fn shown(self) -> Seq<char> {
        match self {
            NodeKind::FnApp => "Function Application"@,
            NodeKind::AtomBegin => "Atom Begin"@,
            NodeKind::AtomEnd => "Atom End"@,
            NodeKind::FnDecl => "Function Declaration"@,
            NodeKind::FnArg => "Function Argument"@,
            NodeKind::IdentValue => "Ident as value"@,
            NodeKind::Assign => "Assign statement"@,
            NodeKind::LAssign => "Left side of the assignement"@,
            NodeKind::Number => "Number"@,
            NodeKind::UnaryOp => "Unary operator"@,
            NodeKind::BinaryOp => "Binary operator"@,
        }
    }

    /// Shows the kind of node by its name.
    pub fn to_text(&self) -> (r: String)
        ensures
            r@ == self.shown(),
    {
        match self {
            NodeKind::FnApp => "Function Application".to_owned(),
            NodeKind::AtomBegin => "Atom Begin".to_owned(),
            NodeKind::AtomEnd => "Atom End".to_owned(),
            NodeKind::FnDecl => "Function Declaration".to_owned(),
            NodeKind::FnArg => "Function Argument".to_owned(),
            NodeKind::IdentValue => "Ident as value".to_owned(),
            NodeKind::Assign => "Assign statement".to_owned(),
            NodeKind::LAssign => "Left side of the assignement".to_owned(),
            NodeKind::Number => "Number".to_owned(),
            NodeKind::UnaryOp => "Unary operator".to_owned(),
            NodeKind::BinaryOp => "Binary operator".to_owned(),
        }
    }
}

} // verus!
