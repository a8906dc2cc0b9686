//! Operators.
use vstd::prelude::*;
use crate::lexer::token::TkKind;

verus! {

/// The operators of the language. Among the arithmetic operators `Mul`,
/// `Div` and `Mod` bind tighter than `Add` and `Sub`; a prefix `Add` or
/// `Sub` binds tighter than any infix operator.
#[derive(Debug, Clone, Copy, PartialEq, Eq, Structural)]
pub enum Op {
    Add,
    Sub,
    Mul,
    Div,
    Mod,
    /// `a |> f`: `f` applied to `a`.
    Pipe,
    /// `a.f`: `f` applied to `a`.
    Dot,
    Eq,
    Neq,
    Not,
    Xor,
    And,
    Or,
}

impl Op {
    /// Whether the operator may stand between two operands.
    pub open spec fn infix(self) -> bool {
        self == Op::Add || self == Op::Sub || self == Op::Mul || self == Op::Div || self
            == Op::Mod
    }

    /// Whether the operator works on truth values.
    pub open spec fn boolean(self) -> bool {
        self == Op::Not || self == Op::Xor || self == Op::And || self == Op::Or
    }

    /// Whether the operator may stand before a single operand.
    pub open spec fn prefix(self) -> bool {
        self == Op::Add || self == Op::Sub
    }

    /// How tightly the operator binds as an infix operator.
    pub open spec fn precedence(self) -> nat {
        match self {
            Op::Add | Op::Sub => 1,
            Op::Mul | Op::Div | Op::Mod => 2,
            _ => 0,
        }
    }

    /// The operator that a token of kind `kind` stands for.
    pub open spec fn of_token(kind: TkKind) -> Option<Op> {
        match kind {
            TkKind::Plus => Some(Op::Add),
            TkKind::Dash => Some(Op::Sub),
            TkKind::Star => Some(Op::Mul),
            TkKind::Slash => Some(Op::Div),
            TkKind::Percent => Some(Op::Mod),
            _ => None,
        }
    }

    /// The kind of the token that writes an arithmetic operator.
    pub open spec fn token(self) -> Option<TkKind> {
        match self {
            Op::Add => Some(TkKind::Plus),
            Op::Sub => Some(TkKind::Dash),
            Op::Mul => Some(TkKind::Star),
            Op::Div => Some(TkKind::Slash),
            Op::Mod => Some(TkKind::Percent),
            _ => None,
        }
    }

    /// The kind of the token that writes the operator, if one token does.
    pub fn token_kind(&self) -> (r: Option<TkKind>)
        ensures
            r == self.token(),
            r matches Some(kind) ==> Op::of_token(kind) == Some(*self),
            r is Some == self.infix(),
    {
        match self {
            Op::Add => Some(TkKind::Plus),
            Op::Sub => Some(TkKind::Dash),
            Op::Mul => Some(TkKind::Star),
            Op::Div => Some(TkKind::Slash),
            Op::Mod => Some(TkKind::Percent),
            _ => None,
        }
    }

    /// How the operator is written.
    pub open spec fn shown(self) -> Seq<char> {
        match self {
            Op::Add => "+"@,
            Op::Sub => "-"@,
            Op::Mul => "*"@,
            Op::Div => "/"@,
            Op::Mod => "%"@,
            Op::Pipe => "|>"@,
            Op::Dot => "."@,
            Op::Not => "!"@,
            Op::Xor => "^"@,
            Op::And => "&&"@,
            Op::Or => "||"@,
            Op::Eq => "=="@,
            Op::Neq => "!="@,
        }
    }

    /// Shows the operator as it is written.
    pub fn to_text(&self) -> (r: String)
        ensures
            r@ == self.shown(),
    {
        match self {
            Op::Add => "+".to_owned(),
            Op::Sub => "-".to_owned(),
            Op::Mul => "*".to_owned(),
            Op::Div => "/".to_owned(),
            Op::Mod => "%".to_owned(),
            Op::Pipe => "|>".to_owned(),
            Op::Dot => ".".to_owned(),
            Op::Not => "!".to_owned(),
            Op::Xor => "^".to_owned(),
            Op::And => "&&".to_owned(),
            Op::Or => "||".to_owned(),
            Op::Eq => "==".to_owned(),
            Op::Neq => "!=".to_owned(),
        }
    }

    pub fn is_bin_op(&self) -> (r: bool)
        ensures
            r == self.infix(),
    {
        match self {
            Op::Add | Op::Sub | Op::Mul | Op::Div | Op::Mod => true,
            _ => false,
        }
    }

    pub fn is_bool_op(&self) -> (r: bool)
        ensures
            r == self.boolean(),
    {
        match self {
            Op::Not | Op::Xor | Op::And | Op::Or => true,
            _ => false,
        }
    }

    pub fn is_unary_op(&self) -> (r: bool)
        ensures
            r == self.prefix(),
    {
        match self {
            Op::Add | Op::Sub => true,
            _ => false,
        }
    }

    /// How tightly the operator binds as an infix operator: the greater
    /// binds tighter.
    pub fn prec(&self) -> (r: usize)
        ensures
            r == self.precedence(),
    {
        match self {
            Op::Add | Op::Sub => 1,
            Op::Mul | Op::Div | Op::Mod => 2,
            _ => 0,
        }
    }

    /// The arithmetic operator that a token of kind `kind` stands for, if it
    /// stands for one.
    pub fn from_token_kind(kind: TkKind) -> (r: Option<Op>)
        ensures
            r == Op::of_token(kind),
            r matches Some(op) ==> op.infix(),
    {
        match kind {
            TkKind::Plus => Some(Op::Add),
            TkKind::Dash => Some(Op::Sub),
            TkKind::Star => Some(Op::Mul),
            TkKind::Slash => Some(Op::Div),
            TkKind::Percent => Some(Op::Mod),
            _ => None,
        }
    }
}

/// The multiplicative operators bind tighter than the additive ones, and
/// every prefix operator is an infix operator too.
pub proof fn lemma_precedence(a: Op, b: Op)
    requires
        a == Op::Mul || a == Op::Div || a == Op::Mod,
        b == Op::Add || b == Op::Sub,
    ensures
        a.precedence() > b.precedence(),
        b.prefix() && b.infix(),
        a.infix() && !a.prefix(),
{
}

} // verus!
