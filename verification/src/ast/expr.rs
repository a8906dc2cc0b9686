//! Expressions and the values they evaluate to.
use vstd::prelude::*;
use vstd::std_specs::convert::{FromSpecImpl, IntoSpec};
use crate::ast::op::Op;

verus! {

/// A runtime value. A float is held as the bit pattern of an IEEE-754
/// double; a function value holds the name of its parameter and its body,
/// which is not evaluated before the function is applied.
#[derive(Debug, PartialEq)]
pub enum Value {
    Int(i64),
    Float(u64),
    Unit,
    List(Vec<Value>),
    Fn { arg: String, expr: Box<Expr> },
}

/// A prefix operator applied to an operand.
#[derive(Debug, PartialEq)]
pub struct UnaryExpr {
    pub op: Op,
    pub expr: Box<Expr>,
}

/// An infix operator between two operands.
#[derive(Debug, PartialEq)]
pub struct BinaryExpr {
    pub lhs: Box<Expr>,
    pub op: Op,
    pub rhs: Box<Expr>,
}

/// An expression. Each expression owns its operands.
#[derive(Debug, PartialEq)]
pub enum Expr {
    Unary(UnaryExpr),
    Binary(BinaryExpr),
    Value(Value),
    Ident(String),
}

/// What a value is.
pub enum ValueModel {
    Int(i64),
    Float(u64),
    Unit,
    List(Seq<ValueModel>),
    Fn { arg: Seq<char>, expr: Box<ExprModel> },
}

/// What an expression is.
pub enum ExprModel {
    Unary(Op, Box<ExprModel>),
    Binary(Op, Box<ExprModel>, Box<ExprModel>),
    Value(ValueModel),
    Ident(Seq<char>),
}

/// The variants of a value.
#[derive(Debug, Clone, Copy, PartialEq, Eq, Structural)]
pub enum ValueKind {
    Int,
    Float,
    Unit,
    List,
    Fn,
}

impl ValueKind {
    /// How a variant is shown.
    pub open spec fn shown(self) -> Seq<char> {
        match self {
            ValueKind::Int => "int"@,
            ValueKind::Float => "float"@,
            ValueKind::Unit => "unit"@,
            ValueKind::List => "list"@,
            ValueKind::Fn => "function"@,
        }
    }

    /// Shows the variant by its name.
    pub fn to_text(&self) -> (r: String)
        ensures
            r@ == self.shown(),
    {
        match self {
            ValueKind::Int => "int".to_owned(),
            ValueKind::Float => "float".to_owned(),
            ValueKind::Unit => "unit".to_owned(),
            ValueKind::List => "list".to_owned(),
            ValueKind::Fn => "function".to_owned(),
        }
    }
}

impl ValueModel {
    /// The variant of the value.
    pub open spec fn kind(self) -> ValueKind {
        match self {
            ValueModel::Int(_) => ValueKind::Int,
            ValueModel::Float(_) => ValueKind::Float,
            ValueModel::Unit => ValueKind::Unit,
            ValueModel::List(_) => ValueKind::List,
            ValueModel::Fn { .. } => ValueKind::Fn,
        }
    }
}

impl Value {
    /// What the value is.
    pub open spec fn model(&self) -> ValueModel
        decreases self,
    {
        match self {
            Value::Int(v) => ValueModel::Int(*v),
            Value::Float(v) => ValueModel::Float(*v),
            Value::Unit => ValueModel::Unit,
            Value::List(items) => ValueModel::List(
                Seq::new(
                    items@.len(),
                    |i: int|
                        if 0 <= i < items@.len() {
                            items@[i].model()
                        } else {
                            ValueModel::Unit
                        },
                ),
            ),
            Value::Fn { arg, expr } => ValueModel::Fn { arg: arg@, expr: Box::new(expr.model()) },
        }
    }
}

impl Expr {
    /// What the expression is.
    pub open spec fn model(&self) -> ExprModel
        decreases self,
    {
        match self {
            Expr::Unary(u) => ExprModel::Unary(u.op, Box::new(u.expr.model())),
            Expr::Binary(b) => ExprModel::Binary(
                b.op,
                Box::new(b.lhs.model()),
                Box::new(b.rhs.model()),
            ),
            Expr::Value(v) => ExprModel::Value(v.model()),
            Expr::Ident(name) => ExprModel::Ident(name@),
        }
    }
}

impl View for Value {
    type V = ValueModel;

    open spec fn view(&self) -> ValueModel {
        self.model()
    }
}

impl View for Expr {
    type V = ExprModel;

    open spec fn view(&self) -> ExprModel {
        self.model()
    }
}

impl Value {
    /// What a value is, one level down: what its variant holds, as what
    /// that is.
    pub proof fn lemma_model(&self)
        ensures
            self@ == match self {
                Value::Int(v) => ValueModel::Int(*v),
                Value::Float(v) => ValueModel::Float(*v),
                Value::Unit => ValueModel::Unit,
                Value::List(items) => ValueModel::List(
                    Seq::new(items@.len(), |i: int| items@[i]@),
                ),
                Value::Fn { arg, expr } => ValueModel::Fn { arg: arg@, expr: Box::new(expr@) },
            },
    {
        match self {
            Value::List(items) => {
                assert(self@->List_0 =~= Seq::new(items@.len(), |i: int| items@[i]@));
            },
            _ => {},
        }
    }
}

impl Expr {
    /// What an expression is, one level down: its operator and what its
    /// operands are, what its literal is, or its name.
    pub proof fn lemma_model(&self)
        ensures
            self@ == match self {
                Expr::Unary(u) => ExprModel::Unary(u.op, Box::new(u.expr@)),
                Expr::Binary(b) => ExprModel::Binary(b.op, Box::new(b.lhs@), Box::new(b.rhs@)),
                Expr::Value(v) => ExprModel::Value(v@),
                Expr::Ident(name) => ExprModel::Ident(name@),
            },
    {
    }
}

impl From<i64> for Value {
    fn from(v: i64) -> (r: Value) {
        Value::Int(v)
    }
}

impl FromSpecImpl<i64> for Value {
    open spec fn obeys_from_spec() -> bool {
        true
    }

    open spec fn from_spec(v: i64) -> Value {
        Value::Int(v)
    }
}

impl From<i32> for Value {
    fn from(v: i32) -> (r: Value) {
        Value::Int(v as i64)
    }
}

impl FromSpecImpl<i32> for Value {
    open spec fn obeys_from_spec() -> bool {
        true
    }

    open spec fn from_spec(v: i32) -> Value {
        Value::Int(v as i64)
    }
}

impl From<()> for Value {
    fn from(v: ()) -> (r: Value) {
        Value::Unit
    }
}

impl FromSpecImpl<()> for Value {
    open spec fn obeys_from_spec() -> bool {
        true
    }

    open spec fn from_spec(v: ()) -> Value {
        Value::Unit
    }
}

impl From<Vec<Value>> for Value {
    fn from(v: Vec<Value>) -> (r: Value) {
        Value::List(v)
    }
}

impl FromSpecImpl<Vec<Value>> for Value {
    open spec fn obeys_from_spec() -> bool {
        true
    }

    open spec fn from_spec(v: Vec<Value>) -> Value {
        Value::List(v)
    }
}

impl Value {
    /// The value that `val` converts to: an integer, the unit, or a list of
    /// values.
    pub fn new<T: Into<Value>>(val: T) -> (r: Value)
        ensures
            T::obeys_into_spec() ==> r == val.into_spec(),
    {
        val.into()
    }

    /// The float with the bit pattern `bits`.
    pub fn float(bits: u64) -> (r: Value)
        ensures
            r@ == ValueModel::Float(bits),
    {
        Value::Float(bits)
    }

    /// The variant of the value.
    pub fn kind(&self) -> (r: ValueKind)
        ensures
            r == self@.kind(),
    {
        match self {
            Value::Int(_) => ValueKind::Int,
            Value::Float(_) => ValueKind::Float,
            Value::Unit => ValueKind::Unit,
            Value::List(_) => ValueKind::List,
            Value::Fn { .. } => ValueKind::Fn,
        }
    }

    /// A copy of the value.
    pub fn duplicate(&self) -> (r: Value)
        ensures
            r@ == self@,
        decreases self,
    {
        match self {
            Value::Int(v) => Value::Int(*v),
            Value::Float(v) => Value::Float(*v),
            Value::Unit => Value::Unit,
            Value::List(items) => {
                let mut out: Vec<Value> = Vec::new();
                let mut i: usize = 0;
                while i < items.len()
                    invariant
                        self matches Value::List(l) && l == items,
                        i <= items.len(),
                        out@.len() == i,
                        forall|k: int| 0 <= k < i ==> out@[k]@ == items@[k]@,
                    decreases items.len() - i,
                {
                    proof {
                        assert(decreases_to!(items => items@[i as int]));
                    }
                    out.push(items[i].duplicate());
                    i = i + 1;
                }
                let r = Value::List(out);
                proof {
                    assert(r@->List_0 =~= self@->List_0);
                }
                r
            },
            Value::Fn { arg, expr } => Value::Fn {
                arg: arg.clone(),
                expr: Box::new(expr.duplicate()),
            },
        }
    }

    /// Whether two values are the same.
    pub fn same(&self, other: &Value) -> (r: bool)
        ensures
            r == (self@ == other@),
        decreases self,
    {
        match (self, other) {
            (Value::Int(a), Value::Int(b)) => *a == *b,
            (Value::Float(a), Value::Float(b)) => *a == *b,
            (Value::Unit, Value::Unit) => true,
            (Value::List(a), Value::List(b)) => {
                if a.len() != b.len() {
                    proof {
                        assert(self@->List_0.len() != other@->List_0.len());
                    }
                    return false;
                }
                let mut i: usize = 0;
                while i < a.len()
                    invariant
                        self matches Value::List(l) && l == a,
                        other matches Value::List(l) && l == b,
                        a.len() == b.len(),
                        i <= a.len(),
                        forall|k: int| 0 <= k < i ==> a@[k]@ == b@[k]@,
                    decreases a.len() - i,
                {
                    proof {
                        assert(decreases_to!(a => a@[i as int]));
                    }
                    if !a[i].same(&b[i]) {
                        proof {
                            assert(self@->List_0[i as int] == a@[i as int]@);
                            assert(other@->List_0[i as int] == b@[i as int]@);
                        }
                        return false;
                    }
                    i = i + 1;
                }
                proof {
                    assert(self@->List_0 =~= other@->List_0);
                }
                true
            },
            (Value::Fn { arg: a, expr: x }, Value::Fn { arg: b, expr: y }) => {
                let names = *a == *b;
                names && x.same(y)
            },
            _ => false,
        }
    }
}

impl Expr {
    /// The operator `op` before the operand `expr`. The operator must be one
    /// that may stand before an operand.
    pub fn unary(op: Op, expr: Expr) -> (r: Expr)
        requires
            op.prefix(),
        ensures
            r@ == ExprModel::Unary(op, Box::new(expr@)),
    {
        Expr::Unary(UnaryExpr { op, expr: Box::new(expr) })
    }

    /// The operator `op` between `lhs` and `rhs`. The operator must be one
    /// that may stand between two operands.
    pub fn binary(op: Op, lhs: Expr, rhs: Expr) -> (r: Expr)
        requires
            op.infix(),
        ensures
            r@ == ExprModel::Binary(op, Box::new(lhs@), Box::new(rhs@)),
    {
        Expr::Binary(BinaryExpr { op, lhs: Box::new(lhs), rhs: Box::new(rhs) })
    }

    /// The expression that evaluates to the value that `val` converts to.
    pub fn value<T: Into<Value>>(val: T) -> (r: Expr)
        ensures
            T::obeys_into_spec() ==> r@ == ExprModel::Value(val.into_spec()@),
    {
        Expr::Value(val.into())
    }

    /// The expression that stands for what `name` is bound to.
    pub fn ident(name: String) -> (r: Expr)
        ensures
            r@ == ExprModel::Ident(name@),
    {
        Expr::Ident(name)
    }

    /// A copy of the expression.
    pub fn duplicate(&self) -> (r: Expr)
        ensures
            r@ == self@,
        decreases self,
    {
        match self {
            Expr::Unary(u) => Expr::Unary(
                UnaryExpr { op: u.op, expr: Box::new(u.expr.duplicate()) },
            ),
            Expr::Binary(b) => Expr::Binary(
                BinaryExpr {
                    op: b.op,
                    lhs: Box::new(b.lhs.duplicate()),
                    rhs: Box::new(b.rhs.duplicate()),
                },
            ),
            Expr::Value(v) => Expr::Value(v.duplicate()),
            Expr::Ident(name) => Expr::Ident(name.clone()),
        }
    }

    /// Whether two expressions are the same.
    pub fn same(&self, other: &Expr) -> (r: bool)
        ensures
            r == (self@ == other@),
        decreases self,
    {
        match (self, other) {
            (Expr::Unary(a), Expr::Unary(b)) => a.op == b.op && a.expr.same(&b.expr),
            (Expr::Binary(a), Expr::Binary(b)) => a.op == b.op && a.lhs.same(&b.lhs) && a.rhs.same(
                &b.rhs,
            ),
            (Expr::Value(a), Expr::Value(b)) => a.same(b),
            (Expr::Ident(a), Expr::Ident(b)) => *a == *b,
            _ => false,
        }
    }
}

impl Clone for Value {
    fn clone(&self) -> (r: Value)
        ensures
            r@ == self@,
    {
        self.duplicate()
    }
}

impl Clone for Expr {
    fn clone(&self) -> (r: Expr)
        ensures
            r@ == self@,
    {
        self.duplicate()
    }
}

} // verus!
