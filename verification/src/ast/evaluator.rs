//! Evaluation of expressions in a binding context.
//!
//! Integer arithmetic is exact: an operation whose result does not fit in 64
//! bits is an error, and so is a division by zero. Integer division rounds
//! towards zero and the remainder has the sign of the dividend. Values of
//! different variants are never mixed: there is no promotion from integer to
//! float.
//!
//! The arithmetic of floats is not part of this library. The evaluator is
//! handed the operation that adds, subtracts, multiplies and divides two
//! floats given by their bit patterns, and applies it to operands that are
//! both floats. Negating a float flips its sign bit.
use vstd::prelude::*;
use crate::ast::context::Context;
use crate::ast::expr::{BinaryExpr, Expr, ExprModel, UnaryExpr, Value, ValueKind, ValueModel};
use crate::ast::op::Op;
use crate::ast::stmt::{exec_spec, Stmt};

verus! {

/// Why an evaluation failed.
#[derive(Debug, Clone, PartialEq)]
pub enum EvaluationError {
    /// The identifier is not bound in the context.
    UnboundIdentifier(String),
    /// The operator `op` does not apply to operands of these variants;
    /// `right` is nothing for a prefix operator.
    TypeMismatch { op: Op, left: ValueKind, right: Option<ValueKind> },
    /// An integer was divided by zero.
    DivisionByZero,
    /// The result of an integer operation does not fit in 64 bits.
    Overflow,
}

/// What an evaluation error is.
pub enum ErrorModel {
    UnboundIdentifier(Seq<char>),
    TypeMismatch { op: Op, left: ValueKind, right: Option<ValueKind> },
    DivisionByZero,
    Overflow,
}

impl View for EvaluationError {
    type V = ErrorModel;

    open spec fn view(&self) -> ErrorModel {
        match self {
            EvaluationError::UnboundIdentifier(name) => ErrorModel::UnboundIdentifier(name@),
            EvaluationError::TypeMismatch { op, left, right } => ErrorModel::TypeMismatch {
                op: *op,
                left: *left,
                right: *right,
            },
            EvaluationError::DivisionByZero => ErrorModel::DivisionByZero,
            EvaluationError::Overflow => ErrorModel::Overflow,
        }
    }
}

impl ErrorModel {
    /// How an evaluation error is shown.
    pub open spec fn shown(self) -> Seq<char> {
        match self {
            ErrorModel::UnboundIdentifier(name) => "Unbound identifier: "@ + name,
            ErrorModel::TypeMismatch { op, left, right } => "Type mismatch: "@ + op.shown()
                + " does not apply to "@ + left.shown() + match right {
                Some(kind) => " and "@ + kind.shown(),
                None => Seq::empty(),
            },
            ErrorModel::DivisionByZero => "Division by zero"@,
            ErrorModel::Overflow => "Integer overflow"@,
        }
    }
}

impl EvaluationError {
    /// Shows the error as a sentence.
    pub fn to_text(&self) -> (r: String)
        ensures
            r@ == self@.shown(),
    {
        match self {
            EvaluationError::UnboundIdentifier(name) => "Unbound identifier: ".to_owned().concat(
                name.as_str(),
            ),
            EvaluationError::TypeMismatch { op, left, right } => {
                let head = "Type mismatch: ".to_owned().concat(op.to_text().as_str()).concat(
                    " does not apply to ",
                ).concat(left.to_text().as_str());
                match right {
                    Some(kind) => head.concat(" and ").concat(kind.to_text().as_str()),
                    None => {
                        proof {
                            assert(head@ + Seq::<char>::empty() =~= head@);
                        }
                        head
                    },
                }
            },
            EvaluationError::DivisionByZero => "Division by zero".to_owned(),
            EvaluationError::Overflow => "Integer overflow".to_owned(),
        }
    }
}

/// The outcome of an evaluation, as the contracts speak of it.
pub type Outcome = Result<ValueModel, ErrorModel>;

/// The outcome that `r` stands for.
pub open spec fn outcome_of(r: Result<Value, EvaluationError>) -> Outcome {
    match r {
        Ok(v) => Ok(v@),
        Err(e) => Err(e@),
    }
}

/// The sign bit of a double.
pub const SIGN_BIT: u64 = 0x8000_0000_0000_0000;

/// The absolute value of an integer.
pub open spec fn magnitude(x: int) -> int {
    if x < 0 {
        -x
    } else {
        x
    }
}

/// The quotient of `x` by `y`, rounded towards zero; `y` is not zero.
pub open spec fn quotient(x: int, y: int) -> int
    recommends
        y != 0,
{
    if (x < 0) == (y < 0) {
        magnitude(x) / magnitude(y)
    } else {
        -(magnitude(x) / magnitude(y))
    }
}

/// The remainder of `x` by `y`, with the sign of `x`; `y` is not zero.
pub open spec fn remainder(x: int, y: int) -> int
    recommends
        y != 0,
{
    if x < 0 {
        -(magnitude(x) % magnitude(y))
    } else {
        magnitude(x) % magnitude(y)
    }
}

/// Zero divided by a positive number is zero, and so is the remainder.
proof fn lemma_division_of_zero(d: int)
    requires
        d > 0,
    ensures
        0int / d == 0,
        0int % d == 0,
{
    assert(0int / d == 0 && 0int % d == 0) by (nonlinear_arith)
        requires
            d > 0,
    ;
}

/// The remainder by a positive number is smaller than it and not negative.
proof fn lemma_remainder_is_small(x: int, d: int)
    requires
        x >= 0,
        d > 0,
    ensures
        0 <= x % d < d,
{
    assert(0 <= x % d < d) by (nonlinear_arith)
        requires
            x >= 0,
            d > 0,
    ;
}

/// The integer `r` as a value, if it fits in 64 bits.
pub open spec fn int_value(r: int) -> Outcome {
    if i64::MIN <= r <= i64::MAX {
        Ok(ValueModel::Int(r as i64))
    } else {
        Err(ErrorModel::Overflow)
    }
}

/// The outcome of the infix operator `op` on the integers `x` and `y`.
pub open spec fn int_arith(op: Op, x: i64, y: i64) -> Outcome {
    match op {
        Op::Add => int_value(x + y),
        Op::Sub => int_value(x - y),
        Op::Mul => int_value(x * y),
        Op::Div => if y == 0 {
            Err(ErrorModel::DivisionByZero)
        } else {
            int_value(quotient(x as int, y as int))
        },
        Op::Mod => if y == 0 {
            Err(ErrorModel::DivisionByZero)
        } else {
            int_value(remainder(x as int, y as int))
        },
        _ => Err(
            ErrorModel::TypeMismatch { op, left: ValueKind::Int, right: Some(ValueKind::Int) },
        ),
    }
}

/// Whether `op` is one of the four operations on floats.
pub open spec fn float_op(op: Op) -> bool {
    op == Op::Add || op == Op::Sub || op == Op::Mul || op == Op::Div
}

/// The arithmetic of floats, as a function of the operator and of the bit
/// patterns of the two operands.
pub type FloatFn = spec_fn(Op, u64, u64) -> u64;

/// The outcome of the prefix operator `op` on the value `v`.
pub open spec fn apply_unary(op: Op, v: ValueModel) -> Outcome {
    match op {
        Op::Add => Ok(v),
        Op::Sub => match v {
            ValueModel::Int(x) => int_value(-x),
            ValueModel::Float(bits) => Ok(ValueModel::Float(bits ^ SIGN_BIT)),
            _ => Err(ErrorModel::TypeMismatch { op, left: v.kind(), right: None }),
        },
        _ => Err(ErrorModel::TypeMismatch { op, left: v.kind(), right: None }),
    }
}

/// The outcome of the infix operator `op` on the values `a` and `b`.
pub open spec fn apply_binary(op: Op, a: ValueModel, b: ValueModel, floats: FloatFn) -> Outcome {
    match (a, b) {
        (ValueModel::Int(x), ValueModel::Int(y)) => int_arith(op, x, y),
        (ValueModel::Float(x), ValueModel::Float(y)) => if float_op(op) {
            Ok(ValueModel::Float(floats(op, x, y)))
        } else {
            Err(
                ErrorModel::TypeMismatch {
                    op,
                    left: ValueKind::Float,
                    right: Some(ValueKind::Float),
                },
            )
        },
        _ => Err(ErrorModel::TypeMismatch { op, left: a.kind(), right: Some(b.kind()) }),
    }
}

/// The outcome of evaluating `e` in the context `ctx`: a literal is its
/// value, an identifier is what it is bound to, and an operator is applied
/// to the values of its operands, the left one first. The first error ends
/// the evaluation.
pub open spec fn eval_spec(e: ExprModel, ctx: Map<Seq<char>, ValueModel>, floats: FloatFn) -> Outcome
    decreases e,
{
    match e {
        ExprModel::Value(v) => Ok(v),
        ExprModel::Ident(name) => if ctx.contains_key(name) {
            Ok(ctx[name])
        } else {
            Err(ErrorModel::UnboundIdentifier(name))
        },
        ExprModel::Unary(op, operand) => match eval_spec(*operand, ctx, floats) {
            Ok(v) => apply_unary(op, v),
            Err(err) => Err(err),
        },
        ExprModel::Binary(op, lhs, rhs) => match eval_spec(*lhs, ctx, floats) {
            Ok(a) => match eval_spec(*rhs, ctx, floats) {
                Ok(b) => apply_binary(op, a, b, floats),
                Err(err) => Err(err),
            },
            Err(err) => Err(err),
        },
    }
}

/// What an arithmetic of floats may return: whether the last argument may
/// be its result for the operator and the two operands.
pub type FloatRel = spec_fn(Op, u64, u64, u64) -> bool;

/// What `f` may return, as its contract says.
pub open spec fn relation_of<F: Fn(Op, u64, u64) -> u64>(f: &F) -> FloatRel {
    |op: Op, a: u64, b: u64, r: u64| call_ensures(*f, (op, a, b), r)
}

/// Whether an arithmetic that may return what `rel` says can, for `op`, `a`
/// and `b`, only return what `floats` gives for them.
pub open spec fn pinned(rel: FloatRel, floats: FloatFn, op: Op, a: u64, b: u64) -> bool {
    forall|r: u64| #[trigger] rel(op, a, b, r) ==> r == floats(op, a, b)
}

/// Whether the arithmetic can only return what `floats` gives where the
/// infix operator `op` on `a` and `b` is an operation on floats.
pub open spec fn step_follows(
    rel: FloatRel,
    floats: FloatFn,
    op: Op,
    a: ValueModel,
    b: ValueModel,
) -> bool {
    a is Float && b is Float && float_op(op) ==> pinned(rel, floats, op, a->Float_0, b->Float_0)
}

/// Whether the arithmetic can only return what `floats` gives on every
/// operation on floats that the evaluation of `e` in `ctx` applies. It does
/// for every `floats` where the evaluation applies none.
pub open spec fn follows(
    rel: FloatRel,
    floats: FloatFn,
    e: ExprModel,
    ctx: Map<Seq<char>, ValueModel>,
) -> bool
    decreases e,
{
    match e {
        ExprModel::Value(_) => true,
        ExprModel::Ident(_) => true,
        ExprModel::Unary(_, operand) => follows(rel, floats, *operand, ctx),
        ExprModel::Binary(op, lhs, rhs) => follows(rel, floats, *lhs, ctx) && match eval_spec(
            *lhs,
            ctx,
            floats,
        ) {
            Err(_) => true,
            Ok(a) => follows(rel, floats, *rhs, ctx) && match eval_spec(*rhs, ctx, floats) {
                Err(_) => true,
                Ok(b) => step_follows(rel, floats, op, a, b),
            },
        },
    }
}

/// Whether the arithmetic computes `floats`: whatever it is applied to, it
/// can only return what `floats` gives.
pub open spec fn computes(rel: FloatRel, floats: FloatFn) -> bool {
    forall|op: Op, a: u64, b: u64| pinned(rel, floats, op, a, b)
}

/// Whether the evaluation of `e` in `ctx` meets no float: `e` holds no
/// float literal and no identifier that is bound to a float.
pub open spec fn float_free(e: ExprModel, ctx: Map<Seq<char>, ValueModel>) -> bool
    decreases e,
{
    match e {
        ExprModel::Value(v) => !(v is Float),
        ExprModel::Ident(name) => !(ctx.contains_key(name) && ctx[name] is Float),
        ExprModel::Unary(_, operand) => float_free(*operand, ctx),
        ExprModel::Binary(_, lhs, rhs) => float_free(*lhs, ctx) && float_free(*rhs, ctx),
    }
}

/// Whether what `f` returns depends on its arguments alone.
pub open spec fn is_function<F: Fn(Op, u64, u64) -> u64>(f: &F) -> bool {
    forall|op: Op, a: u64, b: u64, r1: u64, r2: u64|
        call_ensures(*f, (op, a, b), r1) && call_ensures(*f, (op, a, b), r2) ==> r1 == r2
}

/// Whether `f` may be called on the four operations on floats.
pub open spec fn accepts_floats<F: Fn(Op, u64, u64) -> u64>(f: &F) -> bool {
    forall|op: Op, a: u64, b: u64| float_op(op) ==> call_requires(*f, (op, a, b))
}

/// The function that `f` computes, where what `f` returns depends on its
/// arguments alone.
pub open spec fn float_fn<F: Fn(Op, u64, u64) -> u64>(f: &F) -> FloatFn {
    |op: Op, a: u64, b: u64| choose|r: u64| call_ensures(*f, (op, a, b), r)
}

/// An operation whose result depends on its arguments alone computes a
/// function.
pub proof fn lemma_function_computes<F: Fn(Op, u64, u64) -> u64>(f: &F)
    requires
        is_function(f),
    ensures
        computes(relation_of(f), float_fn(f)),
{
    let rel = relation_of(f);
    assert forall|op: Op, a: u64, b: u64| pinned(rel, float_fn(f), op, a, b) by {
        assert forall|r: u64| #[trigger] rel(op, a, b, r) implies r == float_fn(f)(op, a, b) by {
            let chosen = choose|x: u64| call_ensures(*f, (op, a, b), x);
            assert(call_ensures(*f, (op, a, b), r));
            assert(call_ensures(*f, (op, a, b), chosen));
        }
    }
}

/// An arithmetic that computes `floats` follows it in every evaluation.
pub proof fn lemma_computes_follows(
    rel: FloatRel,
    floats: FloatFn,
    e: ExprModel,
    ctx: Map<Seq<char>, ValueModel>,
)
    requires
        computes(rel, floats),
    ensures
        follows(rel, floats, e, ctx),
    decreases e,
{
    match e {
        ExprModel::Value(_) => {},
        ExprModel::Ident(_) => {},
        ExprModel::Unary(_, operand) => {
            lemma_computes_follows(rel, floats, *operand, ctx);
        },
        ExprModel::Binary(op, lhs, rhs) => {
            lemma_computes_follows(rel, floats, *lhs, ctx);
            lemma_computes_follows(rel, floats, *rhs, ctx);
            match (eval_spec(*lhs, ctx, floats), eval_spec(*rhs, ctx, floats)) {
                (Ok(a), Ok(b)) => {
                    if a is Float && b is Float {
                        assert(pinned(rel, floats, op, a->Float_0, b->Float_0));
                    }
                },
                _ => {},
            }
        },
    }
}

/// An evaluation that meets no float applies no operation on floats: its
/// value is no float, and every arithmetic follows every function in it.
/// So its outcome is that of `eval_spec`, whatever the arithmetic of floats.
pub proof fn lemma_float_free_follows(
    rel: FloatRel,
    floats: FloatFn,
    e: ExprModel,
    ctx: Map<Seq<char>, ValueModel>,
)
    requires
        float_free(e, ctx),
    ensures
        follows(rel, floats, e, ctx),
        !(eval_spec(e, ctx, floats) matches Ok(v) && v is Float),
    decreases e,
{
    match e {
        ExprModel::Value(_) => {},
        ExprModel::Ident(_) => {},
        ExprModel::Unary(_, operand) => {
            lemma_float_free_follows(rel, floats, *operand, ctx);
        },
        ExprModel::Binary(op, lhs, rhs) => {
            lemma_float_free_follows(rel, floats, *lhs, ctx);
            lemma_float_free_follows(rel, floats, *rhs, ctx);
        },
    }
}

impl Value {
    /// The value with its sign changed. Only integers and floats have one.
    pub fn negate(&self) -> (r: Result<Value, EvaluationError>)
        ensures
            outcome_of(r) == apply_unary(Op::Sub, self@),
    {
        match self {
            Value::Int(x) => match 0i64.checked_sub(*x) {
                Some(y) => Ok(Value::Int(y)),
                None => Err(EvaluationError::Overflow),
            },
            Value::Float(bits) => Ok(Value::Float(*bits ^ SIGN_BIT)),
            _ => Err(EvaluationError::TypeMismatch { op: Op::Sub, left: self.kind(), right: None }),
        }
    }

    /// The quotient of two integers, rounded towards zero.
    fn int_div(x: i64, y: i64) -> (r: Result<Value, EvaluationError>)
        ensures
            outcome_of(r) == int_arith(Op::Div, x, y),
    {
        if y == 0 {
            return Err(EvaluationError::DivisionByZero);
        }
        proof {
            lemma_division_of_zero(magnitude(y as int));
        }
        match x.checked_div(y) {
            Some(v) => Ok(Value::Int(v)),
            None => Err(EvaluationError::Overflow),
        }
    }

    /// The remainder of two integers, with the sign of the dividend.
    fn int_rem(x: i64, y: i64) -> (r: Result<Value, EvaluationError>)
        ensures
            outcome_of(r) == int_arith(Op::Mod, x, y),
    {
        if y == 0 {
            return Err(EvaluationError::DivisionByZero);
        }
        proof {
            lemma_division_of_zero(magnitude(y as int));
            lemma_remainder_is_small(magnitude(x as int), magnitude(y as int));
        }
        if x == i64::MIN && y == -1 {
            proof {
                assert(magnitude(x as int) % 1 == 0);
            }
            return Ok(Value::Int(0));
        }
        match x.checked_rem(y) {
            Some(v) => Ok(Value::Int(v)),
            None => Err(EvaluationError::Overflow),
        }
    }

    /// The outcome of the infix operator `op` on two integers.
    fn arith(op: Op, x: i64, y: i64) -> (r: Result<Value, EvaluationError>)
        ensures
            outcome_of(r) == int_arith(op, x, y),
    {
        let res = match op {
            Op::Add => x.checked_add(y),
            Op::Sub => x.checked_sub(y),
            Op::Mul => x.checked_mul(y),
            Op::Div => {
                return Value::int_div(x, y);
            },
            Op::Mod => {
                return Value::int_rem(x, y);
            },
            _ => {
                return Err(
                    EvaluationError::TypeMismatch {
                        op,
                        left: ValueKind::Int,
                        right: Some(ValueKind::Int),
                    },
                );
            },
        };
        match res {
            Some(v) => Ok(Value::Int(v)),
            None => Err(EvaluationError::Overflow),
        }
    }

    /// The outcome of the infix operator `op` between `self` and `other`.
    /// Two integers are computed with here; two floats are handed to
    /// `floats`; anything else is a type mismatch.
    pub fn apply<F: Fn(Op, u64, u64) -> u64>(&self, op: Op, other: &Value, floats: &F) -> (r:
        Result<Value, EvaluationError>)
        requires
            accepts_floats(floats),
        ensures
            self@ is Float && other@ is Float && float_op(op) ==> (r matches Ok(v) && (
            v@ matches ValueModel::Float(bits) && call_ensures(
                *floats,
                (op, self@->Float_0, other@->Float_0),
                bits,
            ))),
            forall|fl: FloatFn| #[trigger]
                step_follows(relation_of(floats), fl, op, self@, other@) ==> outcome_of(r) == apply_binary(
                    op,
                    self@,
                    other@,
                    fl,
                ),
    {
        match (self, other) {
            (Value::Int(x), Value::Int(y)) => Value::arith(op, *x, *y),
            (Value::Float(x), Value::Float(y)) => match op {
                Op::Add | Op::Sub | Op::Mul | Op::Div => {
                    let bits = floats(op, *x, *y);
                    proof {
                        assert forall|fl: FloatFn| #[trigger]
                            step_follows(relation_of(floats), fl, op, self@, other@) implies bits == fl(
                            op,
                            *x,
                            *y,
                        ) by {
                            assert(pinned(relation_of(floats), fl, op, *x, *y));
                            assert(relation_of(floats)(op, *x, *y, bits));
                        }
                    }
                    Ok(Value::Float(bits))
                },
                _ => Err(
                    EvaluationError::TypeMismatch {
                        op,
                        left: ValueKind::Float,
                        right: Some(ValueKind::Float),
                    },
                ),
            },
            _ => Err(
                EvaluationError::TypeMismatch { op, left: self.kind(), right: Some(other.kind()) },
            ),
        }
    }
}

impl Value {
    /// The sum of `self` and `other`.
    pub fn add<F: Fn(Op, u64, u64) -> u64>(&self, other: Value, floats: &F) -> (r: Result<
        Value,
        EvaluationError,
    >)
        requires
            accepts_floats(floats),
        ensures
            self@ is Float && other@ is Float ==> (r matches Ok(v) && (
            v@ matches ValueModel::Float(bits) && call_ensures(
                *floats,
                (Op::Add, self@->Float_0, other@->Float_0),
                bits,
            ))),
            forall|fl: FloatFn| #[trigger]
                step_follows(relation_of(floats), fl, Op::Add, self@, other@) ==> outcome_of(r)
                    == apply_binary(Op::Add, self@, other@, fl),
    {
        self.apply(Op::Add, &other, floats)
    }

    /// The difference of `self` and `other`.
    pub fn sub<F: Fn(Op, u64, u64) -> u64>(&self, other: Value, floats: &F) -> (r: Result<
        Value,
        EvaluationError,
    >)
        requires
            accepts_floats(floats),
        ensures
            self@ is Float && other@ is Float ==> (r matches Ok(v) && (
            v@ matches ValueModel::Float(bits) && call_ensures(
                *floats,
                (Op::Sub, self@->Float_0, other@->Float_0),
                bits,
            ))),
            forall|fl: FloatFn| #[trigger]
                step_follows(relation_of(floats), fl, Op::Sub, self@, other@) ==> outcome_of(r)
                    == apply_binary(Op::Sub, self@, other@, fl),
    {
        self.apply(Op::Sub, &other, floats)
    }

    /// The product of `self` and `other`.
    pub fn mul<F: Fn(Op, u64, u64) -> u64>(&self, other: Value, floats: &F) -> (r: Result<
        Value,
        EvaluationError,
    >)
        requires
            accepts_floats(floats),
        ensures
            self@ is Float && other@ is Float ==> (r matches Ok(v) && (
            v@ matches ValueModel::Float(bits) && call_ensures(
                *floats,
                (Op::Mul, self@->Float_0, other@->Float_0),
                bits,
            ))),
            forall|fl: FloatFn| #[trigger]
                step_follows(relation_of(floats), fl, Op::Mul, self@, other@) ==> outcome_of(r)
                    == apply_binary(Op::Mul, self@, other@, fl),
    {
        self.apply(Op::Mul, &other, floats)
    }

    /// The quotient of `self` by `other`.
    pub fn div<F: Fn(Op, u64, u64) -> u64>(&self, other: Value, floats: &F) -> (r: Result<
        Value,
        EvaluationError,
    >)
        requires
            accepts_floats(floats),
        ensures
            self@ is Float && other@ is Float ==> (r matches Ok(v) && (
            v@ matches ValueModel::Float(bits) && call_ensures(
                *floats,
                (Op::Div, self@->Float_0, other@->Float_0),
                bits,
            ))),
            forall|fl: FloatFn| #[trigger]
                step_follows(relation_of(floats), fl, Op::Div, self@, other@) ==> outcome_of(r)
                    == apply_binary(Op::Div, self@, other@, fl),
    {
        self.apply(Op::Div, &other, floats)
    }

    /// The remainder of `self` by `other`, which are integers.
    pub fn modulo(&self, other: Value) -> (r: Result<Value, EvaluationError>)
        ensures
            forall|floats: FloatFn| outcome_of(r) == apply_binary(Op::Mod, self@, other@, floats),
    {
        match (self, &other) {
            (Value::Int(x), Value::Int(y)) => Value::arith(Op::Mod, *x, *y),
            _ => Err(
                EvaluationError::TypeMismatch {
                    op: Op::Mod,
                    left: self.kind(),
                    right: Some(other.kind()),
                },
            ),
        }
    }
}

impl UnaryExpr {
    /// Evaluates the operand and applies the operator to its value.
    pub fn eval<F: Fn(Op, u64, u64) -> u64>(&self, context: &Context, floats: &F) -> (r: Result<
        Value,
        EvaluationError,
    >)
        requires
            accepts_floats(floats),
        ensures
            forall|fl: FloatFn| #[trigger]
                follows(relation_of(floats), fl, ExprModel::Unary(self.op, Box::new(self.expr@)), context@)
                    ==> outcome_of(r) == eval_spec(
                    ExprModel::Unary(self.op, Box::new(self.expr@)),
                    context@,
                    fl,
                ),
        decreases self,
    {
        let ghost whole = ExprModel::Unary(self.op, Box::new(self.expr@));
        proof {
            assert forall|fl: FloatFn| #[trigger] follows(relation_of(floats), fl, whole, context@) implies follows(
                relation_of(floats),
                fl,
                self.expr@,
                context@,
            ) by {}
        }
        match self.expr.eval(context, floats) {
            Err(e) => Err(e),
            Ok(v) => match self.op {
                Op::Add => Ok(v),
                Op::Sub => v.negate(),
                _ => Err(EvaluationError::TypeMismatch { op: self.op, left: v.kind(), right: None }),
            },
        }
    }
}

impl BinaryExpr {
    /// Evaluates the left operand, then the right one, and applies the
    /// operator to their values.
    pub fn eval<F: Fn(Op, u64, u64) -> u64>(&self, context: &Context, floats: &F) -> (r: Result<
        Value,
        EvaluationError,
    >)
        requires
            accepts_floats(floats),
        ensures
            forall|fl: FloatFn| #[trigger]
                follows(
                    relation_of(floats),
                    fl,
                    ExprModel::Binary(self.op, Box::new(self.lhs@), Box::new(self.rhs@)),
                    context@,
                ) ==> outcome_of(r) == eval_spec(
                    ExprModel::Binary(self.op, Box::new(self.lhs@), Box::new(self.rhs@)),
                    context@,
                    fl,
                ),
        decreases self,
    {
        let ghost whole = ExprModel::Binary(self.op, Box::new(self.lhs@), Box::new(self.rhs@));
        proof {
            assert forall|fl: FloatFn| #[trigger] follows(relation_of(floats), fl, whole, context@) implies follows(
                relation_of(floats),
                fl,
                self.lhs@,
                context@,
            ) by {}
        }
        let lhs = match self.lhs.eval(context, floats) {
            Err(e) => {
                return Err(e);
            },
            Ok(v) => v,
        };
        proof {
            assert forall|fl: FloatFn| #[trigger] follows(relation_of(floats), fl, whole, context@) implies follows(
                relation_of(floats),
                fl,
                self.rhs@,
                context@,
            ) by {}
        }
        let rhs = match self.rhs.eval(context, floats) {
            Err(e) => {
                return Err(e);
            },
            Ok(v) => v,
        };
        proof {
            assert forall|fl: FloatFn| #[trigger] follows(relation_of(floats), fl, whole, context@) implies step_follows(
                relation_of(floats),
                fl,
                self.op,
                lhs@,
                rhs@,
            ) by {}
        }
        lhs.apply(self.op, &rhs, floats)
    }
}

impl Expr {
    /// Evaluates the expression in `context`, which it only reads.
    ///
    /// A literal evaluates to its value and an identifier to what it is
    /// bound to; an identifier that is not bound is an error. The operands
    /// of an operator are evaluated before it is applied, the left one
    /// first, and the first error ends the evaluation. The outcome is that
    /// of `eval_spec` for every arithmetic of floats that `floats` follows
    /// in this evaluation: for every one, where the evaluation applies no
    /// operation on floats.
    pub fn eval<F: Fn(Op, u64, u64) -> u64>(&self, context: &Context, floats: &F) -> (r: Result<
        Value,
        EvaluationError,
    >)
        requires
            accepts_floats(floats),
        ensures
            forall|fl: FloatFn| #[trigger]
                follows(relation_of(floats), fl, self@, context@) ==> outcome_of(r) == eval_spec(
                    self@,
                    context@,
                    fl,
                ),
        decreases self,
    {
        match self {
            Expr::Value(v) => Ok(v.duplicate()),
            Expr::Ident(name) => match context.get(name) {
                Some(v) => Ok(v.duplicate()),
                None => Err(EvaluationError::UnboundIdentifier(name.clone())),
            },
            Expr::Unary(u) => u.eval(context, floats),
            Expr::Binary(b) => b.eval(context, floats),
        }
    }
}

/// An evaluation session: a binding context that lasts from one statement
/// to the next, and the arithmetic of floats that the session uses.
pub struct Evaluator<F> {
    context: Context,
    floats: F,
}

impl<F: Fn(Op, u64, u64) -> u64> Evaluator<F> {
    /// What the identifiers are bound to.
    pub closed spec fn bindings(&self) -> Map<Seq<char>, ValueModel> {
        self.context@
    }

    /// What the arithmetic of floats of the session may return.
    pub closed spec fn relation(&self) -> FloatRel {
        relation_of(&self.floats)
    }

    /// The context binds no identifier twice, and the arithmetic of floats
    /// may be called.
    pub closed spec fn wf(&self) -> bool {
        self.context.wf() && accepts_floats(&self.floats)
    }

    /// Whether `next` is the same session with the bindings `bindings`.
    pub open spec fn goes_on(&self, next: &Evaluator<F>, bindings: Map<Seq<char>, ValueModel>) -> bool {
        &&& next.wf()
        &&& next.relation() == self.relation()
        &&& next.bindings() == bindings
    }

    /// A session in which nothing is bound yet, with `floats` as its
    /// arithmetic of floats.
    pub fn new(floats: F) -> (r: Evaluator<F>)
        requires
            accepts_floats(&floats),
        ensures
            r.wf(),
            r.bindings() == Map::<Seq<char>, ValueModel>::empty(),
            r.relation() == relation_of(&floats),
    {
        Evaluator { context: Context::new(), floats }
    }

    /// Evaluates an expression. The bindings stay as they are. The outcome
    /// is that of `eval_spec` for every arithmetic of floats that the one
    /// of the session follows in this evaluation: for every one, where the
    /// evaluation meets no float.
    pub fn eval_expr(&mut self, expr: Expr) -> (r: Result<Value, EvaluationError>)
        requires
            old(self).wf(),
        ensures
            old(self).goes_on(final(self), old(self).bindings()),
            forall|fl: FloatFn| #[trigger]
                follows(old(self).relation(), fl, expr@, old(self).bindings()) ==> outcome_of(r)
                    == eval_spec(expr@, old(self).bindings(), fl),
    {
        expr.eval(&self.context, &self.floats)
    }

    /// Runs a statement. What it binds stays bound for the statements that
    /// follow; a statement that fails binds nothing.
    pub fn eval_stmt(&mut self, stmt: Stmt) -> (r: Result<Value, EvaluationError>)
        requires
            old(self).wf(),
        ensures
            final(self).wf(),
            final(self).relation() == old(self).relation(),
            r is Err ==> final(self).bindings() == old(self).bindings(),
            forall|fl: FloatFn| #[trigger]
                follows(old(self).relation(), fl, stmt@.expr(), old(self).bindings()) ==> (
                outcome_of(r), final(self).bindings()) == exec_spec(
                    stmt@,
                    old(self).bindings(),
                    fl,
                ),
    {
        stmt.eval(&mut self.context, &self.floats)
    }

    /// What `ident` is bound to, if it is bound.
    pub fn get_val_in_ctx(&self, ident: &String) -> (r: Option<&Value>)
        ensures
            match r {
                Some(v) => self.bindings().contains_key(ident@) && v@ == self.bindings()[ident@],
                None => !self.bindings().contains_key(ident@),
            },
    {
        self.context.get(ident)
    }
}

/// An identifier evaluates to what it is bound to, and is an error where
/// it is not bound; so it is in the context in which nothing is bound.
pub proof fn lemma_identifier(name: Seq<char>, ctx: Map<Seq<char>, ValueModel>, floats: FloatFn)
    ensures
        ctx.contains_key(name) ==> eval_spec(ExprModel::Ident(name), ctx, floats) == Ok::<
            ValueModel,
            ErrorModel,
        >(ctx[name]),
        !ctx.contains_key(name) ==> eval_spec(ExprModel::Ident(name), ctx, floats) == Err::<
            ValueModel,
            ErrorModel,
        >(ErrorModel::UnboundIdentifier(name)),
        eval_spec(ExprModel::Ident(name), Map::empty(), floats) == Err::<ValueModel, ErrorModel>(
            ErrorModel::UnboundIdentifier(name),
        ),
{
}

/// Operands of different variants are never computed with: whatever the
/// operator, the outcome is a type mismatch that names the two variants.
pub proof fn lemma_no_promotion(op: Op, a: ValueModel, b: ValueModel, floats: FloatFn)
    requires
        a.kind() != b.kind(),
    ensures
        apply_binary(op, a, b, floats) == Err::<ValueModel, ErrorModel>(
            ErrorModel::TypeMismatch { op, left: a.kind(), right: Some(b.kind()) },
        ),
{
}

/// Negation changes the sign of an integer, where the result fits, and of a
/// float; twice, it gives the float back. Nothing else has a sign.
pub proof fn lemma_negation(v: ValueModel)
    ensures
        v is Int && v->Int_0 != i64::MIN ==> apply_unary(Op::Sub, v) == Ok::<
            ValueModel,
            ErrorModel,
        >(ValueModel::Int((-v->Int_0) as i64)),
        v is Float ==> apply_unary(Op::Sub, v) == Ok::<ValueModel, ErrorModel>(
            ValueModel::Float(v->Float_0 ^ SIGN_BIT),
        ) && (v->Float_0 ^ SIGN_BIT) ^ SIGN_BIT == v->Float_0,
        !(v is Int) && !(v is Float) ==> apply_unary(Op::Sub, v) is Err,
{
    if v is Float {
        let bits = v->Float_0;
        assert((bits ^ SIGN_BIT) ^ SIGN_BIT == bits) by (bit_vector)
            requires
                SIGN_BIT == 0x8000_0000_0000_0000u64,
        ;
    }
}

} // verus!
