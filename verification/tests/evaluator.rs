use shade::ast::context::Context;
use shade::ast::evaluator::{EvaluationError, Evaluator};
use shade::ast::expr::{Expr, Value, ValueKind};
use shade::ast::op::Op;
use shade::ast::stmt::Stmt;

/// The arithmetic of doubles, on bit patterns.
fn float_arith(op: Op, a: u64, b: u64) -> u64 {
    let (x, y) = (f64::from_bits(a), f64::from_bits(b));
    let r = match op {
        Op::Add => x + y,
        Op::Sub => x - y,
        Op::Mul => x * y,
        Op::Div => x / y,
        _ => unreachable!(),
    };
    r.to_bits()
}

fn float(x: f64) -> Value {
    Value::float(x.to_bits())
}

#[test]
fn eval_of_negation() {
    let int = Expr::unary(Op::Sub, Expr::value(16i32));
    let float_expr = Expr::unary(Op::Sub, Expr::value(float(139.0)));

    let mut ev = Evaluator::new(float_arith);
    assert_eq!(ev.eval_expr(int), Ok(Value::new(-16i32)));
    assert_eq!(ev.eval_expr(float_expr), Ok(float(-139.0)));
}

#[test]
fn eval_statement() {
    let stmt = Stmt::assign("a".to_string().into(), Expr::value(122i32));
    let mut ev = Evaluator::new(float_arith);
    let _ = ev.eval_stmt(stmt);
    assert_eq!(ev.get_val_in_ctx(&"a".to_string()), Some(&Value::new(122i32)));
}

#[test]
fn assignment_persists_in_the_session() {
    let mut ev = Evaluator::new(float_arith);
    let out = ev.eval_stmt(Stmt::assign("a".to_string(), Expr::value(122)));
    assert_eq!(out, Ok(Value::Unit));
    assert_eq!(ev.eval_expr(Expr::ident("a".to_string())), Ok(Value::Int(122)));
    let out = ev.eval_stmt(Stmt::assign(
        "a".to_string(),
        Expr::binary(Op::Add, Expr::ident("a".to_string()), Expr::value(1)),
    ));
    assert_eq!(out, Ok(Value::Unit));
    assert_eq!(ev.eval_expr(Expr::ident("a".to_string())), Ok(Value::Int(123)));
}

#[test]
fn type_mismatch_is_rejected() {
    let mut ev = Evaluator::new(float_arith);
    let e = Expr::binary(Op::Add, Expr::value(1), Expr::value(float(1.0)));
    assert_eq!(
        ev.eval_expr(e),
        Err(EvaluationError::TypeMismatch {
            op: Op::Add,
            left: ValueKind::Int,
            right: Some(ValueKind::Float),
        })
    );
    let e = Expr::binary(Op::Mul, Expr::value(()), Expr::value(2));
    assert_eq!(
        ev.eval_expr(e),
        Err(EvaluationError::TypeMismatch {
            op: Op::Mul,
            left: ValueKind::Unit,
            right: Some(ValueKind::Int),
        })
    );
    let e = Expr::unary(Op::Sub, Expr::value(Value::new(vec![Value::Int(1)])));
    assert_eq!(
        ev.eval_expr(e),
        Err(EvaluationError::TypeMismatch { op: Op::Sub, left: ValueKind::List, right: None })
    );
    let e = Expr::binary(Op::Mod, Expr::value(float(1.0)), Expr::value(float(2.0)));
    assert_eq!(
        ev.eval_expr(e),
        Err(EvaluationError::TypeMismatch {
            op: Op::Mod,
            left: ValueKind::Float,
            right: Some(ValueKind::Float),
        })
    );
}

#[test]
fn unbound_identifier_is_an_error() {
    let mut ev = Evaluator::new(float_arith);
    assert_eq!(
        ev.eval_expr(Expr::ident("z".to_string())),
        Err(EvaluationError::UnboundIdentifier("z".to_string()))
    );
}

#[test]
fn failed_statement_binds_nothing() {
    let mut ev = Evaluator::new(float_arith);
    let _ = ev.eval_stmt(Stmt::assign("a".to_string(), Expr::value(1)));
    let out = ev.eval_stmt(Stmt::assign(
        "a".to_string(),
        Expr::binary(Op::Add, Expr::value(1), Expr::ident("nope".to_string())),
    ));
    assert_eq!(out, Err(EvaluationError::UnboundIdentifier("nope".to_string())));
    assert_eq!(ev.get_val_in_ctx(&"a".to_string()), Some(&Value::Int(1)));
    assert_eq!(ev.get_val_in_ctx(&"nope".to_string()), None);
}

#[test]
fn integer_arithmetic_is_exact() {
    let mut ev = Evaluator::new(float_arith);
    let bin = |op, a: i64, b: i64| Expr::binary(op, Expr::value(a), Expr::value(b));
    assert_eq!(ev.eval_expr(bin(Op::Add, 40, 2)), Ok(Value::Int(42)));
    assert_eq!(ev.eval_expr(bin(Op::Sub, 40, 42)), Ok(Value::Int(-2)));
    assert_eq!(ev.eval_expr(bin(Op::Mul, -6, 7)), Ok(Value::Int(-42)));
    assert_eq!(ev.eval_expr(bin(Op::Div, 7, 2)), Ok(Value::Int(3)));
    assert_eq!(ev.eval_expr(bin(Op::Div, -7, 2)), Ok(Value::Int(-3)));
    assert_eq!(ev.eval_expr(bin(Op::Div, 7, -2)), Ok(Value::Int(-3)));
    assert_eq!(ev.eval_expr(bin(Op::Mod, 7, 2)), Ok(Value::Int(1)));
    assert_eq!(ev.eval_expr(bin(Op::Mod, -7, 2)), Ok(Value::Int(-1)));
    assert_eq!(ev.eval_expr(bin(Op::Mod, 7, -2)), Ok(Value::Int(1)));
    assert_eq!(ev.eval_expr(bin(Op::Mod, i64::MIN, -1)), Ok(Value::Int(0)));
    assert_eq!(ev.eval_expr(bin(Op::Div, 1, 0)), Err(EvaluationError::DivisionByZero));
    assert_eq!(ev.eval_expr(bin(Op::Mod, 1, 0)), Err(EvaluationError::DivisionByZero));
    assert_eq!(ev.eval_expr(bin(Op::Add, i64::MAX, 1)), Err(EvaluationError::Overflow));
    assert_eq!(ev.eval_expr(bin(Op::Sub, i64::MIN, 1)), Err(EvaluationError::Overflow));
    assert_eq!(ev.eval_expr(bin(Op::Mul, i64::MAX, 2)), Err(EvaluationError::Overflow));
    assert_eq!(ev.eval_expr(bin(Op::Div, i64::MIN, -1)), Err(EvaluationError::Overflow));
    assert_eq!(
        ev.eval_expr(Expr::unary(Op::Sub, Expr::value(i64::MIN))),
        Err(EvaluationError::Overflow)
    );
    assert_eq!(ev.eval_expr(Expr::unary(Op::Add, Expr::value(5))), Ok(Value::Int(5)));
}

#[test]
fn float_arithmetic_goes_through_the_given_operation() {
    let mut ev = Evaluator::new(float_arith);
    let bin = |op, a: f64, b: f64| Expr::binary(op, Expr::value(float(a)), Expr::value(float(b)));
    assert_eq!(ev.eval_expr(bin(Op::Add, 1.5, 2.25)), Ok(float(3.75)));
    assert_eq!(ev.eval_expr(bin(Op::Sub, 1.5, 2.25)), Ok(float(-0.75)));
    assert_eq!(ev.eval_expr(bin(Op::Mul, 1.5, 2.0)), Ok(float(3.0)));
    assert_eq!(ev.eval_expr(bin(Op::Div, 1.0, 4.0)), Ok(float(0.25)));
}

#[test]
fn left_operand_fails_first() {
    let mut ev = Evaluator::new(float_arith);
    let e = Expr::binary(
        Op::Add,
        Expr::ident("first".to_string()),
        Expr::ident("second".to_string()),
    );
    assert_eq!(
        ev.eval_expr(e),
        Err(EvaluationError::UnboundIdentifier("first".to_string()))
    );
}

#[test]
fn context_replaces_bindings() {
    let mut ctx = Context::new();
    ctx.insert("a".to_string(), Value::Int(1));
    ctx.insert("b".to_string(), Value::Int(2));
    ctx.insert("a".to_string(), Value::Int(3));
    assert_eq!(ctx.len(), 2);
    assert_eq!(ctx.get(&"a".to_string()), Some(&Value::Int(3)));
    assert_eq!(ctx.get(&"b".to_string()), Some(&Value::Int(2)));
    assert!(!ctx.contains(&"c".to_string()));
}

#[test]
fn values_compare_and_copy() {
    let v = Value::new(vec![Value::Int(1), float(2.0), Value::Unit]);
    let w = v.duplicate();
    assert!(v.same(&w));
    assert_eq!(v, w);
    assert!(!v.same(&Value::new(vec![Value::Int(1)])));
    let f = Value::Fn { arg: "x".to_string(), expr: Box::new(Expr::ident("x".to_string())) };
    assert!(f.same(&f.clone()));
    assert!(!f.same(&v));
}

#[test]
fn operator_classes() {
    assert!(Op::Add.is_bin_op() && Op::Add.is_unary_op() && !Op::Add.is_bool_op());
    assert!(Op::Mod.is_bin_op() && !Op::Mod.is_unary_op());
    assert!(Op::Xor.is_bool_op() && !Op::Xor.is_bin_op());
    assert!(!Op::Pipe.is_bin_op());
    assert_eq!(Op::Mul.prec(), 2);
    assert_eq!(Op::Sub.prec(), 1);
    assert_eq!(Op::Pipe.prec(), 0);
}
