//! Statements.
use vstd::prelude::*;
use crate::ast::context::Context;
use crate::ast::evaluator::{
    accepts_floats, eval_spec, follows, outcome_of, relation_of, ErrorModel, EvaluationError,
    FloatFn, Outcome,
};
use crate::ast::expr::{Expr, ExprModel, Value, ValueModel};
use crate::ast::op::Op;

verus! {

/// An assignment: the identifier and the expression whose value it is
/// bound to.
#[derive(Debug, Clone, PartialEq)]
pub struct AssignStmt {
    pub ident: String,
    pub expr: Expr,
}

/// A statement.
#[derive(Debug, Clone, PartialEq)]
pub enum Stmt {
    Assign(AssignStmt),
    Expr(Expr),
}

/// What a statement is.
pub enum StmtModel {
    Assign(Seq<char>, ExprModel),
    Expr(ExprModel),
}

impl View for AssignStmt {
    type V = StmtModel;

    open spec fn view(&self) -> StmtModel {
        StmtModel::Assign(self.ident@, self.expr@)
    }
}

impl View for Stmt {
    type V = StmtModel;

    open spec fn view(&self) -> StmtModel {
        match self {
            Stmt::Assign(a) => a@,
            Stmt::Expr(e) => StmtModel::Expr(e@),
        }
    }
}

impl StmtModel {
    /// The expression of the statement.
    pub open spec fn expr(self) -> ExprModel {
        match self {
            StmtModel::Assign(_, e) => e,
            StmtModel::Expr(e) => e,
        }
    }
}

/// The outcome of a statement in the context `ctx`, and the context that it
/// leaves. An assignment evaluates its expression and then binds the
/// identifier to the value, in place of what the identifier was bound to;
/// its own value is the unit. A statement that fails leaves the context as
/// it was.
pub open spec fn exec_spec(s: StmtModel, ctx: Map<Seq<char>, ValueModel>, floats: FloatFn) -> (
    Outcome,
    Map<Seq<char>, ValueModel>,
) {
    match s {
        StmtModel::Assign(name, e) => match eval_spec(e, ctx, floats) {
            Ok(v) => (Ok(ValueModel::Unit), ctx.insert(name, v)),
            Err(err) => (Err(err), ctx),
        },
        StmtModel::Expr(e) => (eval_spec(e, ctx, floats), ctx),
    }
}

impl AssignStmt {
    /// Evaluates the expression and binds the identifier to its value.
    pub fn eval<F: Fn(Op, u64, u64) -> u64>(&self, context: &mut Context, floats: &F) -> (r:
        Result<Value, EvaluationError>)
        requires
            old(context).wf(),
            accepts_floats(floats),
        ensures
            final(context).wf(),
            r is Err ==> final(context)@ == old(context)@,
            forall|fl: FloatFn| #[trigger]
                follows(relation_of(floats), fl, self@.expr(), old(context)@) ==> exec_spec(
                    self@,
                    old(context)@,
                    fl,
                ) == (outcome_of(r), final(context)@),
    {
        match self.expr.eval(context, floats) {
            Err(e) => Err(e),
            Ok(value) => {
                context.insert(self.ident.clone(), value);
                Ok(Value::Unit)
            },
        }
    }
}

impl Stmt {
    /// The statement that binds `ident` to the value of `expr`.
    pub fn assign(ident: String, expr: Expr) -> (r: Stmt)
        ensures
            r@ == StmtModel::Assign(ident@, expr@),
    {
        Stmt::Assign(AssignStmt { ident, expr })
    }

    /// Runs the statement in `context`.
    pub fn eval<F: Fn(Op, u64, u64) -> u64>(&self, context: &mut Context, floats: &F) -> (r:
        Result<Value, EvaluationError>)
        requires
            old(context).wf(),
            accepts_floats(floats),
        ensures
            final(context).wf(),
            r is Err ==> final(context)@ == old(context)@,
            forall|fl: FloatFn| #[trigger]
                follows(relation_of(floats), fl, self@.expr(), old(context)@) ==> exec_spec(
                    self@,
                    old(context)@,
                    fl,
                ) == (outcome_of(r), final(context)@),
    {
        match self {
            Stmt::Assign(stmt) => stmt.eval(context, floats),
            Stmt::Expr(expr) => expr.eval(context, floats),
        }
    }
}

/// A binding lasts: after an assignment whose expression has the value `v`,
/// the identifier evaluates to `v`, and every other identifier to what it
/// evaluated to before.
pub proof fn lemma_assignment_persists(
    name: Seq<char>,
    e: ExprModel,
    ctx: Map<Seq<char>, ValueModel>,
    floats: FloatFn,
    other: Seq<char>,
)
    requires
        eval_spec(e, ctx, floats) is Ok,
        other != name,
    ensures
        exec_spec(StmtModel::Assign(name, e), ctx, floats).0 == Ok::<ValueModel, ErrorModel>(
            ValueModel::Unit,
        ),
        eval_spec(
            ExprModel::Ident(name),
            exec_spec(StmtModel::Assign(name, e), ctx, floats).1,
            floats,
        ) == eval_spec(e, ctx, floats),
        eval_spec(
            ExprModel::Ident(other),
            exec_spec(StmtModel::Assign(name, e), ctx, floats).1,
            floats,
        ) == eval_spec(ExprModel::Ident(other), ctx, floats),
{
}

/// A statement that fails binds nothing.
pub proof fn lemma_failure_binds_nothing(
    s: StmtModel,
    ctx: Map<Seq<char>, ValueModel>,
    floats: FloatFn,
)
    requires
        exec_spec(s, ctx, floats).0 is Err,
    ensures
        exec_spec(s, ctx, floats).1 == ctx,
{
}

} // verus!
