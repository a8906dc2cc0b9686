//! The rules of the expression layer of the grammar, which build the
//! syntax tree:
//!
//! ```text
//! term    ::= number | '(' expr ')'
//! unary   ::= ('+' | '-') term
//! product ::= term (('*' | '/' | '%') term)*
//! sum     ::= product (('+' | '-') product)*
//! expr    ::= sum | unary
//! ```
//!
//! A chain of operators of the same level is folded from the left:
//! `a * b / c` is `(a * b) / c`. Besides the tree, the rules write the flat
//! parse tree, each operator after its operands.
use vstd::prelude::*;
use crate::ast::expr::{Expr, ExprModel};
use crate::ast::op::Op;
use crate::ast::stmt::{Stmt, StmtModel};
use crate::lexer::token::TkKind;
use crate::lexer::{LexedBuffer, LexedModel};
use crate::parser::combinator::{lemma_extended_trans, lemma_restore_extended};
use crate::parser::grammar::{kind_at, mismatch_at};
use crate::parser::parsetree::NodeKind;
use crate::parser::state::{lemma_wrote, Node, ParserState, StateModel};
use crate::parser::value::{
    accepts_text, number_parser, number_tree, reads_buffer, Built, FloatReader,
};
use crate::parser::{first_of, ParseError, ParserRes};

verus! {

/// The operator of the multiplicative level that a token of kind `kind`
/// stands for.
pub open spec fn mul_op(kind: Option<TkKind>) -> Option<Op> {
    match kind {
        Some(TkKind::Star) => Some(Op::Mul),
        Some(TkKind::Slash) => Some(Op::Div),
        Some(TkKind::Percent) => Some(Op::Mod),
        _ => None,
    }
}

/// The operator of the additive level that a token of kind `kind` stands
/// for.
pub open spec fn add_op(kind: Option<TkKind>) -> Option<Op> {
    match kind {
        Some(TkKind::Plus) => Some(Op::Add),
        Some(TkKind::Dash) => Some(Op::Sub),
        _ => None,
    }
}

/// `number | '(' expr ')'`.
pub open spec fn term_tree(buf: LexedModel, floats: FloatReader, pos: nat) -> Result<
    Built<ExprModel>,
    ParseError,
>
    decreases buf.kinds.len() - pos, 1int,
{
    first_of(
        match number_tree(buf, floats, pos) {
            Ok((v, nodes, end)) => Ok((ExprModel::Value(v), nodes, end)),
            Err(e) => Err(e),
        },
        paren_tree(buf, floats, pos),
    )
}

/// `'(' expr ')'`: the tree of the expression; the nodes of the two
/// parentheses are written after those of the expression.
pub open spec fn paren_tree(buf: LexedModel, floats: FloatReader, pos: nat) -> Result<
    Built<ExprModel>,
    ParseError,
>
    decreases buf.kinds.len() - pos, 0int,
{
    if kind_at(buf.kinds, pos) != Some(TkKind::Lpar) {
        Err(mismatch_at(buf.kinds, pos, Some(TkKind::Lpar)))
    } else {
        match expr_tree(buf, floats, pos + 1) {
            Err(e) => Err(e),
            Ok((tree, nodes, mid)) => if kind_at(buf.kinds, mid) != Some(TkKind::Rpar) {
                Err(mismatch_at(buf.kinds, mid, Some(TkKind::Rpar)))
            } else {
                Ok(
                    (
                        tree,
                        nodes + seq![
                            (NodeKind::AtomEnd, mid as usize, true),
                            (NodeKind::AtomBegin, pos as usize, true),
                        ],
                        mid + 1,
                    ),
                )
            },
        }
    }
}

/// `('+' | '-') term`.
pub open spec fn unary_tree(buf: LexedModel, floats: FloatReader, pos: nat) -> Result<
    Built<ExprModel>,
    ParseError,
>
    decreases buf.kinds.len() - pos, 2int,
{
    match add_op(kind_at(buf.kinds, pos)) {
        None => Err(mismatch_at(buf.kinds, pos, Some(TkKind::Dash))),
        Some(op) => match term_tree(buf, floats, pos + 1) {
            Err(e) => Err(e),
            Ok((operand, nodes, end)) => Ok(
                (
                    ExprModel::Unary(op, Box::new(operand)),
                    nodes + seq![(NodeKind::UnaryOp, pos as usize, true)],
                    end,
                ),
            ),
        },
    }
}

/// The rest of a product: `(('*' | '/' | '%') term)*` after the tree `acc`,
/// which wrote the nodes `nodes`. The chain ends before the first operator
/// that no term follows.
pub open spec fn product_rest(
    buf: LexedModel,
    floats: FloatReader,
    pos: nat,
    acc: ExprModel,
    nodes: Seq<Node>,
) -> Built<ExprModel>
    decreases buf.kinds.len() - pos, 0int,
{
    match mul_op(kind_at(buf.kinds, pos)) {
        None => (acc, nodes, pos),
        Some(op) => match term_tree(buf, floats, pos + 1) {
            Err(_) => (acc, nodes, pos),
            Ok((rhs, more, end)) => if pos < end <= buf.kinds.len() {
                product_rest(
                    buf,
                    floats,
                    end,
                    ExprModel::Binary(op, Box::new(acc), Box::new(rhs)),
                    nodes + more + seq![(NodeKind::BinaryOp, pos as usize, true)],
                )
            } else {
                // Kept for the definition to be well founded; a term takes
                // at least one token.
                (acc, nodes, pos)
            },
        },
    }
}

/// `term (('*' | '/' | '%') term)*`.
pub open spec fn product_tree(buf: LexedModel, floats: FloatReader, pos: nat) -> Result<
    Built<ExprModel>,
    ParseError,
>
    decreases buf.kinds.len() - pos, 3int,
{
    match term_tree(buf, floats, pos) {
        Err(e) => Err(e),
        Ok((lhs, nodes, mid)) => if pos < mid <= buf.kinds.len() {
            Ok(product_rest(buf, floats, mid, lhs, nodes))
        } else {
            // Kept for the definition to be well founded; a term takes at
            // least one token.
            Ok((lhs, nodes, mid))
        },
    }
}

/// The rest of a sum: `(('+' | '-') product)*` after the tree `acc`, which
/// wrote the nodes `nodes`.
pub open spec fn sum_rest(
    buf: LexedModel,
    floats: FloatReader,
    pos: nat,
    acc: ExprModel,
    nodes: Seq<Node>,
) -> Built<ExprModel>
    decreases buf.kinds.len() - pos, 0int,
{
    match add_op(kind_at(buf.kinds, pos)) {
        None => (acc, nodes, pos),
        Some(op) => match product_tree(buf, floats, pos + 1) {
            Err(_) => (acc, nodes, pos),
            Ok((rhs, more, end)) => if pos < end <= buf.kinds.len() {
                sum_rest(
                    buf,
                    floats,
                    end,
                    ExprModel::Binary(op, Box::new(acc), Box::new(rhs)),
                    nodes + more + seq![(NodeKind::BinaryOp, pos as usize, true)],
                )
            } else {
                // Kept for the definition to be well founded; a product
                // takes at least one token.
                (acc, nodes, pos)
            },
        },
    }
}

/// `product (('+' | '-') product)*`.
pub open spec fn sum_tree(buf: LexedModel, floats: FloatReader, pos: nat) -> Result<
    Built<ExprModel>,
    ParseError,
>
    decreases buf.kinds.len() - pos, 4int,
{
    match product_tree(buf, floats, pos) {
        Err(e) => Err(e),
        Ok((lhs, nodes, mid)) => if pos < mid <= buf.kinds.len() {
            Ok(sum_rest(buf, floats, mid, lhs, nodes))
        } else {
            // Kept for the definition to be well founded; a product takes
            // at least one token.
            Ok((lhs, nodes, mid))
        },
    }
}

/// `sum | unary`.
pub open spec fn expr_tree(buf: LexedModel, floats: FloatReader, pos: nat) -> Result<
    Built<ExprModel>,
    ParseError,
>
    decreases buf.kinds.len() - pos, 5int,
{
    first_of(sum_tree(buf, floats, pos), unary_tree(buf, floats, pos))
}

/// Whether what was built at `pos` ends after `pos` and inside the tokens.
pub open spec fn advances<T>(buf: LexedModel, pos: nat, r: Result<Built<T>, ParseError>) -> bool {
    r matches Ok((_, _, end)) ==> pos < end <= buf.kinds.len()
}

/// A term that matches takes at least one token.
pub proof fn lemma_term_advances(buf: LexedModel, floats: FloatReader, pos: nat)
    ensures
        advances(buf, pos, term_tree(buf, floats, pos)),
    decreases buf.kinds.len() - pos, 1int,
{
    if kind_at(buf.kinds, pos) == Some(TkKind::Lpar) {
        lemma_expr_advances(buf, floats, pos + 1);
    }
}

/// A prefix operator with its operand takes at least one token.
pub proof fn lemma_unary_advances(buf: LexedModel, floats: FloatReader, pos: nat)
    ensures
        advances(buf, pos, unary_tree(buf, floats, pos)),
    decreases buf.kinds.len() - pos, 2int,
{
    if add_op(kind_at(buf.kinds, pos)) is Some {
        lemma_term_advances(buf, floats, pos + 1);
    }
}

/// The rest of a product ends at or after where it starts, inside the
/// tokens.
pub proof fn lemma_product_rest_advances(
    buf: LexedModel,
    floats: FloatReader,
    pos: nat,
    acc: ExprModel,
    nodes: Seq<Node>,
)
    requires
        pos <= buf.kinds.len(),
    ensures
        pos <= product_rest(buf, floats, pos, acc, nodes).2 <= buf.kinds.len(),
    decreases buf.kinds.len() - pos, 0int,
{
    match mul_op(kind_at(buf.kinds, pos)) {
        None => {},
        Some(op) => {
            lemma_term_advances(buf, floats, pos + 1);
            match term_tree(buf, floats, pos + 1) {
                Err(_) => {},
                Ok((rhs, more, end)) => {
                    lemma_product_rest_advances(
                        buf,
                        floats,
                        end,
                        ExprModel::Binary(op, Box::new(acc), Box::new(rhs)),
                        nodes + more + seq![(NodeKind::BinaryOp, pos as usize, true)],
                    );
                },
            }
        },
    }
}

/// A product that matches takes at least one token.
pub proof fn lemma_product_advances(buf: LexedModel, floats: FloatReader, pos: nat)
    ensures
        advances(buf, pos, product_tree(buf, floats, pos)),
    decreases buf.kinds.len() - pos, 3int,
{
    lemma_term_advances(buf, floats, pos);
    match term_tree(buf, floats, pos) {
        Err(_) => {},
        Ok((lhs, nodes, mid)) => {
            lemma_product_rest_advances(buf, floats, mid, lhs, nodes);
        },
    }
}

/// The rest of a sum ends at or after where it starts, inside the tokens.
pub proof fn lemma_sum_rest_advances(
    buf: LexedModel,
    floats: FloatReader,
    pos: nat,
    acc: ExprModel,
    nodes: Seq<Node>,
)
    requires
        pos <= buf.kinds.len(),
    ensures
        pos <= sum_rest(buf, floats, pos, acc, nodes).2 <= buf.kinds.len(),
    decreases buf.kinds.len() - pos, 0int,
{
    match add_op(kind_at(buf.kinds, pos)) {
        None => {},
        Some(op) => {
            lemma_product_advances(buf, floats, pos + 1);
            match product_tree(buf, floats, pos + 1) {
                Err(_) => {},
                Ok((rhs, more, end)) => {
                    lemma_sum_rest_advances(
                        buf,
                        floats,
                        end,
                        ExprModel::Binary(op, Box::new(acc), Box::new(rhs)),
                        nodes + more + seq![(NodeKind::BinaryOp, pos as usize, true)],
                    );
                },
            }
        },
    }
}

/// A sum that matches takes at least one token.
pub proof fn lemma_sum_advances(buf: LexedModel, floats: FloatReader, pos: nat)
    ensures
        advances(buf, pos, sum_tree(buf, floats, pos)),
    decreases buf.kinds.len() - pos, 4int,
{
    lemma_product_advances(buf, floats, pos);
    match product_tree(buf, floats, pos) {
        Err(_) => {},
        Ok((lhs, nodes, mid)) => {
            lemma_sum_rest_advances(buf, floats, mid, lhs, nodes);
        },
    }
}

/// An expression that matches takes at least one token and ends inside the
/// tokens: the tests on the ends of terms and products in the rules always
/// pass.
pub proof fn lemma_expr_advances(buf: LexedModel, floats: FloatReader, pos: nat)
    ensures
        advances(buf, pos, expr_tree(buf, floats, pos)),
    decreases buf.kinds.len() - pos, 5int,
{
    lemma_sum_advances(buf, floats, pos);
    lemma_unary_advances(buf, floats, pos);
}

/// Whether a parser of expressions, run on `pre`, did what `expected` says:
/// it matched, built the tree and wrote the nodes that `expected` names,
/// and stands at the token that `expected` names; or it did not match, for
/// the reason that `expected` gives, and left the state as it was.
pub open spec fn builds(
    pre: StateModel,
    post: StateModel,
    r: ParserRes<Expr>,
    expected: Result<Built<ExprModel>, ParseError>,
) -> bool {
    match expected {
        Ok((tree, nodes, end)) => (r matches ParserRes::Succ(e) && e@ == tree) && post == (
        StateModel { out: pre.out + nodes, ..pre }) && post.cursor() == end,
        Err(e) => (r matches ParserRes::Fail(x) && x == e) && post == pre,
    }
}

/// `number | '(' expr ')'`.
pub fn term<G: Fn(&str) -> Option<u64>>(state: &mut ParserState, floats: &G) -> (r: ParserRes<
    Expr,
>)
    requires
        old(state).wf(),
        accepts_text(floats),
    ensures
        final(state).wf(),
        r is Fail ==> final(state)@ == old(state)@,
        r is Succ ==> old(state)@.wrote(final(state)@) && final(state)@.cursor() > old(
            state,
        )@.cursor(),
        forall|fl: FloatReader| #[trigger]
            reads_buffer(floats, fl, old(state)@.input) ==> builds(
                old(state)@,
                final(state)@,
                r,
                term_tree(old(state)@.input, fl, old(state)@.cursor()),
            ),
    decreases old(state)@.remaining(), 1int,
{
    let ghost pre = state@;
    let ghost pos = state@.cursor();
    proof {
        state.lemma_wf();
    }
    let e1 = match number_parser(state, floats) {
        ParserRes::Succ(v) => {
            return ParserRes::Succ(Expr::Value(v));
        },
        ParserRes::Fail(e) => e,
    };
    let save = state.save();
    if !state.is_kind(TkKind::Lpar) {
        let e2 = state.mismatch(Some(TkKind::Lpar));
        return ParserRes::Fail(e1.furthest(e2));
    }
    state.stack_node(NodeKind::AtomBegin);
    let ghost inside = state@;
    match expr(state, floats) {
        ParserRes::Fail(e2) => {
            proof {
                lemma_restore_extended(pre, inside);
            }
            state.restore(save);
            ParserRes::Fail(e1.furthest(e2))
        },
        ParserRes::Succ(tree) => {
            let ghost after = state@;
            let ghost mid = state@.cursor();
            proof {
                state.lemma_wf();
                lemma_wrote(inside, after);
                lemma_extended_trans(pre, inside, after);
            }
            if !state.is_kind(TkKind::Rpar) {
                let e2 = state.mismatch(Some(TkKind::Rpar));
                proof {
                    lemma_restore_extended(pre, after);
                }
                state.restore(save);
                return ParserRes::Fail(e1.furthest(e2));
            }
            state.stack_node(NodeKind::AtomEnd);
            state.pop_node();
            state.pop_node();
            proof {
                assert(state@.stack =~= pre.stack);
                assert(state@.out =~= after.out + seq![
                    (NodeKind::AtomEnd, mid as usize, true),
                    (NodeKind::AtomBegin, pos as usize, true),
                ]);
                assert forall|fl: FloatReader| #[trigger]
                    reads_buffer(floats, fl, pre.input) implies state@.out == pre.out + (expr_tree(
                    pre.input,
                    fl,
                    pos + 1,
                )->Ok_0.1 + seq![
                    (NodeKind::AtomEnd, mid as usize, true),
                    (NodeKind::AtomBegin, pos as usize, true),
                ]) by {
                    let nodes = expr_tree(pre.input, fl, pos + 1)->Ok_0.1;
                    assert(state@.out =~= pre.out + (nodes + seq![
                        (NodeKind::AtomEnd, mid as usize, true),
                        (NodeKind::AtomBegin, pos as usize, true),
                    ]));
                }
            }
            ParserRes::Succ(tree)
        },
    }
}

/// `('+' | '-') term`.
pub fn unary_parser<G: Fn(&str) -> Option<u64>>(state: &mut ParserState, floats: &G) -> (r:
    ParserRes<Expr>)
    requires
        old(state).wf(),
        accepts_text(floats),
    ensures
        final(state).wf(),
        r is Fail ==> final(state)@ == old(state)@,
        r is Succ ==> old(state)@.wrote(final(state)@) && final(state)@.cursor() > old(
            state,
        )@.cursor(),
        forall|fl: FloatReader| #[trigger]
            reads_buffer(floats, fl, old(state)@.input) ==> builds(
                old(state)@,
                final(state)@,
                r,
                unary_tree(old(state)@.input, fl, old(state)@.cursor()),
            ),
    decreases old(state)@.remaining(), 2int,
{
    let ghost pre = state@;
    let ghost pos = state@.cursor();
    let save = state.save();
    let op = match state.current_kind() {
        Some(TkKind::Plus) => Op::Add,
        Some(TkKind::Dash) => Op::Sub,
        _ => {
            return ParserRes::Fail(state.mismatch(Some(TkKind::Dash)));
        },
    };
    state.stack_node(NodeKind::UnaryOp);
    let ghost inside = state@;
    match term(state, floats) {
        ParserRes::Fail(e) => {
            proof {
                lemma_restore_extended(pre, inside);
            }
            state.restore(save);
            ParserRes::Fail(e)
        },
        ParserRes::Succ(operand) => {
            let ghost after = state@;
            proof {
                lemma_wrote(inside, after);
                lemma_extended_trans(pre, inside, after);
            }
            state.pop_node();
            proof {
                assert(state@.stack =~= pre.stack);
                assert(state@.out =~= after.out + seq![(NodeKind::UnaryOp, pos as usize, true)]);
                assert forall|fl: FloatReader| #[trigger]
                    reads_buffer(floats, fl, pre.input) implies state@.out == pre.out + (term_tree(
                    pre.input,
                    fl,
                    pos + 1,
                )->Ok_0.1 + seq![(NodeKind::UnaryOp, pos as usize, true)]) by {
                    let nodes = term_tree(pre.input, fl, pos + 1)->Ok_0.1;
                    assert(state@.out =~= pre.out + (nodes + seq![
                        (NodeKind::UnaryOp, pos as usize, true),
                    ]));
                }
            }
            ParserRes::Succ(Expr::unary(op, operand))
        },
    }
}

/// `term (('*' | '/' | '%') term)*`, folded from the left.
pub fn product_parser<G: Fn(&str) -> Option<u64>>(state: &mut ParserState, floats: &G) -> (r:
    ParserRes<Expr>)
    requires
        old(state).wf(),
        accepts_text(floats),
    ensures
        final(state).wf(),
        r is Fail ==> final(state)@ == old(state)@,
        r is Succ ==> old(state)@.wrote(final(state)@) && final(state)@.cursor() > old(
            state,
        )@.cursor(),
        forall|fl: FloatReader| #[trigger]
            reads_buffer(floats, fl, old(state)@.input) ==> builds(
                old(state)@,
                final(state)@,
                r,
                product_tree(old(state)@.input, fl, old(state)@.cursor()),
            ),
    decreases old(state)@.remaining(), 3int,
{
    let ghost pre = state@;
    let ghost pos = state@.cursor();
    let ghost buf = state@.input;
    proof {
        state.lemma_wf();
    }
    let mut acc = match term(state, floats) {
        ParserRes::Fail(e) => {
            return ParserRes::Fail(e);
        },
        ParserRes::Succ(lhs) => lhs,
    };
    let ghost base = pre.out.len() as int;
    proof {
        assert forall|fl: FloatReader| #[trigger] reads_buffer(floats, fl, buf) implies state@.out.skip(
            base,
        ) == term_tree(buf, fl, pos)->Ok_0.1 by {
            let nodes = term_tree(buf, fl, pos)->Ok_0.1;
            assert((pre.out + nodes).skip(base) =~= nodes);
        }
    }
    proof {
        state.lemma_wf();
    }
    loop
        invariant
            state.wf(),
            accepts_text(floats),
            pre.wrote(state@),
            state@.cursor() > pos,
            pos == pre.cursor(),
            buf == pre.input,
            pre.wf(),
            pre == old(state)@,
            state@.remaining() < pre.remaining(),
            base == pre.out.len(),
            forall|fl: FloatReader| #[trigger]
                reads_buffer(floats, fl, buf) ==> product_tree(buf, fl, pos) == Ok::<
                    Built<ExprModel>,
                    ParseError,
                >(product_rest(buf, fl, state@.cursor(), acc@, state@.out.skip(base))),
        ensures
            state.wf(),
            pre.wrote(state@),
            state@.cursor() > pos,
            forall|fl: FloatReader| #[trigger]
                reads_buffer(floats, fl, buf) ==> product_tree(buf, fl, pos) == Ok::<
                    Built<ExprModel>,
                    ParseError,
                >((acc@, state@.out.skip(base), state@.cursor())),
        decreases state@.remaining(),
    {
        let ghost cur = state@;
        let ghost at = state@.cursor();
        proof {
            state.lemma_wf();
        }
        let save = state.save();
        let op = match state.current_kind() {
            Some(TkKind::Star) => Op::Mul,
            Some(TkKind::Slash) => Op::Div,
            Some(TkKind::Percent) => Op::Mod,
            _ => {
                break ;
            },
        };
        state.stack_node(NodeKind::BinaryOp);
        let ghost inside = state@;
        proof {
            state.lemma_wf();
        }
        match term(state, floats) {
            ParserRes::Fail(_) => {
                proof {
                    lemma_restore_extended(cur, inside);
                }
                state.restore(save);
                break ;
            },
            ParserRes::Succ(rhs) => {
                let ghost after = state@;
                proof {
                    state.lemma_wf();
                    lemma_wrote(inside, after);
                    lemma_wrote(pre, cur);
                    lemma_extended_trans(cur, inside, after);
                    lemma_extended_trans(pre, cur, after);
                }
                state.pop_node();
                proof {
                    assert(state@.stack =~= pre.stack);
                    assert(state@.out =~= after.out + seq![(NodeKind::BinaryOp, at as usize, true)]);
                    assert(pre.out.is_prefix_of(state@.out));
                    assert forall|fl: FloatReader| #[trigger]
                        reads_buffer(floats, fl, buf) implies state@.out.skip(base) == cur.out.skip(
                        base,
                    ) + term_tree(buf, fl, at + 1)->Ok_0.1 + seq![(NodeKind::BinaryOp, at as usize, true)] by {
                        let more = term_tree(buf, fl, at + 1)->Ok_0.1;
                        assert(inside.out == cur.out);
                        assert(after.out == cur.out + more);
                        assert(state@.out.skip(base) =~= cur.out.skip(base) + more + seq![
                            (NodeKind::BinaryOp, at as usize, true),
                        ]);
                    }
                }
                acc = Expr::binary(op, acc, rhs);
            },
        }
    }
    proof {
        assert(pre.out + state@.out.skip(base) =~= state@.out);
    }
    ParserRes::Succ(acc)
}

/// `product (('+' | '-') product)*`, folded from the left.
pub fn binary_parser<G: Fn(&str) -> Option<u64>>(state: &mut ParserState, floats: &G) -> (r:
    ParserRes<Expr>)
    requires
        old(state).wf(),
        accepts_text(floats),
    ensures
        final(state).wf(),
        r is Fail ==> final(state)@ == old(state)@,
        r is Succ ==> old(state)@.wrote(final(state)@) && final(state)@.cursor() > old(
            state,
        )@.cursor(),
        forall|fl: FloatReader| #[trigger]
            reads_buffer(floats, fl, old(state)@.input) ==> builds(
                old(state)@,
                final(state)@,
                r,
                sum_tree(old(state)@.input, fl, old(state)@.cursor()),
            ),
    decreases old(state)@.remaining(), 4int,
{
    let ghost pre = state@;
    let ghost pos = state@.cursor();
    let ghost buf = state@.input;
    proof {
        state.lemma_wf();
    }
    let mut acc = match product_parser(state, floats) {
        ParserRes::Fail(e) => {
            return ParserRes::Fail(e);
        },
        ParserRes::Succ(lhs) => lhs,
    };
    let ghost base = pre.out.len() as int;
    proof {
        assert forall|fl: FloatReader| #[trigger] reads_buffer(floats, fl, buf) implies state@.out.skip(
            base,
        ) == product_tree(buf, fl, pos)->Ok_0.1 by {
            let nodes = product_tree(buf, fl, pos)->Ok_0.1;
            assert((pre.out + nodes).skip(base) =~= nodes);
        }
    }
    proof {
        state.lemma_wf();
    }
    loop
        invariant
            state.wf(),
            accepts_text(floats),
            pre.wrote(state@),
            state@.cursor() > pos,
            pos == pre.cursor(),
            buf == pre.input,
            pre.wf(),
            pre == old(state)@,
            state@.remaining() < pre.remaining(),
            base == pre.out.len(),
            forall|fl: FloatReader| #[trigger]
                reads_buffer(floats, fl, buf) ==> sum_tree(buf, fl, pos) == Ok::<
                    Built<ExprModel>,
                    ParseError,
                >(sum_rest(buf, fl, state@.cursor(), acc@, state@.out.skip(base))),
        ensures
            state.wf(),
            pre.wrote(state@),
            state@.cursor() > pos,
            forall|fl: FloatReader| #[trigger]
                reads_buffer(floats, fl, buf) ==> sum_tree(buf, fl, pos) == Ok::<
                    Built<ExprModel>,
                    ParseError,
                >((acc@, state@.out.skip(base), state@.cursor())),
        decreases state@.remaining(),
    {
        let ghost cur = state@;
        let ghost at = state@.cursor();
        proof {
            state.lemma_wf();
        }
        let save = state.save();
        let op = match state.current_kind() {
            Some(TkKind::Plus) => Op::Add,
            Some(TkKind::Dash) => Op::Sub,
            _ => {
                break ;
            },
        };
        state.stack_node(NodeKind::BinaryOp);
        let ghost inside = state@;
        proof {
            state.lemma_wf();
        }
        match product_parser(state, floats) {
            ParserRes::Fail(_) => {
                proof {
                    lemma_restore_extended(cur, inside);
                }
                state.restore(save);
                break ;
            },
            ParserRes::Succ(rhs) => {
                let ghost after = state@;
                proof {
                    state.lemma_wf();
                    lemma_wrote(inside, after);
                    lemma_wrote(pre, cur);
                    lemma_extended_trans(cur, inside, after);
                    lemma_extended_trans(pre, cur, after);
                }
                state.pop_node();
                proof {
                    assert(state@.stack =~= pre.stack);
                    assert(state@.out =~= after.out + seq![(NodeKind::BinaryOp, at as usize, true)]);
                    assert(pre.out.is_prefix_of(state@.out));
                    assert forall|fl: FloatReader| #[trigger]
                        reads_buffer(floats, fl, buf) implies state@.out.skip(base) == cur.out.skip(
                        base,
                    ) + product_tree(buf, fl, at + 1)->Ok_0.1 + seq![(NodeKind::BinaryOp, at as usize, true)] by {
                        let more = product_tree(buf, fl, at + 1)->Ok_0.1;
                        assert(inside.out == cur.out);
                        assert(after.out == cur.out + more);
                        assert(state@.out.skip(base) =~= cur.out.skip(base) + more + seq![
                            (NodeKind::BinaryOp, at as usize, true),
                        ]);
                    }
                }
                acc = Expr::binary(op, acc, rhs);
            },
        }
    }
    proof {
        assert(pre.out + state@.out.skip(base) =~= state@.out);
    }
    ParserRes::Succ(acc)
}

/// `sum | unary`: an expression.
pub fn expr<G: Fn(&str) -> Option<u64>>(state: &mut ParserState, floats: &G) -> (r: ParserRes<
    Expr,
>)
    requires
        old(state).wf(),
        accepts_text(floats),
    ensures
        final(state).wf(),
        r is Fail ==> final(state)@ == old(state)@,
        r is Succ ==> old(state)@.wrote(final(state)@) && final(state)@.cursor() > old(
            state,
        )@.cursor(),
        forall|fl: FloatReader| #[trigger]
            reads_buffer(floats, fl, old(state)@.input) ==> builds(
                old(state)@,
                final(state)@,
                r,
                expr_tree(old(state)@.input, fl, old(state)@.cursor()),
            ),
    decreases old(state)@.remaining(), 5int,
{
    match binary_parser(state, floats) {
        ParserRes::Succ(tree) => ParserRes::Succ(tree),
        ParserRes::Fail(e1) => match unary_parser(state, floats) {
            ParserRes::Succ(tree) => ParserRes::Succ(tree),
            ParserRes::Fail(e2) => ParserRes::Fail(e1.furthest(e2)),
        },
    }
}

/// The operator `op` at `pos`: the token of an arithmetic operator, or the
/// two tokens `|` and `>` of the pipe. The other operators are not written
/// with tokens of their own.
pub open spec fn op_tree(kinds: Seq<TkKind>, pos: nat, op: Op) -> Result<Built<Op>, ParseError> {
    match op.token() {
        Some(kind) => if kind_at(kinds, pos) == Some(kind) {
            Ok((op, seq![(NodeKind::BinaryOp, pos as usize, true)], pos + 1))
        } else {
            Err(mismatch_at(kinds, pos, Some(kind)))
        },
        None => if op != Op::Pipe {
            Err(mismatch_at(kinds, pos, None))
        } else if kind_at(kinds, pos) != Some(TkKind::Bar) {
            Err(mismatch_at(kinds, pos, Some(TkKind::Bar)))
        } else if kind_at(kinds, pos + 1) != Some(TkKind::GT) {
            Err(mismatch_at(kinds, pos + 1, Some(TkKind::GT)))
        } else {
            Ok(
                (
                    op,
                    seq![
                        (NodeKind::BinaryOp, pos as usize, true),
                        (NodeKind::BinaryOp, (pos + 1) as usize, true),
                    ],
                    pos + 2,
                ),
            )
        },
    }
}

/// Parses the operator `op`.
pub fn op_parser(state: &mut ParserState, op: Op) -> (r: ParserRes<Op>)
    requires
        old(state).wf(),
    ensures
        final(state).wf(),
        match op_tree(old(state)@.input.kinds, old(state)@.cursor(), op) {
            Ok((found, nodes, end)) => r == ParserRes::Succ(found) && final(state)@ == (
            StateModel { out: old(state)@.out + nodes, ..old(state)@ }) && final(state)@.cursor()
                == end && old(state)@.wrote(final(state)@),
            Err(e) => r == ParserRes::<Op>::Fail(e) && final(state)@ == old(state)@,
        },
{
    let ghost pre = state@;
    let ghost pos = state@.cursor();
    match op.token_kind() {
        Some(kind) => {
            if state.is_kind(kind) {
                state.push_node(NodeKind::BinaryOp);
                proof {
                    assert(state@.out =~= pre.out + seq![(NodeKind::BinaryOp, pos as usize, true)]);
                }
                ParserRes::Succ(op)
            } else {
                ParserRes::Fail(state.mismatch(Some(kind)))
            }
        },
        None => {
            match op {
                Op::Pipe => {},
                _ => {
                    return ParserRes::Fail(state.mismatch(None));
                },
            }
            let save = state.save();
            if !state.is_kind(TkKind::Bar) {
                return ParserRes::Fail(state.mismatch(Some(TkKind::Bar)));
            }
            state.push_node(NodeKind::BinaryOp);
            if !state.is_kind(TkKind::GT) {
                let e = state.mismatch(Some(TkKind::GT));
                proof {
                    lemma_restore_extended(pre, state@);
                }
                state.restore(save);
                return ParserRes::Fail(e);
            }
            state.push_node(NodeKind::BinaryOp);
            proof {
                assert(state@.out =~= pre.out + seq![
                    (NodeKind::BinaryOp, pos as usize, true),
                    (NodeKind::BinaryOp, (pos + 1) as usize, true),
                ]);
            }
            ParserRes::Succ(op)
        },
    }
}

/// What parsing a whole buffer as one expression gives: the tree, where
/// the expression takes every token; else the reason why not.
pub open spec fn whole_expr(buf: LexedModel, floats: FloatReader) -> Result<ExprModel, ParseError> {
    match expr_tree(buf, floats, 0) {
        Ok((tree, _, end)) => if end == buf.kinds.len() {
            Ok(tree)
        } else {
            Err(ParseError::ExpectedEOI { at: end as usize })
        },
        Err(e) => Err(e),
    }
}

/// Parses the tokens of `input` as one expression, which must take them
/// all.
pub fn parse_expr<G: Fn(&str) -> Option<u64>>(input: LexedBuffer, floats: &G) -> (r: Result<
    Expr,
    ParseError,
>)
    requires
        input@.wf(),
        accepts_text(floats),
    ensures
        forall|fl: FloatReader| #[trigger]
            reads_buffer(floats, fl, input@) ==> match whole_expr(input@, fl) {
                Ok(tree) => r matches Ok(e) && e@ == tree,
                Err(err) => r matches Err(x) && x == err,
            },
{
    let mut state = ParserState::new(input);
    match expr(&mut state, floats) {
        ParserRes::Fail(e) => Err(e),
        ParserRes::Succ(tree) => {
            proof {
                state.lemma_wf();
            }
            let at = state.cursor();
            if at == state.input().nb_tokens() {
                Ok(tree)
            } else {
                Err(ParseError::ExpectedEOI { at })
            }
        },
    }
}

/// Whether a parser of statements, run on `pre`, did what `expected` says.
pub open spec fn builds_stmt(
    pre: StateModel,
    post: StateModel,
    r: ParserRes<Stmt>,
    expected: Result<Built<StmtModel>, ParseError>,
) -> bool {
    match expected {
        Ok((tree, nodes, end)) => (r matches ParserRes::Succ(s) && s@ == tree) && post == (
        StateModel { out: pre.out + nodes, ..pre }) && post.cursor() == end,
        Err(e) => (r matches ParserRes::Fail(x) && x == e) && post == pre,
    }
}

/// `ident '=' expr`: the assignment of the value of the expression to the
/// identifier. The equals sign is written first and the name last.
pub open spec fn assign_tree(buf: LexedModel, floats: FloatReader, pos: nat) -> Result<
    Built<StmtModel>,
    ParseError,
> {
    if kind_at(buf.kinds, pos) != Some(TkKind::Ident) {
        Err(mismatch_at(buf.kinds, pos, Some(TkKind::Ident)))
    } else if kind_at(buf.kinds, pos + 1) != Some(TkKind::Equals) {
        Err(mismatch_at(buf.kinds, pos + 1, Some(TkKind::Equals)))
    } else {
        match expr_tree(buf, floats, pos + 2) {
            Err(e) => Err(e),
            Ok((tree, nodes, end)) => Ok(
                (
                    StmtModel::Assign(buf.text(pos as int), tree),
                    seq![(NodeKind::Assign, (pos + 1) as usize, true)] + nodes + seq![
                        (NodeKind::LAssign, pos as usize, true),
                    ],
                    end,
                ),
            ),
        }
    }
}

/// An identifier that stands as an expression by itself.
pub open spec fn name_tree(buf: LexedModel, pos: nat) -> Result<Built<StmtModel>, ParseError> {
    if kind_at(buf.kinds, pos) != Some(TkKind::Ident) {
        Err(mismatch_at(buf.kinds, pos, Some(TkKind::Ident)))
    } else {
        Ok(
            (
                StmtModel::Expr(ExprModel::Ident(buf.text(pos as int))),
                seq![(NodeKind::IdentValue, pos as usize, true)],
                pos + 1,
            ),
        )
    }
}

/// `assign | expr | ident`: a statement.
pub open spec fn stmt_tree(buf: LexedModel, floats: FloatReader, pos: nat) -> Result<
    Built<StmtModel>,
    ParseError,
> {
    first_of(
        assign_tree(buf, floats, pos),
        first_of(
            match expr_tree(buf, floats, pos) {
                Ok((tree, nodes, end)) => Ok((StmtModel::Expr(tree), nodes, end)),
                Err(e) => Err(e),
            },
            name_tree(buf, pos),
        ),
    )
}

/// `ident '=' expr`.
pub fn assign_parser<G: Fn(&str) -> Option<u64>>(state: &mut ParserState, floats: &G) -> (r:
    ParserRes<Stmt>)
    requires
        old(state).wf(),
        accepts_text(floats),
    ensures
        final(state).wf(),
        r is Fail ==> final(state)@ == old(state)@,
        r is Succ ==> old(state)@.wrote(final(state)@) && final(state)@.cursor() > old(
            state,
        )@.cursor(),
        forall|fl: FloatReader| #[trigger]
            reads_buffer(floats, fl, old(state)@.input) ==> builds_stmt(
                old(state)@,
                final(state)@,
                r,
                assign_tree(old(state)@.input, fl, old(state)@.cursor()),
            ),
{
    let ghost pre = state@;
    let ghost pos = state@.cursor();
    proof {
        state.lemma_wf();
    }
    let save = state.save();
    if !state.is_kind(TkKind::Ident) {
        return ParserRes::Fail(state.mismatch(Some(TkKind::Ident)));
    }
    let name = state.input().get_token_txt(state.cursor());
    state.stack_node(NodeKind::LAssign);
    if !state.is_kind(TkKind::Equals) {
        let e = state.mismatch(Some(TkKind::Equals));
        proof {
            lemma_restore_extended(pre, state@);
        }
        state.restore(save);
        return ParserRes::Fail(e);
    }
    let ghost named = state@;
    state.push_node(NodeKind::Assign);
    let ghost inside = state@;
    proof {
        lemma_extended_trans(pre, named, inside);
    }
    match expr(state, floats) {
        ParserRes::Fail(e) => {
            proof {
                lemma_restore_extended(pre, inside);
            }
            state.restore(save);
            ParserRes::Fail(e)
        },
        ParserRes::Succ(tree) => {
            let ghost after = state@;
            proof {
                state.lemma_wf();
            }
            state.pop_node();
            proof {
                assert(state@.stack =~= pre.stack);
                assert(state@.out =~= after.out + seq![(NodeKind::LAssign, pos as usize, true)]);
                assert(pre.out.is_prefix_of(state@.out));
                assert forall|fl: FloatReader| #[trigger]
                    reads_buffer(floats, fl, pre.input) implies state@.out == pre.out + (seq![
                    (NodeKind::Assign, (pos + 1) as usize, true),
                ] + expr_tree(pre.input, fl, pos + 2)->Ok_0.1 + seq![
                    (NodeKind::LAssign, pos as usize, true),
                ]) by {
                    let nodes = expr_tree(pre.input, fl, pos + 2)->Ok_0.1;
                    assert(state@.out =~= pre.out + (seq![(NodeKind::Assign, (pos + 1) as usize, true)]
                        + nodes + seq![(NodeKind::LAssign, pos as usize, true)]));
                }
            }
            ParserRes::Succ(Stmt::assign(name, tree))
        },
    }
}

/// `assign | expr | ident`: a statement.
pub fn stmt_parser<G: Fn(&str) -> Option<u64>>(state: &mut ParserState, floats: &G) -> (r:
    ParserRes<Stmt>)
    requires
        old(state).wf(),
        accepts_text(floats),
    ensures
        final(state).wf(),
        r is Fail ==> final(state)@ == old(state)@,
        r is Succ ==> old(state)@.wrote(final(state)@) && final(state)@.cursor() > old(
            state,
        )@.cursor(),
        forall|fl: FloatReader| #[trigger]
            reads_buffer(floats, fl, old(state)@.input) ==> builds_stmt(
                old(state)@,
                final(state)@,
                r,
                stmt_tree(old(state)@.input, fl, old(state)@.cursor()),
            ),
{
    let ghost pos = state@.cursor();
    proof {
        state.lemma_wf();
    }
    let e1 = match assign_parser(state, floats) {
        ParserRes::Succ(stmt) => {
            return ParserRes::Succ(stmt);
        },
        ParserRes::Fail(e) => e,
    };
    let e2 = match expr(state, floats) {
        ParserRes::Succ(tree) => {
            return ParserRes::Succ(Stmt::Expr(tree));
        },
        ParserRes::Fail(e) => e,
    };
    if !state.is_kind(TkKind::Ident) {
        let e3 = state.mismatch(Some(TkKind::Ident));
        return ParserRes::Fail(e1.furthest(e2.furthest(e3)));
    }
    let name = state.input().get_token_txt(state.cursor());
    state.push_node(NodeKind::IdentValue);
    proof {
        assert(state@.out =~= old(state)@.out + seq![(NodeKind::IdentValue, pos as usize, true)]);
    }
    ParserRes::Succ(Stmt::Expr(Expr::ident(name)))
}

/// What parsing a whole buffer as one statement gives: the statement,
/// where it takes every token; else the reason why not.
pub open spec fn whole_stmt(buf: LexedModel, floats: FloatReader) -> Result<StmtModel, ParseError> {
    match stmt_tree(buf, floats, 0) {
        Ok((tree, _, end)) => if end == buf.kinds.len() {
            Ok(tree)
        } else {
            Err(ParseError::ExpectedEOI { at: end as usize })
        },
        Err(e) => Err(e),
    }
}

/// Parses the tokens of `input` as one statement, which must take them
/// all.
pub fn parse_stmt<G: Fn(&str) -> Option<u64>>(input: LexedBuffer, floats: &G) -> (r: Result<
    Stmt,
    ParseError,
>)
    requires
        input@.wf(),
        accepts_text(floats),
    ensures
        forall|fl: FloatReader| #[trigger]
            reads_buffer(floats, fl, input@) ==> match whole_stmt(input@, fl) {
                Ok(tree) => r matches Ok(s) && s@ == tree,
                Err(err) => r matches Err(x) && x == err,
            },
{
    let mut state = ParserState::new(input);
    match stmt_parser(&mut state, floats) {
        ParserRes::Fail(e) => Err(e),
        ParserRes::Succ(stmt) => {
            proof {
                state.lemma_wf();
            }
            let at = state.cursor();
            if at == state.input().nb_tokens() {
                Ok(stmt)
            } else {
                Err(ParseError::ExpectedEOI { at })
            }
        },
    }
}

} // verus!
