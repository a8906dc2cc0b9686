//! The rules of the function layer of the grammar, which write the flat
//! parse tree:
//!
//! ```text
//! assign      ::= ident '=' expr
//! expr        ::= fn_app | function | '(' expr ')' | ident
//! fn_app      ::= fn_app_left expr
//! fn_app_left ::= '(' function ')' | ident
//! function    ::= ident ':' expr
//! ```
//!
//! Choices are ordered: the first alternative that matches wins, so the
//! alternatives that ask for more stand first. A rule that does not match
//! leaves the state as it found it; where no alternative of a choice
//! matches, the reason given is that of the alternative that got furthest.
use vstd::prelude::*;
use crate::lexer::token::TkKind;
use crate::parser::combinator::lemma_restore_extended;
use crate::parser::parsetree::NodeKind;
use crate::parser::state::{Node, ParserState, StateModel};
use crate::parser::{first_of, ParseError, Parser, ParserRes};

verus! {

/// The rules that can be asked for by name.
#[derive(Debug, Clone, Copy, PartialEq, Eq, Structural)]
pub enum Rule {
    Assign,
    Expr,
    FnApp,
    FnAppLeft,
    Function,
}

/// The kind of the token `pos`, if there is one.
pub open spec fn kind_at(kinds: Seq<TkKind>, pos: nat) -> Option<TkKind> {
    if pos < kinds.len() {
        Some(kinds[pos as int])
    } else {
        None
    }
}

/// The reason not to match at `pos` where `expected` is asked for.
pub open spec fn mismatch_at(kinds: Seq<TkKind>, pos: nat, expected: Option<TkKind>) -> ParseError {
    match kind_at(kinds, pos) {
        Some(found) => ParseError::UnexpectedToken { found, expected, at: pos as usize },
        None => ParseError::UnexpectedEOI,
    }
}

/// What a rule that matches writes: the nodes that it adds to the output
/// stream, and the handle of the token after the last one it consumed.
pub type Emitted = (Seq<Node>, nat);

/// One token of kind `tk`, written as a node of kind `node`.
pub open spec fn basic_nodes(kinds: Seq<TkKind>, pos: nat, tk: TkKind, node: NodeKind) -> Result<
    Emitted,
    ParseError,
> {
    if kind_at(kinds, pos) == Some(tk) {
        Ok((seq![(node, pos as usize, true)], pos + 1))
    } else {
        Err(mismatch_at(kinds, pos, Some(tk)))
    }
}

/// `ident ':' expr`: the parameter, then the body, then the colon.
pub open spec fn function_nodes(kinds: Seq<TkKind>, pos: nat) -> Result<Emitted, ParseError>
    decreases kinds.len() - pos, 1int,
{
    if kind_at(kinds, pos) != Some(TkKind::Ident) {
        Err(mismatch_at(kinds, pos, Some(TkKind::Ident)))
    } else if kind_at(kinds, pos + 1) != Some(TkKind::Colon) {
        Err(mismatch_at(kinds, pos + 1, Some(TkKind::Colon)))
    } else {
        match expr_nodes(kinds, pos + 2) {
            Err(e) => Err(e),
            Ok((body, end)) => Ok(
                (
                    seq![(NodeKind::FnArg, pos as usize, true)] + body + seq![
                        (NodeKind::FnDecl, (pos + 1) as usize, true),
                    ],
                    end,
                ),
            ),
        }
    }
}

/// `'(' inner ')'`: what stands between the parentheses, then the closing
/// and the opening parenthesis.
pub open spec fn atom_nodes(kinds: Seq<TkKind>, pos: nat, inner: Rule) -> Result<
    Emitted,
    ParseError,
>
    decreases kinds.len() - pos, 1int,
{
    if kind_at(kinds, pos) != Some(TkKind::Lpar) {
        Err(mismatch_at(kinds, pos, Some(TkKind::Lpar)))
    } else {
        match rule_nodes(kinds, pos + 1, inner) {
            Err(e) => Err(e),
            Ok((body, mid)) => if kind_at(kinds, mid) != Some(TkKind::Rpar) {
                Err(mismatch_at(kinds, mid, Some(TkKind::Rpar)))
            } else {
                Ok(
                    (
                        body + seq![
                            (NodeKind::AtomEnd, mid as usize, true),
                            (NodeKind::AtomBegin, pos as usize, true),
                        ],
                        mid + 1,
                    ),
                )
            },
        }
    }
}

/// `'(' function ')' | ident`: what may stand in the place of the function
/// in an application.
pub open spec fn fn_app_left_nodes(kinds: Seq<TkKind>, pos: nat) -> Result<Emitted, ParseError>
    decreases kinds.len() - pos, 2int,
{
    first_of(
        atom_nodes(kinds, pos, Rule::Function),
        basic_nodes(kinds, pos, TkKind::Ident, NodeKind::IdentValue),
    )
}

/// `fn_app_left expr`: the function, then the argument, then the node of the
/// application. The application is written with no token of its own: its
/// node is recorded at the first token of the argument and takes no token.
pub open spec fn fn_app_nodes(kinds: Seq<TkKind>, pos: nat) -> Result<Emitted, ParseError>
    decreases kinds.len() - pos, 3int,
{
    match fn_app_left_nodes(kinds, pos) {
        Err(e) => Err(e),
        Ok((left, mid)) => if kind_at(kinds, mid) is None || mid <= pos {
            // The second test keeps the definition well founded; it never
            // holds, since what matched took at least one token.
            Err(ParseError::UnexpectedEOI)
        } else {
            match expr_nodes(kinds, mid) {
                Err(e) => Err(e),
                Ok((arg, end)) => Ok((left + arg + seq![(NodeKind::FnApp, mid as usize, false)], end)),
            }
        },
    }
}

/// `fn_app | function | '(' expr ')' | ident`.
pub open spec fn expr_nodes(kinds: Seq<TkKind>, pos: nat) -> Result<Emitted, ParseError>
    decreases kinds.len() - pos, 4int,
{
    first_of(
        fn_app_nodes(kinds, pos),
        first_of(
            function_nodes(kinds, pos),
            first_of(
                atom_nodes(kinds, pos, Rule::Expr),
                basic_nodes(kinds, pos, TkKind::Ident, NodeKind::IdentValue),
            ),
        ),
    )
}

/// `ident '=' expr`: the equals sign, then the value, then the name.
pub open spec fn assign_nodes(kinds: Seq<TkKind>, pos: nat) -> Result<Emitted, ParseError>
    decreases kinds.len() - pos, 5int,
{
    if kind_at(kinds, pos) != Some(TkKind::Ident) {
        Err(mismatch_at(kinds, pos, Some(TkKind::Ident)))
    } else if kind_at(kinds, pos + 1) != Some(TkKind::Equals) {
        Err(mismatch_at(kinds, pos + 1, Some(TkKind::Equals)))
    } else {
        match expr_nodes(kinds, pos + 2) {
            Err(e) => Err(e),
            Ok((value, end)) => Ok(
                (
                    seq![(NodeKind::Assign, (pos + 1) as usize, true)] + value + seq![
                        (NodeKind::LAssign, pos as usize, true),
                    ],
                    end,
                ),
            ),
        }
    }
}

/// What the rule `rule` writes at `pos`.
pub open spec fn rule_nodes(kinds: Seq<TkKind>, pos: nat, rule: Rule) -> Result<Emitted, ParseError>
    decreases kinds.len() - pos, 6int,
{
    match rule {
        Rule::Assign => assign_nodes(kinds, pos),
        Rule::Expr => expr_nodes(kinds, pos),
        Rule::FnApp => fn_app_nodes(kinds, pos),
        Rule::FnAppLeft => fn_app_left_nodes(kinds, pos),
        Rule::Function => function_nodes(kinds, pos),
    }
}

/// Whether a rule that matches at `pos` ends after `pos` and inside the
/// tokens.
pub open spec fn consumes(kinds: Seq<TkKind>, pos: nat, r: Result<Emitted, ParseError>) -> bool {
    r matches Ok((_, end)) ==> pos < end <= kinds.len()
}

/// A function declaration that matches takes at least one token.
pub proof fn lemma_function_consumes(kinds: Seq<TkKind>, pos: nat)
    ensures
        consumes(kinds, pos, function_nodes(kinds, pos)),
    decreases kinds.len() - pos, 1int,
{
    if kind_at(kinds, pos) == Some(TkKind::Ident) && kind_at(kinds, pos + 1) == Some(
        TkKind::Colon,
    ) {
        lemma_expr_consumes(kinds, pos + 2);
    }
}

/// An atom that matches takes at least one token.
pub proof fn lemma_atom_consumes(kinds: Seq<TkKind>, pos: nat, inner: Rule)
    ensures
        consumes(kinds, pos, atom_nodes(kinds, pos, inner)),
    decreases kinds.len() - pos, 1int,
{
    if kind_at(kinds, pos) == Some(TkKind::Lpar) {
        lemma_rule_consumes(kinds, pos + 1, inner);
    }
}

/// What stands in the place of the function in an application takes at
/// least one token.
pub proof fn lemma_fn_app_left_consumes(kinds: Seq<TkKind>, pos: nat)
    ensures
        consumes(kinds, pos, fn_app_left_nodes(kinds, pos)),
    decreases kinds.len() - pos, 2int,
{
    lemma_atom_consumes(kinds, pos, Rule::Function);
}

/// An application that matches takes at least one token.
pub proof fn lemma_fn_app_consumes(kinds: Seq<TkKind>, pos: nat)
    ensures
        consumes(kinds, pos, fn_app_nodes(kinds, pos)),
    decreases kinds.len() - pos, 3int,
{
    lemma_fn_app_left_consumes(kinds, pos);
    match fn_app_left_nodes(kinds, pos) {
        Ok((_, mid)) => {
            if kind_at(kinds, mid) is Some && mid > pos {
                lemma_expr_consumes(kinds, mid);
            }
        },
        Err(_) => {},
    }
}

/// An expression that matches takes at least one token.
pub proof fn lemma_expr_consumes(kinds: Seq<TkKind>, pos: nat)
    ensures
        consumes(kinds, pos, expr_nodes(kinds, pos)),
    decreases kinds.len() - pos, 4int,
{
    lemma_fn_app_consumes(kinds, pos);
    lemma_function_consumes(kinds, pos);
    lemma_atom_consumes(kinds, pos, Rule::Expr);
}

/// An assignment that matches takes at least one token.
pub proof fn lemma_assign_consumes(kinds: Seq<TkKind>, pos: nat)
    ensures
        consumes(kinds, pos, assign_nodes(kinds, pos)),
    decreases kinds.len() - pos, 5int,
{
    if kind_at(kinds, pos) == Some(TkKind::Ident) && kind_at(kinds, pos + 1) == Some(
        TkKind::Equals,
    ) {
        lemma_expr_consumes(kinds, pos + 2);
    }
}

/// Every rule that matches takes at least one token and ends inside the
/// tokens: the test on the end of the function in an application always
/// passes.
pub proof fn lemma_rule_consumes(kinds: Seq<TkKind>, pos: nat, rule: Rule)
    ensures
        consumes(kinds, pos, rule_nodes(kinds, pos, rule)),
    decreases kinds.len() - pos, 6int,
{
    match rule {
        Rule::Assign => lemma_assign_consumes(kinds, pos),
        Rule::Expr => lemma_expr_consumes(kinds, pos),
        Rule::FnApp => lemma_fn_app_consumes(kinds, pos),
        Rule::FnAppLeft => lemma_fn_app_left_consumes(kinds, pos),
        Rule::Function => lemma_function_consumes(kinds, pos),
    }
}

/// The state that a rule leaves: the nodes that it writes are added to the
/// output stream, and the shift stack and the errors are as they were.
pub open spec fn written(pre: StateModel, expected: Result<Emitted, ParseError>) -> Result<
    StateModel,
    ParseError,
> {
    match expected {
        Ok((nodes, end)) => Ok(StateModel { out: pre.out + nodes, ..pre }),
        Err(e) => Err(e),
    }
}

/// Whether a rule, run on `pre`, did what `expected` says: it matched, left
/// `post` and stands at the token that `expected` names, or it did not
/// match, for the reason that `expected` gives, and left the state as it
/// was.
pub open spec fn emits(
    pre: StateModel,
    post: StateModel,
    r: ParserRes<()>,
    expected: Result<Emitted, ParseError>,
) -> bool {
    match expected {
        Ok((nodes, end)) => r is Succ && written(pre, expected) == Ok::<StateModel, ParseError>(
            post,
        ) && post.cursor() == end && pre.extended_by(post),
        Err(e) => r == ParserRes::<()>::Fail(e) && post == pre,
    }
}

/// The most basic parser: matches where the next token is of kind `kind`.
/// It consumes nothing; a token is consumed by the node that records it.
pub fn token(state: &mut ParserState, kind: TkKind) -> (r: ParserRes<()>)
    requires
        old(state).wf(),
    ensures
        final(state).wf(),
        final(state)@ == old(state)@,
        r == if old(state)@.current() == Some(kind) {
            ParserRes::<()>::Succ(())
        } else {
            ParserRes::<()>::Fail(old(state)@.mismatch(Some(kind)))
        },
{
    if state.is_kind(kind) {
        ParserRes::Succ(())
    } else {
        ParserRes::Fail(state.mismatch(Some(kind)))
    }
}

/// Matches one token of kind `tk` and writes it as a node of kind `node`.
pub fn basic(state: &mut ParserState, tk: TkKind, node: NodeKind) -> (r: ParserRes<()>)
    requires
        old(state).wf(),
    ensures
        final(state).wf(),
        emits(
            old(state)@,
            final(state)@,
            r,
            basic_nodes(old(state)@.input.kinds, old(state)@.cursor(), tk, node),
        ),
{
    if state.is_kind(tk) {
        state.push_node(node);
        proof {
            assert(state@.out =~= old(state)@.out + seq![(node, old(state)@.cursor() as usize, true)]);
        }
        ParserRes::Succ(())
    } else {
        ParserRes::Fail(state.mismatch(Some(tk)))
    }
}

/// `ident ':' expr`.
pub fn function(state: &mut ParserState) -> (r: ParserRes<()>)
    requires
        old(state).wf(),
    ensures
        final(state).wf(),
        emits(
            old(state)@,
            final(state)@,
            r,
            function_nodes(old(state)@.input.kinds, old(state)@.cursor()),
        ),
    decreases old(state)@.remaining(), 1int,
{
    let ghost pre = state@;
    let ghost pos = state@.cursor();
    let save = state.save();
    if !state.is_kind(TkKind::Ident) {
        return ParserRes::Fail(state.mismatch(Some(TkKind::Ident)));
    }
    state.push_node(NodeKind::FnArg);
    if !state.is_kind(TkKind::Colon) {
        let e = state.mismatch(Some(TkKind::Colon));
        proof {
            lemma_restore_extended(pre, state@);
        }
        state.restore(save);
        return ParserRes::Fail(e);
    }
    state.stack_node(NodeKind::FnDecl);
    let ghost mid = state@;
    match expr(state) {
        ParserRes::Fail(e) => {
            proof {
                lemma_restore_extended(pre, mid);
            }
            state.restore(save);
            ParserRes::Fail(e)
        },
        ParserRes::Succ(_) => {
            let ghost body = expr_nodes(pre.input.kinds, pos + 2)->Ok_0.0;
            state.pop_node();
            proof {
                assert(state@.stack =~= pre.stack);
                assert(state@.out =~= pre.out + (seq![(NodeKind::FnArg, pos as usize, true)] + body
                    + seq![(NodeKind::FnDecl, (pos + 1) as usize, true)]));
            }
            ParserRes::Succ(())
        },
    }
}

/// `'(' inner ')'`.
pub fn atom(state: &mut ParserState, inner: Rule) -> (r: ParserRes<()>)
    requires
        old(state).wf(),
    ensures
        final(state).wf(),
        emits(
            old(state)@,
            final(state)@,
            r,
            atom_nodes(old(state)@.input.kinds, old(state)@.cursor(), inner),
        ),
    decreases old(state)@.remaining(), 1int,
{
    let ghost pre = state@;
    let ghost pos = state@.cursor();
    let save = state.save();
    if !state.is_kind(TkKind::Lpar) {
        return ParserRes::Fail(state.mismatch(Some(TkKind::Lpar)));
    }
    state.stack_node(NodeKind::AtomBegin);
    let ghost inside = state@;
    match rule(state, inner) {
        ParserRes::Fail(e) => {
            proof {
                lemma_restore_extended(pre, inside);
            }
            state.restore(save);
            ParserRes::Fail(e)
        },
        ParserRes::Succ(_) => {
            let ghost body = rule_nodes(pre.input.kinds, pos + 1, inner)->Ok_0.0;
            let ghost mid = state@.cursor();
            if !state.is_kind(TkKind::Rpar) {
                let e = state.mismatch(Some(TkKind::Rpar));
                proof {
                    lemma_restore_extended(pre, state@);
                }
                state.restore(save);
                return ParserRes::Fail(e);
            }
            state.stack_node(NodeKind::AtomEnd);
            state.pop_node();
            state.pop_node();
            proof {
                assert(state@.stack =~= pre.stack);
                assert(state@.out =~= pre.out + (body + seq![
                    (NodeKind::AtomEnd, mid as usize, true),
                    (NodeKind::AtomBegin, pos as usize, true),
                ]));
            }
            ParserRes::Succ(())
        },
    }
}

/// `'(' function ')' | ident`.
pub fn fn_app_left(state: &mut ParserState) -> (r: ParserRes<()>)
    requires
        old(state).wf(),
    ensures
        final(state).wf(),
        emits(
            old(state)@,
            final(state)@,
            r,
            fn_app_left_nodes(old(state)@.input.kinds, old(state)@.cursor()),
        ),
    decreases old(state)@.remaining(), 2int,
{
    match atom(state, Rule::Function) {
        ParserRes::Succ(_) => ParserRes::Succ(()),
        ParserRes::Fail(e1) => match basic(state, TkKind::Ident, NodeKind::IdentValue) {
            ParserRes::Succ(_) => ParserRes::Succ(()),
            ParserRes::Fail(e2) => ParserRes::Fail(e1.furthest(e2)),
        },
    }
}

/// `fn_app_left expr`: a function applied to the expression that follows
/// it.
pub fn fn_app(state: &mut ParserState) -> (r: ParserRes<()>)
    requires
        old(state).wf(),
    ensures
        final(state).wf(),
        emits(
            old(state)@,
            final(state)@,
            r,
            fn_app_nodes(old(state)@.input.kinds, old(state)@.cursor()),
        ),
    decreases old(state)@.remaining(), 3int,
{
    let ghost pre = state@;
    let ghost pos = state@.cursor();
    proof {
        state.lemma_wf();
    }
    let save = state.save();
    let mark = state.cursor();
    match fn_app_left(state) {
        ParserRes::Fail(e) => ParserRes::Fail(e),
        ParserRes::Succ(_) => {
            let ghost left = fn_app_left_nodes(pre.input.kinds, pos)->Ok_0.0;
            let ghost mid = state@.cursor();
            proof {
                state.lemma_wf();
            }
            if state.current_kind().is_none() || state.cursor() <= mark {
                proof {
                    lemma_restore_extended(pre, state@);
                }
                state.restore(save);
                return ParserRes::Fail(ParseError::UnexpectedEOI);
            }
            state.note_node(NodeKind::FnApp);
            let ghost before_arg = state@;
            match expr(state) {
                ParserRes::Fail(e) => {
                    proof {
                        lemma_restore_extended(pre, before_arg);
                    }
                    state.restore(save);
                    ParserRes::Fail(e)
                },
                ParserRes::Succ(_) => {
                    let ghost arg = expr_nodes(pre.input.kinds, mid)->Ok_0.0;
                    state.pop_node();
                    proof {
                        assert(state@.stack =~= pre.stack);
                        assert(state@.out =~= pre.out + (left + arg + seq![
                            (NodeKind::FnApp, mid as usize, false),
                        ]));
                    }
                    ParserRes::Succ(())
                },
            }
        },
    }
}

/// `fn_app | function | '(' expr ')' | ident`.
pub fn expr(state: &mut ParserState) -> (r: ParserRes<()>)
    requires
        old(state).wf(),
    ensures
        final(state).wf(),
        emits(
            old(state)@,
            final(state)@,
            r,
            expr_nodes(old(state)@.input.kinds, old(state)@.cursor()),
        ),
    decreases old(state)@.remaining(), 4int,
{
    let e1 = match fn_app(state) {
        ParserRes::Succ(_) => {
            return ParserRes::Succ(());
        },
        ParserRes::Fail(e) => e,
    };
    let e2 = match function(state) {
        ParserRes::Succ(_) => {
            return ParserRes::Succ(());
        },
        ParserRes::Fail(e) => e,
    };
    let e3 = match atom(state, Rule::Expr) {
        ParserRes::Succ(_) => {
            return ParserRes::Succ(());
        },
        ParserRes::Fail(e) => e,
    };
    match basic(state, TkKind::Ident, NodeKind::IdentValue) {
        ParserRes::Succ(_) => ParserRes::Succ(()),
        ParserRes::Fail(e4) => ParserRes::Fail(e1.furthest(e2.furthest(e3.furthest(e4)))),
    }
}

/// `ident '=' expr`.
pub fn assign(state: &mut ParserState) -> (r: ParserRes<()>)
    requires
        old(state).wf(),
    ensures
        final(state).wf(),
        emits(
            old(state)@,
            final(state)@,
            r,
            assign_nodes(old(state)@.input.kinds, old(state)@.cursor()),
        ),
    decreases old(state)@.remaining(), 5int,
{
    let ghost pre = state@;
    let ghost pos = state@.cursor();
    let save = state.save();
    if !state.is_kind(TkKind::Ident) {
        return ParserRes::Fail(state.mismatch(Some(TkKind::Ident)));
    }
    state.stack_node(NodeKind::LAssign);
    if !state.is_kind(TkKind::Equals) {
        let e = state.mismatch(Some(TkKind::Equals));
        proof {
            lemma_restore_extended(pre, state@);
        }
        state.restore(save);
        return ParserRes::Fail(e);
    }
    state.push_node(NodeKind::Assign);
    let ghost mid = state@;
    match expr(state) {
        ParserRes::Fail(e) => {
            proof {
                lemma_restore_extended(pre, mid);
            }
            state.restore(save);
            ParserRes::Fail(e)
        },
        ParserRes::Succ(_) => {
            let ghost value = expr_nodes(pre.input.kinds, pos + 2)->Ok_0.0;
            state.pop_node();
            proof {
                assert(state@.stack =~= pre.stack);
                assert(state@.out =~= pre.out + (seq![(NodeKind::Assign, (pos + 1) as usize, true)]
                    + value + seq![(NodeKind::LAssign, pos as usize, true)]));
            }
            ParserRes::Succ(())
        },
    }
}

/// Runs the rule `which`.
pub fn rule(state: &mut ParserState, which: Rule) -> (r: ParserRes<()>)
    requires
        old(state).wf(),
    ensures
        final(state).wf(),
        emits(
            old(state)@,
            final(state)@,
            r,
            rule_nodes(old(state)@.input.kinds, old(state)@.cursor(), which),
        ),
    decreases old(state)@.remaining(), 6int,
{
    match which {
        Rule::Assign => assign(state),
        Rule::Expr => expr(state),
        Rule::FnApp => fn_app(state),
        Rule::FnAppLeft => fn_app_left(state),
        Rule::Function => function(state),
    }
}

impl Parser for Rule {
    type Output = ();

    open spec fn inv(&self) -> bool {
        true
    }

    open spec fn run(&self, pre: StateModel) -> Result<StateModel, ParseError> {
        written(pre, rule_nodes(pre.input.kinds, pre.cursor(), *self))
    }

    open spec fn yields(&self, pre: StateModel, out: ()) -> bool {
        true
    }

    fn parse(&self, state: &mut ParserState) -> (r: ParserRes<()>) {
        rule(state, *self)
    }
}

} // verus!
