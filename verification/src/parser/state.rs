//! The state that parsers work on: a cursor over the tokens, the output
//! stream, the shift stack and the error list.
use vstd::prelude::*;
use crate::lexer::token::TkKind;
use crate::lexer::lexeme::lex_spec;
use crate::lexer::{lex, LexError, LexedBuffer, LexedModel, Reason, TkHandle};
use crate::utils::Loc;
use crate::parser::parsetree::NodeKind;
use crate::parser::{ParseError, Parser, ParserRes};

verus! {

/// What can go wrong around a parser state.
#[derive(Debug, Clone, Copy, PartialEq, Eq, Structural)]
pub enum StateError {
    /// The lexer gave up.
    LexError(LexError),
    /// A snapshot asks for more than the state holds.
    OOBReset,
    /// A token was asked for where no token is left.
    TriedToCheckNullKind,
    /// The parser did not match.
    ParseError(ParseError),
}

impl StateError {
    /// How an error is shown.
    pub open spec fn shown(self) -> Seq<char> {
        match self {
            StateError::LexError(_) => "lexer error."@,
            StateError::OOBReset => "the parser tried to reset its position farther than it was."@,
            StateError::TriedToCheckNullKind => "The parser tried to check a null token can happen if the input is empty or the parser reaches the end of a file."@,
            StateError::ParseError(e) => "Syntax Error: "@ + e.shown(),
        }
    }

    /// Shows the error as a sentence.
    pub fn to_text(&self) -> (r: String)
        ensures
            r@ == self.shown(),
    {
        match self {
            StateError::LexError(_) => "lexer error.".to_owned(),
            StateError::OOBReset => "the parser tried to reset its position farther than it was.".to_owned(),
            StateError::TriedToCheckNullKind => "The parser tried to check a null token can happen if the input is empty or the parser reaches the end of a file.".to_owned(),
            StateError::ParseError(e) => "Syntax Error: ".to_owned().concat(e.to_text().as_str()),
        }
    }
}

/// A node of the parse tree: its kind, the token at which it was recorded,
/// and whether it took that token with it. A node that took its token is
/// one that the cursor moved past when the node was recorded.
pub type Node = (NodeKind, TkHandle, bool);

/// The number of nodes of `nodes` that took a token with them.
pub open spec fn tokens_taken(nodes: Seq<Node>) -> nat
    decreases nodes.len(),
{
    if nodes.len() == 0 {
        0
    } else {
        tokens_taken(nodes.drop_last()) + if nodes.last().2 {
            1nat
        } else {
            0nat
        }
    }
}

/// The first `n` items of `s`, or all of `s` when it holds fewer.
pub open spec fn truncated<T>(s: Seq<T>, n: int) -> Seq<T> {
    if 0 <= n < s.len() {
        s.take(n)
    } else {
        s
    }
}

/// What a parser state holds.
pub struct StateModel {
    /// The tokens.
    pub input: LexedModel,
    /// The output stream.
    pub out: Seq<Node>,
    /// The shift stack, its top last.
    pub stack: Seq<Node>,
    /// The errors recorded.
    pub errors: Seq<StateError>,
}

impl StateModel {
    /// The handle of the next token: the number of tokens that the nodes of
    /// the output stream and of the shift stack took with them.
    pub open spec fn cursor(self) -> nat {
        tokens_taken(self.out) + tokens_taken(self.stack)
    }

    /// The kind of the next token, if one is left.
    pub open spec fn current(self) -> Option<TkKind> {
        if self.cursor() < self.input.kinds.len() {
            Some(self.input.kinds[self.cursor() as int])
        } else {
            None
        }
    }

    /// The number of tokens left.
    pub open spec fn remaining(self) -> nat {
        (self.input.kinds.len() - self.cursor()) as nat
    }

    /// The tokens are well formed, no more tokens were taken than there
    /// are, and every node was recorded at a token.
    pub open spec fn wf(self) -> bool {
        &&& self.input.wf()
        &&& self.cursor() <= self.input.kinds.len()
        &&& forall|i: int| 0 <= i < self.out.len() ==> (#[trigger] self.out[i]).1 < self.input.kinds.len()
        &&& forall|i: int|
            0 <= i < self.stack.len() ==> (#[trigger] self.stack[i]).1 < self.input.kinds.len()
    }

    /// Whether `post` holds everything that `self` holds, in the same
    /// places: going back from `post` to a snapshot of `self` gives `self`.
    pub open spec fn extended_by(self, post: StateModel) -> bool {
        &&& post.input == self.input
        &&& self.out.is_prefix_of(post.out)
        &&& self.stack.is_prefix_of(post.stack)
        &&& self.errors.is_prefix_of(post.errors)
        &&& self.cursor() <= post.cursor()
    }

    /// Whether `post` is `self` with more nodes at the end of its output
    /// stream and nothing else changed.
    pub open spec fn wrote(self, post: StateModel) -> bool {
        &&& post.input == self.input
        &&& post.stack == self.stack
        &&& post.errors == self.errors
        &&& self.out.is_prefix_of(post.out)
    }

    /// Whether the state holds as much as the snapshot `save` asks for.
    pub open spec fn holds(self, save: Save) -> bool {
        save.0 <= self.out.len() && save.1 <= self.stack.len() && save.2 <= self.errors.len()
    }

    /// The state with its three lists cut back to the given lengths.
    pub open spec fn restored(self, out_len: int, stack_len: int, errors_len: int) -> StateModel {
        StateModel {
            input: self.input,
            out: truncated(self.out, out_len),
            stack: truncated(self.stack, stack_len),
            errors: truncated(self.errors, errors_len),
        }
    }

    /// The state after a node of kind `kind` was added to the output stream
    /// at the next token, which it took with it.
    pub open spec fn pushed(self, kind: NodeKind) -> StateModel {
        StateModel { out: self.out.push((kind, self.cursor() as usize, true)), ..self }
    }

    /// The state after a node of kind `kind` was added to the shift stack at
    /// the next token, which it took with it.
    pub open spec fn stacked(self, kind: NodeKind) -> StateModel {
        StateModel { stack: self.stack.push((kind, self.cursor() as usize, true)), ..self }
    }

    /// The state after a node of kind `kind` was added to the shift stack at
    /// the next token, which it left where it is.
    pub open spec fn noted(self, kind: NodeKind) -> StateModel {
        StateModel { stack: self.stack.push((kind, self.cursor() as usize, false)), ..self }
    }

    /// The state after the top of the shift stack was moved to the end of
    /// the output stream.
    pub open spec fn popped(self) -> StateModel
        recommends
            self.stack.len() > 0,
    {
        StateModel { out: self.out.push(self.stack.last()), stack: self.stack.drop_last(), ..self }
    }

    /// The reason not to match that is given where a token of kind
    /// `expected` is asked for and the next token is another, or none is
    /// left.
    pub open spec fn mismatch(self, expected: Option<TkKind>) -> ParseError {
        match self.current() {
            Some(found) => ParseError::UnexpectedToken {
                found,
                expected,
                at: self.cursor() as usize,
            },
            None => ParseError::UnexpectedEOI,
        }
    }
}

/// Taking a token along adds one to the count, at the end of a sequence.
pub proof fn lemma_tokens_taken_push(nodes: Seq<Node>, node: Node)
    ensures
        tokens_taken(nodes.push(node)) == tokens_taken(nodes) + if node.2 {
            1nat
        } else {
            0nat
        },
{
    assert(nodes.push(node).drop_last() =~= nodes);
}

/// A prefix of a sequence of nodes took no more tokens than the sequence.
pub proof fn lemma_tokens_taken_prefix(a: Seq<Node>, b: Seq<Node>)
    requires
        a.is_prefix_of(b),
    ensures
        tokens_taken(a) <= tokens_taken(b),
    decreases b.len(),
{
    if a.len() < b.len() {
        assert(a.is_prefix_of(b.drop_last()));
        lemma_tokens_taken_prefix(a, b.drop_last());
    } else {
        assert(a =~= b);
    }
}

/// A state that another was written into is extended by it.
pub proof fn lemma_wrote(pre: StateModel, post: StateModel)
    requires
        pre.wrote(post),
    ensures
        pre.extended_by(post),
{
    lemma_tokens_taken_prefix(pre.out, post.out);
}

/// A snapshot of a parser state: the lengths of its output stream, of its
/// shift stack and of its error list.
#[derive(Debug, Clone, Copy)]
pub struct Save(pub usize, pub usize, pub usize);

/// The state of a parse.
#[derive(Debug)]
pub struct ParserState {
    input: LexedBuffer,
    cursor: usize,
    kinds: Vec<NodeKind>,
    tks: Vec<TkHandle>,
    taken: Vec<bool>,
    stack: Vec<(NodeKind, TkHandle, bool)>,
    errors: Vec<StateError>,
}

impl View for ParserState {
    type V = StateModel;

    closed spec fn view(&self) -> StateModel {
        StateModel {
            input: self.input@,
            out: Seq::new(
                self.kinds@.len(),
                |i: int| (self.kinds@[i], self.tks@[i], self.taken@[i]),
            ),
            stack: self.stack@,
            errors: self.errors@,
        }
    }
}

impl ParserState {
    /// The output lists have the same length, the cursor stands where the
    /// nodes say, and what the state holds is well formed.
    pub closed spec fn wf(&self) -> bool {
        &&& self.kinds@.len() == self.tks@.len()
        &&& self.kinds@.len() == self.taken@.len()
        &&& self.cursor == self@.cursor()
        &&& self@.wf()
    }

    /// What holds of every well-formed state.
    pub proof fn lemma_wf(&self)
        requires
            self.wf(),
        ensures
            self@.wf(),
            self@.cursor() <= usize::MAX,
    {
    }

    /// The state before the first token of `input`, with nothing in its
    /// lists.
    pub fn new(input: LexedBuffer) -> (r: ParserState)
        requires
            input@.wf(),
        ensures
            r.wf(),
            r@ == (StateModel {
                input: input@,
                out: Seq::empty(),
                stack: Seq::empty(),
                errors: Seq::empty(),
            }),
            r@.cursor() == 0,
    {
        let n = input.nb_tokens();
        let r = ParserState {
            input,
            cursor: 0,
            kinds: Vec::with_capacity(n),
            tks: Vec::with_capacity(n),
            taken: Vec::with_capacity(n),
            stack: Vec::new(),
            errors: Vec::new(),
        };
        assert(r@.out =~= Seq::empty());
        r
    }

    /// The tokens that the state reads.
    pub fn input(&self) -> (r: &LexedBuffer)
        ensures
            r@ == self@.input,
    {
        &self.input
    }

    /// The handle of the next token; the number of tokens when none is left.
    pub fn cursor(&self) -> (r: TkHandle)
        requires
            self.wf(),
        ensures
            r == self@.cursor(),
    {
        self.cursor
    }

    /// Takes a snapshot to come back to.
    pub fn save(&self) -> (r: Save)
        ensures
            r.0 == self@.out.len(),
            r.1 == self@.stack.len(),
            r.2 == self@.errors.len(),
    {
        Save(self.kinds.len(), self.stack.len(), self.errors.len())
    }

    /// Goes back to a snapshot: cuts the output stream, the shift stack and
    /// the error list back to the lengths that the snapshot holds. The
    /// cursor goes back with them, by one token for each node that took one.
    pub fn restore(&mut self, save: Save)
        requires
            old(self).wf(),
        ensures
            final(self).wf(),
            final(self)@ == old(self)@.restored(save.0 as int, save.1 as int, save.2 as int),
    {
        let Save(kl, sl, el) = save;
        let ghost before = self@;
        while self.kinds.len() > kl
            invariant
                self.wf(),
                self@.input == before.input,
                self@.stack == before.stack,
                self@.errors == before.errors,
                self@.out.is_prefix_of(before.out),
                self@.out.len() >= truncated(before.out, kl as int).len(),
            decreases self.kinds.len(),
        {
            let ghost prev = self@;
            let _ = self.kinds.pop();
            let _ = self.tks.pop();
            let took = self.taken.pop().unwrap();
            proof {
                assert(self@.out =~= prev.out.drop_last());
                lemma_tokens_taken_push(self@.out, prev.out.last());
                assert(self@.out.push(prev.out.last()) =~= prev.out);
            }
            if took {
                self.cursor = self.cursor - 1;
            }
        }
        while self.stack.len() > sl
            invariant
                self.wf(),
                self@.input == before.input,
                self@.out == truncated(before.out, kl as int),
                self@.errors == before.errors,
                self@.stack.is_prefix_of(before.stack),
                self@.stack.len() >= truncated(before.stack, sl as int).len(),
            decreases self.stack.len(),
        {
            let ghost prev = self@;
            let (_, _, took) = self.stack.pop().unwrap();
            proof {
                assert(self@.stack =~= prev.stack.drop_last());
                lemma_tokens_taken_push(self@.stack, prev.stack.last());
                assert(self@.stack.push(prev.stack.last()) =~= prev.stack);
            }
            if took {
                self.cursor = self.cursor - 1;
            }
        }
        while self.errors.len() > el
            invariant
                self.wf(),
                self@.input == before.input,
                self@.out == truncated(before.out, kl as int),
                self@.stack == truncated(before.stack, sl as int),
                self@.errors.is_prefix_of(before.errors),
                self@.errors.len() >= truncated(before.errors, el as int).len(),
            decreases self.errors.len(),
        {
            let _ = self.errors.pop();
        }
        proof {
            assert(self@.errors =~= truncated(before.errors, el as int));
        }
    }

    /// Whether the next token is of kind `kind`. Nothing is consumed.
    pub fn is_kind(&self, kind: TkKind) -> (r: bool)
        requires
            self.wf(),
        ensures
            r == (self@.current() == Some(kind)),
    {
        if self.cursor < self.input.nb_tokens() {
            *self.input.get_kind(self.cursor) == kind
        } else {
            false
        }
    }

    /// The kind of the next token, if one is left. Nothing is consumed.
    pub fn current_kind(&self) -> (r: Option<TkKind>)
        requires
            self.wf(),
        ensures
            r == self@.current(),
    {
        if self.cursor < self.input.nb_tokens() {
            Some(*self.input.get_kind(self.cursor))
        } else {
            None
        }
    }

    /// The reason not to match at the next token, where a token of kind
    /// `expected` is asked for, or some token that is not of one kind.
    pub fn mismatch(&self, expected: Option<TkKind>) -> (e: ParseError)
        requires
            self.wf(),
        ensures
            e == self@.mismatch(expected),
    {
        match self.current_kind() {
            Some(found) => ParseError::UnexpectedToken { found, expected, at: self.cursor },
            None => ParseError::UnexpectedEOI,
        }
    }

    /// Adds a node of kind `kind` to the output stream, at the next token,
    /// and moves past that token. A token must be left.
    pub fn push_node(&mut self, kind: NodeKind)
        requires
            old(self).wf(),
            old(self)@.current() is Some,
        ensures
            final(self).wf(),
            final(self)@ == old(self)@.pushed(kind),
            final(self)@.out.last().1 == old(self)@.cursor(),
            old(self)@.extended_by(final(self)@),
            final(self)@.cursor() == old(self)@.cursor() + 1,
    {
        proof {
            self.input.lemma_len();
            lemma_tokens_taken_push(self@.out, (kind, self.cursor, true));
        }
        self.kinds.push(kind);
        self.tks.push(self.cursor);
        self.taken.push(true);
        self.cursor = self.cursor + 1;
        proof {
            assert(self@.out =~= old(self)@.out.push((kind, old(self).cursor, true)));
        }
    }

    /// Adds a node of kind `kind` to the shift stack, at the next token, and
    /// moves past that token. A token must be left.
    pub fn stack_node(&mut self, kind: NodeKind)
        requires
            old(self).wf(),
            old(self)@.current() is Some,
        ensures
            final(self).wf(),
            final(self)@ == old(self)@.stacked(kind),
            final(self)@.stack.last().1 == old(self)@.cursor(),
            old(self)@.extended_by(final(self)@),
            final(self)@.cursor() == old(self)@.cursor() + 1,
    {
        proof {
            self.input.lemma_len();
            lemma_tokens_taken_push(self@.stack, (kind, self.cursor, true));
        }
        self.stack.push((kind, self.cursor, true));
        self.cursor = self.cursor + 1;
        proof {
            assert(self@.out =~= old(self)@.out);
        }
    }

    /// Adds a node of kind `kind` to the shift stack for something that is
    /// written with no token of its own: the node is recorded at the next
    /// token, and the cursor stays before that token. A token must be left.
    pub fn note_node(&mut self, kind: NodeKind)
        requires
            old(self).wf(),
            old(self)@.current() is Some,
        ensures
            final(self).wf(),
            final(self)@ == old(self)@.noted(kind),
            final(self)@.stack.last().1 == old(self)@.cursor(),
            old(self)@.extended_by(final(self)@),
            final(self)@.cursor() == old(self)@.cursor(),
    {
        proof {
            lemma_tokens_taken_push(self@.stack, (kind, self.cursor, false));
        }
        self.stack.push((kind, self.cursor, false));
        proof {
            assert(self@.out =~= old(self)@.out);
        }
    }

    /// Moves the top of the shift stack to the end of the output stream. The
    /// stack must hold a node.
    pub fn pop_node(&mut self)
        requires
            old(self).wf(),
            old(self)@.stack.len() > 0,
        ensures
            final(self).wf(),
            final(self)@ == old(self)@.popped(),
            final(self)@.cursor() == old(self)@.cursor(),
    {
        proof {
            lemma_tokens_taken_push(self@.stack.drop_last(), self@.stack.last());
            assert(self@.stack.drop_last().push(self@.stack.last()) =~= self@.stack);
            lemma_tokens_taken_push(self@.out, self@.stack.last());
        }
        let (k, tk, took) = self.stack.pop().unwrap();
        self.kinds.push(k);
        self.tks.push(tk);
        self.taken.push(took);
        proof {
            assert(self@.out =~= old(self)@.out.push(old(self)@.stack.last()));
            assert(self@.stack =~= old(self)@.stack.drop_last());
        }
    }

    /// The state before the first token of the text `source`, or the error
    /// of the lexer where the text cannot be read to its end.
    pub fn from_source(source: &str) -> (r: Result<ParserState, StateError>)
        ensures
            match r {
                Ok(state) => lex_spec(source@).complete && state.wf() && state@ == (StateModel {
                    input: LexedModel::of(source@, lex_spec(source@).tokens),
                    out: Seq::empty(),
                    stack: Seq::empty(),
                    errors: Seq::empty(),
                }),
                Err(e) => !lex_spec(source@).complete && e == StateError::LexError(
                    LexError {
                        loc: Loc::at(source@, source@.len() as int),
                        reason: Reason::UnexpectedEOI,
                    },
                ),
            },
    {
        match lex(source) {
            Ok(buffer) => Ok(ParserState::new(buffer)),
            Err((e, _)) => Err(StateError::LexError(e)),
        }
    }

    /// Adds a node to the output stream as `push_node` does, where a token
    /// is left; says that none is left, and does nothing, where none is.
    pub fn try_push_node(&mut self, kind: NodeKind) -> (r: Result<(), StateError>)
        requires
            old(self).wf(),
        ensures
            final(self).wf(),
            match old(self)@.current() {
                Some(_) => r is Ok && final(self)@ == old(self)@.pushed(kind),
                None => final(self)@ == old(self)@ && r == Err::<(), StateError>(
                    StateError::TriedToCheckNullKind,
                ),
            },
    {
        if self.cursor < self.input.nb_tokens() {
            self.push_node(kind);
            Ok(())
        } else {
            Err(StateError::TriedToCheckNullKind)
        }
    }

    /// Adds a node to the shift stack as `stack_node` does, where a token is
    /// left; says that none is left, and does nothing, where none is.
    pub fn try_stack_node(&mut self, kind: NodeKind) -> (r: Result<(), StateError>)
        requires
            old(self).wf(),
        ensures
            final(self).wf(),
            match old(self)@.current() {
                Some(_) => r is Ok && final(self)@ == old(self)@.stacked(kind),
                None => final(self)@ == old(self)@ && r == Err::<(), StateError>(
                    StateError::TriedToCheckNullKind,
                ),
            },
    {
        if self.cursor < self.input.nb_tokens() {
            self.stack_node(kind);
            Ok(())
        } else {
            Err(StateError::TriedToCheckNullKind)
        }
    }

    /// Goes back to a snapshot as `restore` does, where the state holds as
    /// much as the snapshot asks for; says that it does not, and does
    /// nothing, where it holds less.
    pub fn try_restore(&mut self, save: Save) -> (r: Result<(), StateError>)
        requires
            old(self).wf(),
        ensures
            final(self).wf(),
            if old(self)@.holds(save) {
                r is Ok && final(self)@ == old(self)@.restored(
                    save.0 as int,
                    save.1 as int,
                    save.2 as int,
                )
            } else {
                r == Err::<(), StateError>(StateError::OOBReset) && final(self)@ == old(self)@
            },
    {
        if save.0 <= self.kinds.len() && save.1 <= self.stack.len() && save.2 <= self.errors.len() {
            self.restore(save);
            Ok(())
        } else {
            Err(StateError::OOBReset)
        }
    }

    /// Runs `p` on the state and hands out what the parse leaves. Where `p`
    /// does not match, the output is as it was before and the reason is
    /// added to the errors.
    pub fn run_parser<P: Parser>(self, p: P) -> (r: ParsedBuffer)
        requires
            self.wf(),
            p.inv(),
        ensures
            r@ == match p.run(self@) {
                Ok(post) => ParsedModel { input: post.input, nodes: post.out, errors: post.errors },
                Err(e) => ParsedModel {
                    input: self@.input,
                    nodes: self@.out,
                    errors: self@.errors.push(StateError::ParseError(e)),
                },
            },
            r@.input == self@.input,
            r.wf(),
    {
        let mut state = self;
        let res = p.parse(&mut state);
        match res {
            ParserRes::Succ(_) => {},
            ParserRes::Fail(e) => {
                state.errors.push(StateError::ParseError(e));
            },
        }
        ParsedBuffer {
            input: state.input,
            nodes: state.kinds,
            handles: state.tks,
            taken: state.taken,
            errors: state.errors,
        }
    }

    /// Runs `p` on the state and then goes back to where the state was,
    /// whether `p` matched or not: the answer of `p` is handed out and
    /// nothing is consumed.
    pub fn run_parser_and_reset<P: Parser>(&mut self, p: P) -> (r: ParserRes<P::Output>)
        requires
            old(self).wf(),
            p.inv(),
        ensures
            final(self).wf(),
            final(self)@ == old(self)@,
            match r {
                ParserRes::Succ(out) => p.run(old(self)@) is Ok && p.yields(old(self)@, out),
                ParserRes::Fail(e) => p.run(old(self)@) == Err::<StateModel, ParseError>(e),
            },
    {
        let save = self.save();
        let res = p.parse(self);
        proof {
            let back = self@.restored(save.0 as int, save.1 as int, save.2 as int);
            assert(back.out =~= old(self)@.out);
            assert(back.stack =~= old(self)@.stack);
            assert(back.errors =~= old(self)@.errors);
        }
        self.restore(save);
        res
    }
}

/// What a parse leaves.
pub struct ParsedModel {
    /// The tokens that were read.
    pub input: LexedModel,
    /// The output stream.
    pub nodes: Seq<Node>,
    /// The errors recorded.
    pub errors: Seq<StateError>,
}

/// Output of the parsing stage: the flat parse tree with the tokens that it
/// was read from.
#[derive(Debug)]
pub struct ParsedBuffer {
    input: LexedBuffer,
    nodes: Vec<NodeKind>,
    handles: Vec<TkHandle>,
    taken: Vec<bool>,
    errors: Vec<StateError>,
}

impl View for ParsedBuffer {
    type V = ParsedModel;

    closed spec fn view(&self) -> ParsedModel {
        ParsedModel {
            input: self.input@,
            nodes: Seq::new(
                self.nodes@.len(),
                |i: int| (self.nodes@[i], self.handles@[i], self.taken@[i]),
            ),
            errors: self.errors@,
        }
    }
}

impl ParsedBuffer {
    /// The output lists have the same length.
    pub closed spec fn wf(&self) -> bool {
        self.nodes@.len() == self.handles@.len() && self.nodes@.len() == self.taken@.len()
    }

    /// The tokens that were read.
    pub fn input(&self) -> (r: &LexedBuffer)
        ensures
            r@ == self@.input,
    {
        &self.input
    }

    /// The kinds of the nodes, in the order in which they were written.
    pub fn nodes(&self) -> (r: &Vec<NodeKind>)
        ensures
            r@.len() == self@.nodes.len(),
            forall|i: int| 0 <= i < r@.len() ==> r@[i] == (#[trigger] self@.nodes[i]).0,
    {
        &self.nodes
    }

    /// The tokens at which the nodes were recorded, node by node.
    pub fn handles(&self) -> (r: &Vec<TkHandle>)
        requires
            self.wf(),
        ensures
            r@.len() == self@.nodes.len(),
            forall|i: int| 0 <= i < r@.len() ==> r@[i] == (#[trigger] self@.nodes[i]).1,
    {
        &self.handles
    }

    /// Whether each node took the token at which it was recorded, node by
    /// node.
    pub fn taken(&self) -> (r: &Vec<bool>)
        requires
            self.wf(),
        ensures
            r@.len() == self@.nodes.len(),
            forall|i: int| 0 <= i < r@.len() ==> r@[i] == (#[trigger] self@.nodes[i]).2,
    {
        &self.taken
    }

    /// The errors recorded.
    pub fn errors(&self) -> (r: &Vec<StateError>)
        ensures
            r@ == self@.errors,
    {
        &self.errors
    }
}

} // verus!
