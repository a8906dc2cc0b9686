//! The combinators: parsers made of other parsers.
use vstd::prelude::*;
use crate::lexer::token::TkKind;
use crate::parser::parsetree::NodeKind;
use crate::parser::state::{ParserState, StateModel};
use crate::parser::{first_of, ParseError, Parser, ParserRes};

verus! {

/// Going back to the snapshot of a state from one that extends it gives the
/// state again.
pub proof fn lemma_restore_extended(pre: StateModel, post: StateModel)
    requires
        pre.extended_by(post),
    ensures
        post.restored(pre.out.len() as int, pre.stack.len() as int, pre.errors.len() as int)
            == pre,
{
    let r = post.restored(pre.out.len() as int, pre.stack.len() as int, pre.errors.len() as int);
    assert(r.out =~= pre.out);
    assert(r.stack =~= pre.stack);
    assert(r.errors =~= pre.errors);
}

/// Extending a state is transitive.
pub proof fn lemma_extended_trans(a: StateModel, b: StateModel, c: StateModel)
    requires
        a.extended_by(b),
        b.extended_by(c),
    ensures
        a.extended_by(c),
{
}

/// Matches where the next token is of the given kind, without consuming it.
pub struct Token {
    pub kind: TkKind,
}

impl Parser for Token {
    type Output = ();

    open spec fn inv(&self) -> bool {
        true
    }

    open spec fn run(&self, pre: StateModel) -> Result<StateModel, ParseError> {
        if pre.current() == Some(self.kind) {
            Ok(pre)
        } else {
            Err(pre.mismatch(Some(self.kind)))
        }
    }

    open spec fn yields(&self, pre: StateModel, out: ()) -> bool {
        true
    }

    fn parse(&self, state: &mut ParserState) -> (r: ParserRes<()>) {
        match state.current_kind() {
            Some(found) => {
                if found == self.kind {
                    ParserRes::Succ(())
                } else {
                    ParserRes::Fail(
                        ParseError::UnexpectedToken {
                            found,
                            expected: Some(self.kind),
                            at: state.cursor(),
                        },
                    )
                }
            },
            None => ParserRes::Fail(ParseError::UnexpectedEOI),
        }
    }
}

/// Matches one token of kind `tk` and records it in the output stream as a
/// node of kind `node`.
pub struct Basic {
    pub tk: TkKind,
    pub node: NodeKind,
}

impl Parser for Basic {
    type Output = ();

    open spec fn inv(&self) -> bool {
        true
    }

    open spec fn run(&self, pre: StateModel) -> Result<StateModel, ParseError> {
        if pre.current() == Some(self.tk) {
            Ok(pre.pushed(self.node))
        } else {
            Err(pre.mismatch(Some(self.tk)))
        }
    }

    open spec fn yields(&self, pre: StateModel, out: ()) -> bool {
        true
    }

    fn parse(&self, state: &mut ParserState) -> (r: ParserRes<()>) {
        match state.current_kind() {
            Some(found) => {
                if found == self.tk {
                    state.push_node(self.node);
                    ParserRes::Succ(())
                } else {
                    ParserRes::Fail(
                        ParseError::UnexpectedToken {
                            found,
                            expected: Some(self.tk),
                            at: state.cursor(),
                        },
                    )
                }
            },
            None => ParserRes::Fail(ParseError::UnexpectedEOI),
        }
    }
}

/// Applies `g` to the payload of `p`.
pub struct Mapped<P, G> {
    pub p: P,
    pub g: G,
}

impl<P, G, O> Parser for Mapped<P, G> where P: Parser, G: Fn(P::Output) -> O {
    type Output = O;

    open spec fn inv(&self) -> bool {
        &&& self.p.inv()
        &&& forall|x: P::Output| call_requires(self.g, (x,))
    }

    open spec fn run(&self, pre: StateModel) -> Result<StateModel, ParseError> {
        self.p.run(pre)
    }

    open spec fn yields(&self, pre: StateModel, out: O) -> bool {
        exists|x: P::Output| self.p.yields(pre, x) && call_ensures(self.g, (x,), out)
    }

    fn parse(&self, state: &mut ParserState) -> (r: ParserRes<O>) {
        match self.p.parse(state) {
            ParserRes::Succ(x) => ParserRes::Succ((self.g)(x)),
            ParserRes::Fail(e) => ParserRes::Fail(e),
        }
    }
}

/// Ordered choice: `f`, and `s` where `f` does not match. Both start from
/// the same state. Where neither matches, the reason given is that of the
/// alternative that got furthest into the tokens.
pub struct Or<P, Q> {
    pub f: P,
    pub s: Q,
}

impl<P, Q> Parser for Or<P, Q> where P: Parser, Q: Parser<Output = P::Output> {
    type Output = P::Output;

    open spec fn inv(&self) -> bool {
        self.f.inv() && self.s.inv()
    }

    open spec fn run(&self, pre: StateModel) -> Result<StateModel, ParseError> {
        first_of(self.f.run(pre), self.s.run(pre))
    }

    open spec fn yields(&self, pre: StateModel, out: P::Output) -> bool {
        if self.f.run(pre) is Ok {
            self.f.yields(pre, out)
        } else {
            self.s.yields(pre, out)
        }
    }

    fn parse(&self, state: &mut ParserState) -> (r: ParserRes<P::Output>) {
        match self.f.parse(state) {
            ParserRes::Succ(x) => ParserRes::Succ(x),
            ParserRes::Fail(e1) => match self.s.parse(state) {
                ParserRes::Succ(x) => ParserRes::Succ(x),
                ParserRes::Fail(e2) => ParserRes::Fail(e1.furthest(e2)),
            },
        }
    }
}

/// Sequence: `f`, then `s` from where `f` stopped. Where `s` does not
/// match, what `f` did is undone.
pub struct And<P, Q> {
    pub f: P,
    pub s: Q,
}

impl<P, Q> Parser for And<P, Q> where P: Parser, Q: Parser {
    type Output = (P::Output, Q::Output);

    open spec fn inv(&self) -> bool {
        self.f.inv() && self.s.inv()
    }

    open spec fn run(&self, pre: StateModel) -> Result<StateModel, ParseError> {
        match self.f.run(pre) {
            Ok(mid) => self.s.run(mid),
            Err(e) => Err(e),
        }
    }

    open spec fn yields(&self, pre: StateModel, out: (P::Output, Q::Output)) -> bool {
        self.f.run(pre) matches Ok(mid) && self.f.yields(pre, out.0) && self.s.yields(mid, out.1)
    }

    fn parse(&self, state: &mut ParserState) -> (r: ParserRes<(P::Output, Q::Output)>) {
        let save = state.save();
        match self.f.parse(state) {
            ParserRes::Fail(e) => ParserRes::Fail(e),
            ParserRes::Succ(a) => {
                let ghost mid = state@;
                match self.s.parse(state) {
                    ParserRes::Succ(b) => ParserRes::Succ((a, b)),
                    ParserRes::Fail(e) => {
                        state.restore(save);
                        proof {
                            lemma_restore_extended(old(state)@, mid);
                        }
                        ParserRes::Fail(e)
                    },
                }
            },
        }
    }
}

/// Negative lookahead: matches, consuming nothing, where `f` does not
/// match.
pub struct Not<P> {
    pub f: P,
}

impl<P> Parser for Not<P> where P: Parser {
    type Output = ();

    open spec fn inv(&self) -> bool {
        self.f.inv()
    }

    open spec fn run(&self, pre: StateModel) -> Result<StateModel, ParseError> {
        match self.f.run(pre) {
            Ok(_) => Err(pre.mismatch(None)),
            Err(_) => Ok(pre),
        }
    }

    open spec fn yields(&self, pre: StateModel, out: ()) -> bool {
        true
    }

    fn parse(&self, state: &mut ParserState) -> (r: ParserRes<()>) {
        let save = state.save();
        match self.f.parse(state) {
            ParserRes::Succ(_) => {
                proof {
                    lemma_restore_extended(old(state)@, state@);
                }
                state.restore(save);
                match state.current_kind() {
                    Some(found) => ParserRes::Fail(
                        ParseError::UnexpectedToken { found, expected: None, at: state.cursor() },
                    ),
                    None => ParserRes::Fail(ParseError::UnexpectedEOI),
                }
            },
            ParserRes::Fail(_) => ParserRes::Succ(()),
        }
    }
}

/// Positive lookahead: matches where `f` matches, and hands out its
/// payload, but consumes nothing.
pub struct Peek<P> {
    pub f: P,
}

impl<P> Parser for Peek<P> where P: Parser {
    type Output = P::Output;

    open spec fn inv(&self) -> bool {
        self.f.inv()
    }

    open spec fn run(&self, pre: StateModel) -> Result<StateModel, ParseError> {
        match self.f.run(pre) {
            Ok(_) => Ok(pre),
            Err(e) => Err(e),
        }
    }

    open spec fn yields(&self, pre: StateModel, out: P::Output) -> bool {
        self.f.yields(pre, out)
    }

    fn parse(&self, state: &mut ParserState) -> (r: ParserRes<P::Output>) {
        let save = state.save();
        match self.f.parse(state) {
            ParserRes::Succ(x) => {
                proof {
                    lemma_restore_extended(old(state)@, state@);
                }
                state.restore(save);
                ParserRes::Succ(x)
            },
            ParserRes::Fail(e) => ParserRes::Fail(e),
        }
    }
}

/// Delimited content: `open`, then `p`, then `close`; the payload is that of
/// `p`. Where a later part does not match, what the earlier parts did is
/// undone.
pub struct Between<L, P, R> {
    pub open: L,
    pub p: P,
    pub close: R,
}

impl<L, P, R> Parser for Between<L, P, R> where L: Parser, P: Parser, R: Parser {
    type Output = P::Output;

    open spec fn inv(&self) -> bool {
        self.open.inv() && self.p.inv() && self.close.inv()
    }

    open spec fn run(&self, pre: StateModel) -> Result<StateModel, ParseError> {
        match self.open.run(pre) {
            Ok(inside) => match self.p.run(inside) {
                Ok(after) => self.close.run(after),
                Err(e) => Err(e),
            },
            Err(e) => Err(e),
        }
    }

    open spec fn yields(&self, pre: StateModel, out: P::Output) -> bool {
        self.open.run(pre) matches Ok(inside) && self.p.yields(inside, out)
    }

    fn parse(&self, state: &mut ParserState) -> (r: ParserRes<P::Output>) {
        let save = state.save();
        match self.open.parse(state) {
            ParserRes::Fail(e) => ParserRes::Fail(e),
            ParserRes::Succ(_) => {
                let ghost inside = state@;
                match self.p.parse(state) {
                    ParserRes::Fail(e) => {
                        state.restore(save);
                        proof {
                            lemma_restore_extended(old(state)@, inside);
                        }
                        ParserRes::Fail(e)
                    },
                    ParserRes::Succ(x) => {
                        let ghost after = state@;
                        match self.close.parse(state) {
                            ParserRes::Succ(_) => ParserRes::Succ(x),
                            ParserRes::Fail(e) => {
                                state.restore(save);
                                proof {
                                    lemma_restore_extended(old(state)@, after);
                                }
                                ParserRes::Fail(e)
                            },
                        }
                    },
                }
            },
        }
    }
}

/// The state that repeating `p` from `pre` leads to. The repetition ends
/// before the first attempt that does not match, and after the first match
/// that consumes no token.
pub open spec fn star_state<P: Parser>(p: &P, pre: StateModel) -> StateModel
    decreases pre.remaining(),
{
    match p.run(pre) {
        Err(_) => pre,
        Ok(post) => if post.remaining() < pre.remaining() {
            star_state(p, post)
        } else {
            post
        },
    }
}

/// Whether `outs` may be the payloads, in order, of the matches of `p`
/// repeated from `pre`.
pub open spec fn star_yields<P: Parser>(p: &P, pre: StateModel, outs: Seq<P::Output>) -> bool
    decreases pre.remaining(),
{
    match p.run(pre) {
        Err(_) => outs.len() == 0,
        Ok(post) => outs.len() > 0 && p.yields(pre, outs[0]) && if post.remaining()
            < pre.remaining() {
            star_yields(p, post, outs.drop_first())
        } else {
            outs.len() == 1
        },
    }
}

/// Repeats `p` from the state as it stands and adds the payloads to `acc`.
fn repeat<P: Parser>(p: &P, state: &mut ParserState, acc: Vec<P::Output>) -> (r: Vec<P::Output>)
    requires
        p.inv(),
        old(state).wf(),
    ensures
        final(state).wf(),
        final(state)@ == star_state(p, old(state)@),
        old(state)@.extended_by(final(state)@),
        r@.len() >= acc@.len(),
        r@.take(acc@.len() as int) == acc@,
        star_yields(p, old(state)@, r@.skip(acc@.len() as int)),
{
    let ghost pre = state@;
    let ghost n = acc@.len() as int;
    let mut outs = acc;
    proof {
        assert(outs@.take(n) =~= outs@);
        assert forall|tail: Seq<P::Output>| star_yields(p, state@, tail) implies star_yields(
            p,
            pre,
            outs@.skip(n) + tail,
        ) by {
            assert(outs@.skip(n) + tail =~= tail);
        }
    }
    loop
        invariant_except_break
            star_state(p, pre) == star_state(p, state@),
            forall|tail: Seq<P::Output>|
                star_yields(p, state@, tail) ==> star_yields(p, pre, outs@.skip(n) + tail),
        invariant
            p.inv(),
            state.wf(),
            pre.extended_by(state@),
            n == acc@.len(),
            n <= outs@.len(),
            outs@.take(n) == acc@,
        ensures
            state@ == star_state(p, pre),
            star_yields(p, pre, outs@.skip(n)),
        decreases state@.remaining(),
    {
        let ghost cur = state@;
        let ghost got = outs@;
        proof {
            state.lemma_wf();
        }
        let mark = state.cursor();
        match p.parse(state) {
            ParserRes::Fail(_) => {
                proof {
                    assert(star_yields(p, cur, Seq::empty()));
                    assert(got.skip(n) + Seq::<P::Output>::empty() =~= got.skip(n));
                }
                break ;
            },
            ParserRes::Succ(x) => {
                outs.push(x);
                proof {
                    state.lemma_wf();
                    lemma_extended_trans(pre, cur, state@);
                    assert(outs@ == got.push(x));
                    assert(outs@.take(n) =~= got.take(n));
                }
                if state.cursor() == mark {
                    proof {
                        let one = seq![x];
                        assert(star_yields(p, cur, one));
                        assert(got.skip(n) + one =~= outs@.skip(n));
                    }
                    break ;
                }
                proof {
                    let post = state@;
                    assert forall|tail: Seq<P::Output>| star_yields(p, post, tail) implies star_yields(
                        p,
                        pre,
                        outs@.skip(n) + tail,
                    ) by {
                        let more = seq![x] + tail;
                        assert(more.drop_first() =~= tail);
                        assert(star_yields(p, cur, more));
                        assert(got.skip(n) + more =~= outs@.skip(n) + tail);
                    }
                }
            },
        }
    }
    outs
}

/// Repeats `p` until it does not match; the payload holds those of the
/// matches, in order. It always matches. What the attempt that did not
/// match had done is undone, and what the matches before it did is kept.
pub struct ZeroOrMore<P> {
    pub p: P,
}

impl<P> Parser for ZeroOrMore<P> where P: Parser {
    type Output = Vec<P::Output>;

    open spec fn inv(&self) -> bool {
        self.p.inv()
    }

    open spec fn run(&self, pre: StateModel) -> Result<StateModel, ParseError> {
        Ok(star_state(&self.p, pre))
    }

    open spec fn yields(&self, pre: StateModel, out: Vec<P::Output>) -> bool {
        star_yields(&self.p, pre, out@)
    }

    fn parse(&self, state: &mut ParserState) -> (r: ParserRes<Vec<P::Output>>) {
        let outs = repeat(&self.p, state, Vec::new());
        proof {
            assert(outs@.skip(0) =~= outs@);
        }
        ParserRes::Succ(outs)
    }
}

/// Repeats `p` as `ZeroOrMore` does, but does not match where `p` does not
/// match at least once.
pub struct OneOrMore<P> {
    pub p: P,
}

impl<P> Parser for OneOrMore<P> where P: Parser {
    type Output = Vec<P::Output>;

    open spec fn inv(&self) -> bool {
        self.p.inv()
    }

    open spec fn run(&self, pre: StateModel) -> Result<StateModel, ParseError> {
        match self.p.run(pre) {
            Ok(_) => Ok(star_state(&self.p, pre)),
            Err(e) => Err(e),
        }
    }

    open spec fn yields(&self, pre: StateModel, out: Vec<P::Output>) -> bool {
        star_yields(&self.p, pre, out@)
    }

    fn parse(&self, state: &mut ParserState) -> (r: ParserRes<Vec<P::Output>>) {
        proof {
            state.lemma_wf();
        }
        let mark = state.cursor();
        match self.p.parse(state) {
            ParserRes::Fail(e) => ParserRes::Fail(e),
            ParserRes::Succ(x) => {
                let mut outs: Vec<P::Output> = Vec::new();
                outs.push(x);
                proof {
                    state.lemma_wf();
                }
                if state.cursor() == mark {
                    ParserRes::Succ(outs)
                } else {
                    let outs = repeat(&self.p, state, outs);
                    proof {
                        assert(outs@[0] == outs@.take(1)[0]);
                        assert(outs@.drop_first() =~= outs@.skip(1));
                    }
                    ParserRes::Succ(outs)
                }
            },
        }
    }
}

} // verus!
