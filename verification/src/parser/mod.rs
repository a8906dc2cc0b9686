//! Backtracking parsers over a token buffer.
//!
//! A parser is tried on a parser state. Where it matches, it may add nodes
//! to the output stream and to the shift stack of the state; where it does
//! not, it leaves the state as it found it, whatever it tried on the way.
//! A token is consumed by the node that records it: looking at the kind of
//! the next token consumes nothing, and `push_node` and `stack_node` move
//! past the token at which they record their node, whatever its kind. What
//! is written with no token of its own, as the application of a function
//! is, is recorded by `note_node`, which leaves the cursor where it is. So
//! the cursor always stands after as many tokens as the nodes of the state
//! took with them, and going back to a snapshot of the nodes goes back in
//! the tokens too.
//!
//! `combinator` holds the parsers that are made of other parsers, `grammar`
//! the rules that write the flat parse tree of the function layer, `expr`
//! and `value` the rules that build the syntax tree of expressions.
pub mod combinator;
pub mod expr;
pub mod grammar;
pub mod parsetree;
pub mod state;
pub mod value;

use vstd::prelude::*;
use crate::lexer::token::TkKind;
use crate::lexer::TkHandle;
use crate::utils::{decimal, nat_text};
use crate::parser::state::{ParserState, StateModel};

verus! {

/// Why a parser did not match.
#[derive(Debug, Clone, Copy, PartialEq, Eq, Structural)]
pub enum ParseError {
    /// The token `at`, of kind `found`, is not what the rule asks for;
    /// `expected` is the kind asked for, where the rule asks for one kind.
    UnexpectedToken { found: TkKind, expected: Option<TkKind>, at: TkHandle },
    /// The rule asks for a token and none is left.
    UnexpectedEOI,
    /// Tokens are left where the input should end.
    ExpectedEOI { at: TkHandle },
    /// The number literal `at` has no value: it is too large, or it is not
    /// written as a number is.
    InvalidLiteral { at: TkHandle },
}

impl ParseError {
    /// How far into the tokens the parser was when it gave up; the end of
    /// the input is further than any token.
    pub open spec fn reach(self) -> nat {
        match self {
            ParseError::UnexpectedToken { at, .. } => at as nat,
            ParseError::ExpectedEOI { at } => at as nat,
            ParseError::InvalidLiteral { at } => at as nat,
            ParseError::UnexpectedEOI => usize::MAX as nat,
        }
    }

    /// The reason that a choice gives when none of its alternatives
    /// matches: the one that got furthest, and the earlier one on a tie.
    pub open spec fn further(self, later: ParseError) -> ParseError {
        if later.reach() > self.reach() {
            later
        } else {
            self
        }
    }

    /// How a reason not to match is shown.
    pub open spec fn shown(self) -> Seq<char> {
        match self {
            ParseError::UnexpectedToken { found, expected, at } => "Unexpected "@ + found.shown()
                + " at token "@ + decimal(at as nat) + match expected {
                Some(kind) => ", expected "@ + kind.shown(),
                None => Seq::empty(),
            },
            ParseError::UnexpectedEOI => "Unexpected end of input"@,
            ParseError::ExpectedEOI { at } => "Expected the end of the input at token "@ + decimal(
                at as nat,
            ),
            ParseError::InvalidLiteral { at } => "Invalid number literal at token "@ + decimal(
                at as nat,
            ),
        }
    }

    /// Shows the reason as a sentence.
    pub fn to_text(&self) -> (r: String)
        ensures
            r@ == self.shown(),
    {
        match self {
            ParseError::UnexpectedToken { found, expected, at } => {
                let head = "Unexpected ".to_owned().concat(found.to_text().as_str()).concat(
                    " at token ",
                ).concat(nat_text(*at as u64).as_str());
                match expected {
                    Some(kind) => head.concat(", expected ").concat(kind.to_text().as_str()),
                    None => {
                        proof {
                            assert(head@ + Seq::<char>::empty() =~= head@);
                        }
                        head
                    },
                }
            },
            ParseError::UnexpectedEOI => "Unexpected end of input".to_owned(),
            ParseError::ExpectedEOI { at } => "Expected the end of the input at token ".to_owned().concat(
                nat_text(*at as u64).as_str(),
            ),
            ParseError::InvalidLiteral { at } => "Invalid number literal at token ".to_owned().concat(
                nat_text(*at as u64).as_str(),
            ),
        }
    }

    /// How far into the tokens the parser was when it gave up.
    pub fn position(&self) -> (r: usize)
        ensures
            r == self.reach(),
    {
        match self {
            ParseError::UnexpectedToken { at, .. } => *at,
            ParseError::ExpectedEOI { at } => *at,
            ParseError::InvalidLiteral { at } => *at,
            ParseError::UnexpectedEOI => usize::MAX,
        }
    }

    /// Of two reasons, the one that got furthest; `self` on a tie.
    pub fn furthest(self, later: ParseError) -> (r: ParseError)
        ensures
            r == self.further(later),
    {
        if later.position() > self.position() {
            later
        } else {
            self
        }
    }
}

/// The outcome of an ordered choice between two outcomes: the first where
/// it is a match, else the second where it is one, else the reason that
/// got furthest.
pub open spec fn first_of<T>(first: Result<T, ParseError>, second: Result<T, ParseError>) -> Result<
    T,
    ParseError,
> {
    match first {
        Ok(r) => Ok(r),
        Err(e1) => match second {
            Ok(r) => Ok(r),
            Err(e2) => Err(e1.further(e2)),
        },
    }
}

/// What a parser reports: success with its payload, or the reason why it
/// did not match.
#[derive(Debug)]
pub enum ParserRes<O> {
    Succ(O),
    Fail(ParseError),
}

/// A parser: something that can be tried on a parser state. A parser that
/// matches may add to the output stream and to the shift stack, and hands
/// out a payload; one that does not match leaves the state as it found it.
pub trait Parser {
    /// The payload of a match.
    type Output;

    /// What the parser needs of itself to be run.
    spec fn inv(&self) -> bool;

    /// The state that the parser leaves when it matches on `pre`, or the
    /// reason why it does not match.
    spec fn run(&self, pre: StateModel) -> Result<StateModel, ParseError>;

    /// Whether `out` may be the payload of the match on `pre`.
    spec fn yields(&self, pre: StateModel, out: Self::Output) -> bool;

    fn parse(&self, state: &mut ParserState) -> (r: ParserRes<Self::Output>)
        requires
            self.inv(),
            old(state).wf(),
        ensures
            final(state).wf(),
            match r {
                ParserRes::Succ(out) => self.run(old(state)@) == Ok::<StateModel, ParseError>(
                    final(state)@,
                ) && self.yields(old(state)@, out) && old(state)@.extended_by(final(state)@),
                ParserRes::Fail(e) => self.run(old(state)@) == Err::<StateModel, ParseError>(e)
                    && final(state)@ == old(state)@,
            },
    ;
}

} // verus!
