//! Tokenizer: from source text to a buffer of token kinds and spans.
//!
//! `lex` reads a whole text; `stream::Lexer` hands out the same tokens one
//! at a time. What the tokens of a text are is stated in `lexeme`, over the
//! characters of the text.
pub mod chars;
pub mod cursor;
pub mod lexeme;
pub mod round_trip;
pub mod stream;
pub mod token;

use vstd::prelude::*;
use crate::utils::{Loc, Span};
use crate::lexer::chars::{
    bin_int_char, hexa_int_char, ident_char, line_char, number_char, sign_char, space_char,
};
use crate::lexer::chars::{is_float_mark, is_number_char};
use crate::lexer::cursor::Cursor;
use crate::lexer::lexeme::{
    comment_end, has_float_mark, is_sign, kinds_of, lemma_lexeme_at, lemma_scan_while,
    lemma_scan_while_ends, lex_from, lex_spec, lexeme_at, number_end, punctuation, scan_while,
    spans_of, string_end, CharClass, Lexeme, TokenModel,
};
use crate::lexer::token::{Kw, Lit, TkKind};

verus! {

/// The index of a token in its buffer.
pub type TkHandle = usize;

/// Why the lexer complains.
#[derive(Debug, Clone, Copy, PartialEq, Eq, Structural)]
pub enum Reason {
    /// The text ends inside a string or a block comment.
    UnexpectedEOI,
    /// The delimiter at this place has no partner.
    UnbalancedDelimiter(Loc),
    /// A character that starts no token.
    Unrecognized,
}

/// The ways of reading a text.
#[derive(Debug, Clone, Copy, PartialEq, Eq, Structural)]
pub enum LexMode {
    Default,
}

/// A lexical error and where it was found.
#[derive(Debug, Clone, Copy, PartialEq, Eq, Structural)]
pub struct LexError {
    pub loc: Loc,
    pub reason: Reason,
}

impl Reason {
    /// How a reason is shown.
    pub open spec fn shown(self) -> Seq<char> {
        match self {
            Reason::UnexpectedEOI => "Unexpected end of input."@,
            Reason::UnbalancedDelimiter(_) => "Unbalanced delims."@,
            Reason::Unrecognized => "Unrecognized character."@,
        }
    }

    /// Shows the reason as a sentence.
    pub fn to_text(&self) -> (r: String)
        ensures
            r@ == self.shown(),
    {
        match self {
            Reason::UnexpectedEOI => "Unexpected end of input.".to_owned(),
            Reason::UnbalancedDelimiter(_) => "Unbalanced delims.".to_owned(),
            Reason::Unrecognized => "Unrecognized character.".to_owned(),
        }
    }
}

impl LexError {
    /// How a lexical error is shown: where it was found, and why.
    pub open spec fn shown(self) -> Seq<char> {
        "Lexing error at: "@ + self.loc.shown() + " because "@ + self.reason.shown()
    }

    /// Shows the error by its place and its reason.
    pub fn to_text(&self) -> (r: String)
        ensures
            r@ == self.shown(),
    {
        "Lexing error at: ".to_owned().concat(self.loc.to_text().as_str()).concat(
            " because ",
        ).concat(self.reason.to_text().as_str())
    }
}

/// What a token buffer holds.
pub struct LexedModel {
    pub source: Seq<char>,
    pub kinds: Seq<TkKind>,
    pub spans: Seq<Span>,
    pub minor_errors: Seq<LexError>,
}

/// The complaints that a sequence of tokens gives rise to without stopping
/// the lexer: one for each unrecognized token, at the place where it starts.
pub open spec fn diagnostics(s: Seq<char>, tokens: Seq<TokenModel>) -> Seq<LexError>
    decreases tokens.len(),
{
    if tokens.len() == 0 {
        Seq::empty()
    } else {
        let rest = diagnostics(s, tokens.drop_last());
        if tokens.last().kind == TkKind::Unrecognized {
            rest.push(LexError { loc: Loc::at(s, tokens.last().start), reason: Reason::Unrecognized })
        } else {
            rest
        }
    }
}

impl LexedModel {
    /// The buffer that holds the tokens `tokens` of the text `s`.
    pub open spec fn of(s: Seq<char>, tokens: Seq<TokenModel>) -> LexedModel {
        LexedModel {
            source: s,
            kinds: kinds_of(tokens),
            spans: spans_of(s, tokens),
            minor_errors: diagnostics(s, tokens),
        }
    }

    /// Every token has a kind and a span, and every span lies in the source.
    pub open spec fn wf(self) -> bool {
        &&& self.kinds.len() == self.spans.len()
        &&& self.source.len() <= usize::MAX
        &&& forall|i: int|
            0 <= i < self.spans.len() ==> (#[trigger] self.spans[i]).start.pos
                <= self.spans[i].end.pos <= self.source.len()
    }

    /// The text of the token `i`.
    pub open spec fn text(self, i: int) -> Seq<char>
        recommends
            self.wf(),
            0 <= i < self.spans.len(),
    {
        self.source.subrange(self.spans[i].start.pos as int, self.spans[i].end.pos as int)
    }
}

/// Output of the lexing stage: the source text with the kind and the span of
/// each of its tokens.
#[derive(Debug)]
pub struct LexedBuffer {
    source: String,
    kinds: Vec<TkKind>,
    spans: Vec<Span>,
    minor_errors: Vec<LexError>,
}

impl View for LexedBuffer {
    type V = LexedModel;

    closed spec fn view(&self) -> LexedModel {
        LexedModel {
            source: self.source@,
            kinds: self.kinds@,
            spans: self.spans@,
            minor_errors: self.minor_errors@,
        }
    }
}

impl LexedBuffer {
    /// A buffer holds no more tokens than fit in memory.
    pub proof fn lemma_len(&self)
        ensures
            self@.kinds.len() <= usize::MAX,
            self@.spans.len() <= usize::MAX,
    {
        assert(self.kinds@.len() == self.kinds.len());
        assert(self.spans@.len() == self.spans.len());
    }

    /// The source text.
    pub fn source(&self) -> (r: &str)
        ensures
            r@ == self@.source,
    {
        self.source.as_str()
    }

    /// The kinds of the tokens, in order.
    pub fn kinds(&self) -> (r: &Vec<TkKind>)
        ensures
            r@ == self@.kinds,
    {
        &self.kinds
    }

    /// The spans of the tokens, in order.
    pub fn spans(&self) -> (r: &Vec<Span>)
        ensures
            r@ == self@.spans,
    {
        &self.spans
    }

    /// The complaints that did not stop the lexer.
    pub fn minor_errors(&self) -> (r: &Vec<LexError>)
        ensures
            r@ == self@.minor_errors,
    {
        &self.minor_errors
    }

    pub fn nb_tokens(&self) -> (r: usize)
        ensures
            r == self@.kinds.len(),
    {
        self.kinds.len()
    }

    /// The handle of the token after `handle`, if there is one.
    pub fn next_handle(&self, handle: TkHandle) -> (r: Option<TkHandle>)
        ensures
            r == if handle + 1 < self@.kinds.len() {
                Some((handle + 1) as usize)
            } else {
                None
            },
    {
        if handle < self.kinds.len() && handle + 1 < self.kinds.len() {
            Some(handle + 1)
        } else {
            None
        }
    }

    /// The handle of the first token, if there is one.
    pub fn first(&self) -> (r: Option<TkHandle>)
        ensures
            r == if self@.kinds.len() == 0 {
                None
            } else {
                Some(0usize)
            },
    {
        if self.kinds.len() == 0 {
            None
        } else {
            Some(0usize)
        }
    }

    pub fn get_kind(&self, id: TkHandle) -> (r: &TkKind)
        requires
            id < self@.kinds.len(),
        ensures
            *r == self@.kinds[id as int],
    {
        &self.kinds[id]
    }

    /// The text of the token `id`, cut out of the source.
    pub fn get_token_txt(&self, id: TkHandle) -> (r: String)
        requires
            self@.wf(),
            id < self@.kinds.len(),
        ensures
            r@ == self@.text(id as int),
    {
        let span = self.spans[id];
        let txt = self.source.as_str().substring_char(span.start.pos, span.end.pos);
        txt.to_owned()
    }
}

/// The first token that breaks the pairing of the delimiters, from the
/// token `i` on, where `open` holds the handles of the delimiters that are
/// open: a closing delimiter that does not pair with the last one opened,
/// or, at the end, the last one opened and not closed. The bar is not
/// counted: nothing tells a bar that opens from one that closes.
pub open spec fn unbalanced_from(kinds: Seq<TkKind>, i: nat, open: Seq<nat>) -> Option<nat>
    decreases kinds.len() - i,
{
    if i >= kinds.len() {
        if open.len() == 0 {
            None
        } else {
            Some(open.last())
        }
    } else if kinds[i as int].opens() {
        unbalanced_from(kinds, i + 1, open.push(i))
    } else if kinds[i as int].closes() {
        if open.len() > 0 && open.last() < kinds.len() && kinds[open.last() as int]
            == kinds[i as int].partner() {
            unbalanced_from(kinds, i + 1, open.drop_last())
        } else {
            Some(i)
        }
    } else {
        unbalanced_from(kinds, i + 1, open)
    }
}

impl LexedModel {
    /// The first token that breaks the pairing of the delimiters, if one
    /// does.
    pub open spec fn unbalanced(self) -> Option<nat> {
        unbalanced_from(self.kinds, 0, Seq::empty())
    }
}

impl LexedBuffer {
    /// Checks that parentheses, brackets and braces pair up and nest. Where
    /// they do not, the error names the place of the first token that
    /// breaks the pairing.
    pub fn check_delimiters(&self) -> (r: Result<(), LexError>)
        requires
            self@.wf(),
        ensures
            match self@.unbalanced() {
                None => r is Ok,
                Some(h) => h < self@.spans.len() && r == Err::<(), LexError>(
                    LexError {
                        loc: self@.spans[h as int].start,
                        reason: Reason::UnbalancedDelimiter(self@.spans[h as int].start),
                    },
                ),
            },
    {
        let ghost kinds = self@.kinds;
        let mut open: Vec<usize> = Vec::new();
        let n = self.kinds.len();
        let mut i: usize = 0;
        proof {
            assert(open@.map_values(|h: usize| h as nat) =~= Seq::<nat>::empty());
        }
        while i < n
            invariant
                kinds == self@.kinds,
                n == kinds.len(),
                self@.wf(),
                i <= n,
                forall|k: int| 0 <= k < open@.len() ==> open@[k] < i,
                unbalanced_from(kinds, 0, Seq::empty()) == unbalanced_from(
                    kinds,
                    i as nat,
                    open@.map_values(|h: usize| h as nat),
                ),
            decreases n - i,
        {
            let ghost before = open@.map_values(|h: usize| h as nat);
            let kind = self.kinds[i];
            if kind.is_open_delim() {
                open.push(i);
                proof {
                    assert(open@.map_values(|h: usize| h as nat) =~= before.push(i as nat));
                }
            } else if kind.is_close_delim() {
                let pairs = open.len() > 0 && self.kinds[open[open.len() - 1]]
                    == kind.get_matching_delim();
                proof {
                    if open@.len() > 0 {
                        assert(before.last() == open@.last() as nat);
                    }
                }
                if pairs {
                    let _ = open.pop();
                    proof {
                        assert(open@.map_values(|h: usize| h as nat) =~= before.drop_last());
                    }
                } else {
                    let loc = self.spans[i].start;
                    return Err(LexError { loc, reason: Reason::UnbalancedDelimiter(loc) });
                }
            }
            i = i + 1;
        }
        if open.len() == 0 {
            Ok(())
        } else {
            let h = open[open.len() - 1];
            proof {
                assert(open@.map_values(|h: usize| h as nat).last() == h as nat);
            }
            let loc = self.spans[h].start;
            Err(LexError { loc, reason: Reason::UnbalancedDelimiter(loc) })
        }
    }
}

/// Lexing state: the cursor over the source and the tokens found so far.
#[derive(Debug)]
pub struct LexerState {
    mode: LexMode,
    source: String,
    input: Cursor,
    tokens: Vec<TkKind>,
    spans: Vec<Span>,
    start: Loc,
    minor_errors: Vec<LexError>,
}

impl LexerState {
    /// The text being read.
    pub closed spec fn text(&self) -> Seq<char> {
        self.source@
    }

    /// The number of characters consumed.
    pub closed spec fn offset(&self) -> int {
        self.input.offset()
    }

    /// Where the token being read starts.
    pub closed spec fn start(&self) -> Loc {
        self.start
    }

    /// The tokens found so far, as a buffer.
    pub closed spec fn buffer(&self) -> LexedModel {
        LexedModel {
            source: self.source@,
            kinds: self.tokens@,
            spans: self.spans@,
            minor_errors: self.minor_errors@,
        }
    }

    pub closed spec fn wf(&self) -> bool {
        &&& self.input.wf()
        &&& self.input.text() == self.source@
        &&& self.start == Loc::at(self.source@, self.start.pos as int)
        &&& self.start.pos <= self.input.offset()
        &&& self.buffer().wf()
    }

    /// Whether `next` is this state after the token of kind `kind` that ends
    /// at `end` has been added to it.
    pub closed spec fn pushed(&self, next: &LexerState, kind: TkKind, end: int) -> bool {
        &&& next.wf()
        &&& next.source@ == self.source@
        &&& next.input.offset() == end
        &&& next.start == Loc::at(self.source@, end)
        &&& next.tokens@ == self.tokens@.push(kind)
        &&& next.spans@ == self.spans@.push(
            Span { start: self.start, end: Loc::at(self.source@, end) },
        )
        &&& next.minor_errors@ == self.minor_errors@
    }

    /// The state before the first character of `input`.
    pub fn new(input: &str) -> (r: LexerState)
        ensures
            r.wf(),
            r.text() == input@,
            r.offset() == 0,
            r.start() == Loc::origin(),
            r.buffer() == LexedModel::of(input@, Seq::empty()),
    {
        let source = input.to_owned();
        let input = Cursor::new(input);
        let start = input.loc();
        let r = LexerState {
            mode: LexMode::Default,
            source,
            input,
            start,
            tokens: Vec::new(),
            spans: Vec::new(),
            minor_errors: Vec::new(),
        };
        proof {
            r.input.lemma_wf();
            let m = LexedModel::of(r.source@, Seq::empty());
            assert(r.buffer().kinds =~= m.kinds);
            assert(r.buffer().spans =~= m.spans);
            assert(r.buffer().minor_errors =~= m.minor_errors);
        }
        r
    }

    /// Ends the token being read at the cursor and records it with `kind`.
    fn push_token(self, kind: TkKind) -> (r: LexerState)
        requires
            self.wf(),
        ensures
            self.pushed(&r, kind, self.offset()),
    {
        proof {
            self.input.lemma_wf();
            Loc::lemma_at(self.source@, self.start.pos as int);
        }
        let mut state = self;
        state.tokens.push(kind);
        let end = state.input.loc();
        state.spans.push(Span::new(state.start, end));
        state.start = end;
        state
    }

    /// Records a complaint at the start of the token being read.
    fn push_err(self, reason: Reason) -> (r: LexerState)
        requires
            self.wf(),
        ensures
            r.wf(),
            r.text() == self.text(),
            r.offset() == self.offset(),
            r.start() == self.start(),
            r.buffer() == (LexedModel {
                minor_errors: self.buffer().minor_errors.push(
                    LexError { loc: self.start(), reason },
                ),
                ..self.buffer()
            }),
    {
        let mut state = self;
        state.minor_errors.push(LexError { loc: state.start, reason });
        state
    }

    /// Gives up at the cursor for `reason`, handing out the tokens found so
    /// far.
    fn error_out<T>(self, reason: Reason) -> (r: Result<T, (LexError, LexedBuffer)>)
        requires
            self.wf(),
        ensures
            r matches Err((e, buf)) && buf@ == self.buffer() && e == (LexError {
                loc: Loc::at(self.text(), self.offset()),
                reason,
            }),
    {
        proof {
            self.input.lemma_wf();
        }
        Err(
            (
                LexError { loc: self.input.loc(), reason },
                LexedBuffer {
                    source: self.source,
                    kinds: self.tokens,
                    spans: self.spans,
                    minor_errors: self.minor_errors,
                },
            ),
        )
    }

    /// The buffer of the tokens found.
    fn finalize(self) -> (r: LexedBuffer)
        ensures
            r@ == self.buffer(),
    {
        LexedBuffer {
            source: self.source,
            kinds: self.tokens,
            spans: self.spans,
            minor_errors: self.minor_errors,
        }
    }

    /// Skips white space; the next token starts where the cursor then stands.
    fn trim_whitespaces(&mut self)
        requires
            old(self).wf(),
        ensures
            final(self).wf(),
            final(self).text() == old(self).text(),
            final(self).buffer() == old(self).buffer(),
            final(self).offset() == scan_while(old(self).text(), old(self).offset(), CharClass::Space),
            final(self).start() == Loc::at(final(self).text(), final(self).offset()),
            final(self).start().pos == final(self).offset(),
    {
        let ghost s = self.source@;
        let ghost i = self.input.offset();
        proof {
            self.input.lemma_wf();
        }
        self.input.skip_while(space_char);
        self.start = self.input.loc();
        proof {
            self.input.lemma_wf();
            lemma_scan_while_ends(s, i, self.input.offset(), CharClass::Space);
        }
    }
}


/// What the lexer returns when it gives up: the error and the tokens found
/// before it.
pub type LexFailure = (LexError, LexedBuffer);

impl LexerState {
    /// Whether `next` is this state after the lexeme `kind` that ends at
    /// `end` has been read: the token is added, and a complaint with it when
    /// the token is unrecognized.
    pub closed spec fn lexed(&self, next: &LexerState, kind: TkKind, end: int) -> bool {
        &&& next.wf()
        &&& next.source@ == self.source@
        &&& next.input.offset() == end
        &&& next.start == Loc::at(self.source@, end)
        &&& next.tokens@ == self.tokens@.push(kind)
        &&& next.spans@ == self.spans@.push(
            Span { start: self.start, end: Loc::at(self.source@, end) },
        )
        &&& next.minor_errors@ == if kind == TkKind::Unrecognized {
            self.minor_errors@.push(LexError { loc: self.start, reason: Reason::Unrecognized })
        } else {
            self.minor_errors@
        }
    }

    /// Whether `r` is the failure of this state at the end of its text.
    pub closed spec fn failed<T>(&self, r: Result<T, LexFailure>) -> bool {
        r matches Err((e, buf)) && buf@ == self.buffer() && e == (LexError {
            loc: Loc::at(self.source@, self.source@.len() as int),
            reason: Reason::UnexpectedEOI,
        })
    }
}

/// The kind of a character that is a token by itself.
fn punct(c: char) -> (r: Option<TkKind>)
    ensures
        r == punctuation(c),
{
    if c == ':' {
        Some(TkKind::Colon)
    } else if c == '=' {
        Some(TkKind::Equals)
    } else if c == '(' {
        Some(TkKind::Lpar)
    } else if c == ')' {
        Some(TkKind::Rpar)
    } else if c == '{' {
        Some(TkKind::Lbrace)
    } else if c == '}' {
        Some(TkKind::Rbrace)
    } else if c == '[' {
        Some(TkKind::Lbracket)
    } else if c == ']' {
        Some(TkKind::Rbracket)
    } else if c == '|' {
        Some(TkKind::Bar)
    } else if c == '@' {
        Some(TkKind::At)
    } else if c == '$' {
        Some(TkKind::Dollar)
    } else if c == '<' {
        Some(TkKind::LT)
    } else if c == '>' {
        Some(TkKind::GT)
    } else if c == '.' {
        Some(TkKind::Dot)
    } else if c == ',' {
        Some(TkKind::Comma)
    } else if c == '+' {
        Some(TkKind::Plus)
    } else if c == '*' {
        Some(TkKind::Star)
    } else if c == '/' {
        Some(TkKind::Slash)
    } else if c == '%' {
        Some(TkKind::Percent)
    } else {
        None
    }
}

/// Reads the rest of an identifier that starts with an underscore.
fn lex_identifier(state: LexerState) -> (r: Result<LexerState, LexFailure>)
    requires
        state.wf(),
    ensures
        r matches Ok(next) && state.pushed(
            &next,
            TkKind::Ident,
            scan_while(state.text(), state.offset(), CharClass::Ident),
        ),
{
    let mut st = state;
    proof {
        st.input.lemma_wf();
    }
    st.input.skip_while(ident_char);
    proof {
        st.input.lemma_wf();
        lemma_scan_while_ends(state.text(), state.offset(), st.input.offset(), CharClass::Ident);
    }
    Ok(st.push_token(TkKind::Ident))
}

/// Reads the rest of a word and tells a keyword from an identifier.
fn lex_ident_or_keyword(state: LexerState, c: char) -> (r: Result<LexerState, LexFailure>)
    requires
        state.wf(),
        state.start().pos + 1 == state.offset(),
    ensures
        ({
            let e = scan_while(state.text(), state.offset(), CharClass::Ident);
            r matches Ok(next) && state.pushed(
                &next,
                match Kw::of(state.text().subrange(state.offset() - 1, e)) {
                    Some(kw) => TkKind::KeyWord(kw),
                    None => TkKind::Ident,
                },
                e,
            )
        }),
{
    let mut st = state;
    proof {
        st.input.lemma_wf();
    }
    st.input.skip_while(ident_char);
    proof {
        st.input.lemma_wf();
        lemma_scan_while_ends(state.text(), state.offset(), st.input.offset(), CharClass::Ident);
    }
    let end = st.input.loc().pos;
    let kw = Kw::lookup(st.input.chars(), st.start.pos, end);
    match kw {
        Some(kw) => Ok(st.push_token(TkKind::KeyWord(kw))),
        None => Ok(st.push_token(TkKind::Ident)),
    }
}

/// Reads the rest of a string literal, up to its closing quote.
fn lex_string(state: LexerState) -> (r: Result<LexerState, LexFailure>)
    requires
        state.wf(),
    ensures
        match string_end(state.text(), state.offset()) {
            Some(e) => r matches Ok(next) && state.pushed(
                &next,
                TkKind::Litteral(Lit::StringLit),
                e,
            ),
            None => state.failed(r),
        },
{
    let ghost s = state.source@;
    let mut st = state;
    loop
        invariant
            st.wf(),
            st.source@ == s,
            state.source@ == s,
            st.start == state.start,
            st.buffer() == state.buffer(),
            string_end(s, st.input.offset()) == string_end(s, state.input.offset()),
        decreases s.len() - st.input.offset(),
    {
        proof {
            st.input.lemma_wf();
        }
        match st.input.next() {
            None => {
                return st.error_out(Reason::UnexpectedEOI);
            },
            Some(c) => {
                proof {
                    st.input.lemma_wf();
                }
                if c == '/' {
                    let _ = st.input.next_is('"');
                    proof {
                        st.input.lemma_wf();
                    }
                } else if c == '"' {
                    return Ok(st.push_token(TkKind::Litteral(Lit::StringLit)));
                }
            },
        }
    }
}

/// Reads the rest of a decimal literal and tells a float from an integer.
fn lex_float_or_int(state: LexerState) -> (r: Result<LexerState, LexFailure>)
    requires
        state.wf(),
    ensures
        ({
            let e = number_end(state.text(), state.offset());
            r matches Ok(next) && state.pushed(
                &next,
                if has_float_mark(state.text(), state.offset(), e) {
                    TkKind::Litteral(Lit::Float)
                } else {
                    TkKind::Litteral(Lit::Int)
                },
                e,
            )
        }),
{
    let ghost s = state.source@;
    let ghost from = state.input.offset();
    let mut st = state;
    let mut float = false;
    proof {
        st.input.lemma_wf();
    }
    loop
        invariant
            st.wf(),
            st.source@ == s,
            state.source@ == s,
            st.start == state.start,
            st.buffer() == state.buffer(),
            from == state.input.offset(),
            0 <= from <= st.input.offset() <= s.len(),
            number_end(s, st.input.offset()) == number_end(s, from),
            float == has_float_mark(s, from, st.input.offset()),
        ensures
            st.wf(),
            st.source@ == s,
            st.start == state.start,
            st.buffer() == state.buffer(),
            st.input.offset() == number_end(s, from),
            float == has_float_mark(s, from, st.input.offset()),
        decreases s.len() - st.input.offset(),
    {
        let ghost q = st.input.offset();
        match st.input.next_if(number_char) {
            None => {
                break ;
            },
            Some(x) => {
                proof {
                    st.input.lemma_wf();
                    assert(s[q] == x);
                    assert(is_number_char(x));
                }
                if x == 'e' || x == 'E' {
                    st.input.skip_if(sign_char);
                    proof {
                        st.input.lemma_wf();
                        if st.input.offset() == q + 2 {
                            assert(is_sign(s[q + 1]));
                            assert(has_float_mark(s, from, q + 2) == has_float_mark(s, from, q + 1));
                        }
                    }
                }
                if x == 'e' || x == 'E' || x == '.' {
                    float = true;
                }
                proof {
                    assert(has_float_mark(s, from, q + 1) == (is_float_mark(x) || has_float_mark(
                        s,
                        from,
                        q,
                    )));
                }
            },
        }
    }
    if float {
        Ok(st.push_token(TkKind::Litteral(Lit::Float)))
    } else {
        Ok(st.push_token(TkKind::Litteral(Lit::Int)))
    }
}

/// Reads the digits of a binary literal, after its `0b`.
fn lex_bin_int(state: LexerState) -> (r: Result<LexerState, LexFailure>)
    requires
        state.wf(),
    ensures
        r matches Ok(next) && state.pushed(
            &next,
            TkKind::Litteral(Lit::Int),
            scan_while(state.text(), state.offset(), CharClass::Bin),
        ),
{
    let mut st = state;
    proof {
        st.input.lemma_wf();
    }
    st.input.skip_while(bin_int_char);
    proof {
        st.input.lemma_wf();
        lemma_scan_while_ends(state.text(), state.offset(), st.input.offset(), CharClass::Bin);
    }
    Ok(st.push_token(TkKind::Litteral(Lit::Int)))
}

/// Reads the digits of a hexadecimal literal, after its `0x`.
fn lex_hex_int(state: LexerState) -> (r: Result<LexerState, LexFailure>)
    requires
        state.wf(),
    ensures
        r matches Ok(next) && state.pushed(
            &next,
            TkKind::Litteral(Lit::Int),
            scan_while(state.text(), state.offset(), CharClass::Hexa),
        ),
{
    let mut st = state;
    proof {
        st.input.lemma_wf();
    }
    st.input.skip_while(hexa_int_char);
    proof {
        st.input.lemma_wf();
        lemma_scan_while_ends(state.text(), state.offset(), st.input.offset(), CharClass::Hexa);
    }
    Ok(st.push_token(TkKind::Litteral(Lit::Int)))
}

/// Decides what a dash starts: a line comment `--`, a block comment `-{`
/// that runs to its matching `}-`, or the dash token.
fn resolve_comment(state: LexerState) -> (r: Result<LexerState, LexFailure>)
    requires
        state.wf(),
    ensures
        ({
            let s = state.text();
            let i = state.offset();
            if 0 <= i < s.len() && s[i] == '-' {
                r matches Ok(next) && state.pushed(
                    &next,
                    TkKind::Comment,
                    scan_while(s, i, CharClass::Line),
                )
            } else if 0 <= i < s.len() && s[i] == '{' {
                match comment_end(s, i + 1, 1) {
                    Some(e) => r matches Ok(next) && state.pushed(&next, TkKind::Comment, e),
                    None => state.failed(r),
                }
            } else {
                r matches Ok(next) && state.pushed(&next, TkKind::Dash, i)
            }
        }),
{
    let ghost s = state.source@;
    let ghost i = state.input.offset();
    let mut st = state;
    proof {
        st.input.lemma_wf();
    }
    let next: Option<char> = match st.input.peek_char() {
        Some(c) => Some(*c),
        None => None,
    };
    if next == Some('-') {
        st.input.skip_while(line_char);
        proof {
            st.input.lemma_wf();
            lemma_scan_while_ends(s, i, st.input.offset(), CharClass::Line);
        }
        Ok(st.push_token(TkKind::Comment))
    } else if next == Some('{') {
        let _ = st.input.next();
        let mut depth: usize = 1;
        proof {
            st.input.lemma_wf();
        }
        loop
            invariant
                st.wf(),
                st.source@ == s,
                state.source@ == s,
                i == state.input.offset(),
                0 <= i < s.len(),
                s[i] == '{',
                st.start == state.start,
                st.buffer() == state.buffer(),
                1 <= depth <= st.input.offset() <= s.len(),
                comment_end(s, st.input.offset(), depth as nat) == comment_end(s, i + 1, 1),
            decreases s.len() - st.input.offset(),
        {
            match st.input.next() {
                None => {
                    return st.error_out(Reason::UnexpectedEOI);
                },
                Some(c) => {
                    proof {
                        st.input.lemma_wf();
                    }
                    if c == '}' {
                        let closed = st.input.next_is('-');
                        proof {
                            st.input.lemma_wf();
                        }
                        if closed {
                            if depth == 1 {
                                return Ok(st.push_token(TkKind::Comment));
                            }
                            depth = depth - 1;
                        }
                    } else if c == '-' {
                        let opened = st.input.next_is('{');
                        proof {
                            st.input.lemma_wf();
                        }
                        if opened {
                            depth = depth + 1;
                        }
                    }
                },
            }
        }
    } else {
        Ok(st.push_token(TkKind::Dash))
    }
}

/// Reads the lexeme whose first character `c` has just been consumed.
fn lex_token(state: LexerState, c: char) -> (r: Result<LexerState, LexFailure>)
    requires
        state.wf(),
        state.start().pos + 1 == state.offset(),
        state.text()[state.offset() - 1] == c,
    ensures
        match lexeme_at(state.text(), state.offset() - 1) {
            Lexeme::Token(kind, end) => r matches Ok(next) && state.lexed(&next, kind, end),
            Lexeme::Unterminated => state.failed(r),
        },
{
    proof {
        state.input.lemma_wf();
    }
    match punct(c) {
        Some(kind) => Ok(state.push_token(kind)),
        None => {
            if c == '"' {
                lex_string(state)
            } else if c == '-' {
                resolve_comment(state)
            } else if c == '_' {
                lex_identifier(state)
            } else if c.is_alphabetic() {
                lex_ident_or_keyword(state, c)
            } else {
                let mut st = state;
                if c == '0' {
                    if st.input.next_is('b') {
                        proof {
                            st.input.lemma_wf();
                        }
                        return lex_bin_int(st);
                    }
                    if st.input.next_is('x') {
                        proof {
                            st.input.lemma_wf();
                        }
                        return lex_hex_int(st);
                    }
                }
                if c.is_numeric() {
                    lex_float_or_int(st)
                } else {
                    Ok(st.push_err(Reason::Unrecognized).push_token(TkKind::Unrecognized))
                }
            }
        },
    }
}

/// Splits `input` into tokens.
///
/// White space separates tokens and belongs to none. The buffer holds the
/// kind and the span of every token of the text, in order, and one minor
/// error for each unrecognized token. A comment is a token: a line comment
/// runs from `--` to the end of the line, and a block comment from `-{` to
/// the `}-` that closes it; block comments nest. A string or a block
/// comment that the text ends in stops the lexer: the error says so, at the
/// end of the text, and comes with the tokens that stand before it.
pub fn lex(input: &str) -> (r: Result<LexedBuffer, LexFailure>)
    ensures
        match r {
            Ok(buf) => lex_spec(input@).complete && buf@ == LexedModel::of(
                input@,
                lex_spec(input@).tokens,
            ),
            Err((e, buf)) => !lex_spec(input@).complete && buf@ == LexedModel::of(
                input@,
                lex_spec(input@).tokens,
            ) && e == (LexError {
                loc: Loc::at(input@, input@.len() as int),
                reason: Reason::UnexpectedEOI,
            }),
        },
        match r {
            Ok(buf) => buf@.wf(),
            Err((_, buf)) => buf@.wf(),
        },
{
    let ghost s = input@;
    let ghost mut done: Seq<TokenModel> = Seq::empty();
    let ghost mut at: int = 0;
    let mut state = LexerState::new(input);
    state.trim_whitespaces();
    loop
        invariant
            s == input@,
            state.wf(),
            state.source@ == s,
            0 <= at <= s.len(),
            state.input.offset() == scan_while(s, at, CharClass::Space),
            state.start.pos == state.input.offset(),
            state.buffer() == LexedModel::of(s, done),
            lex_spec(s).tokens == done + lex_from(s, at).tokens,
            lex_spec(s).complete == lex_from(s, at).complete,
        decreases s.len() - state.input.offset(),
    {
        let ghost j = state.input.offset();
        proof {
            state.input.lemma_wf();
            lemma_scan_while(s, at, CharClass::Space);
        }
        match state.input.next() {
            None => {
                proof {
                    assert(lex_from(s, at).tokens =~= Seq::empty());
                    assert(done + lex_from(s, at).tokens =~= done);
                }
                return Ok(state.finalize());
            },
            Some(c) => {
                proof {
                    state.input.lemma_wf();
                    lemma_lexeme_at(s, j);
                }
                match lex_token(state, c) {
                    Err(failure) => {
                        proof {
                            assert(lex_from(s, at).tokens =~= Seq::empty());
                            assert(done + lex_from(s, at).tokens =~= done);
                        }
                        return Err(failure);
                    },
                    Ok(st) => {
                        state = st;
                        proof {
                            let kind = lexeme_at(s, j)->Token_0;
                            let end = lexeme_at(s, j)->Token_1;
                            let tok = TokenModel { kind, start: j, end };
                            let more = done.push(tok);
                            assert(more.drop_last() =~= done);
                            assert(lex_from(s, at).tokens == seq![tok] + lex_from(s, end).tokens);
                            assert(done + (seq![tok] + lex_from(s, end).tokens) =~= more + lex_from(
                                s,
                                end,
                            ).tokens);
                            let m = LexedModel::of(s, more);
                            assert(state.buffer().kinds =~= m.kinds);
                            assert(state.buffer().spans =~= m.spans);
                            assert(state.buffer().minor_errors =~= m.minor_errors);
                            Loc::lemma_at(s, end);
                            lemma_scan_while(s, end, CharClass::Space);
                            done = more;
                            at = end;
                        }
                        state.trim_whitespaces();
                    },
                }
            },
        }
    }
}

} // verus!
