//! The lexer as a stream: the tokens of a text, handed out one at a time.
//!
//! The stream hands out the tokens that `lex` finds, without the comments,
//! and then the end-of-input token for as long as it is asked. It tells the
//! kinds of token that arithmetic is written with, and takes every other
//! token for an unrecognized one. A text that ends in a string or in a
//! block comment gives the tokens that stand before it; `error` says that
//! the text was not read to its end.
use vstd::prelude::*;
use crate::lexer::lexeme::{lex_spec, span_of};
use crate::lexer::round_trip::lemma_tokens_in_order;
use crate::lexer::token::{Lit, TkKind};
use crate::lexer::{lex, LexError, LexedBuffer, LexedModel, Reason};
use crate::utils::{decimal, nat_text, Loc as Place};

verus! {

/// Where a token stands: the file, if the text comes from one, the row and
/// the column.
#[derive(Debug, Clone, PartialEq)]
pub struct Loc {
    pub file_path: Option<String>,
    pub row: usize,
    pub col: usize,
}

impl Loc {
    /// How a place is shown: `(row, col)`, after the file and a colon where
    /// there is a file.
    pub open spec fn shown(self) -> Seq<char> {
        let place = "("@ + decimal(self.row as nat) + ", "@ + decimal(self.col as nat) + ")"@;
        match self.file_path {
            Some(fp) => fp@ + ":"@ + place,
            None => place,
        }
    }

    /// Shows the place.
    pub fn to_text(&self) -> (r: String)
        ensures
            r@ == self.shown(),
    {
        let place = "(".to_owned().concat(nat_text(self.row as u64).as_str()).concat(", ").concat(
            nat_text(self.col as u64).as_str(),
        ).concat(")");
        match &self.file_path {
            Some(fp) => fp.clone().concat(":").concat(place.as_str()),
            None => place,
        }
    }
}

/// The kinds of token that the stream tells apart.
#[derive(Debug, Clone, Copy, PartialEq, Eq, Hash, Structural)]
pub enum TokenKind {
    Ident,
    Colon,
    Int,
    Float,
    Plus,
    Dash,
    Star,
    Slash,
    Percent,
    Lpar,
    Rpar,
    Unrecognized,
    EOI,
}

impl TokenKind {
    /// The kind that the stream gives to a token of kind `kind`. A keyword
    /// counts as an identifier.
    pub open spec fn of(kind: TkKind) -> TokenKind {
        match kind {
            TkKind::Ident => TokenKind::Ident,
            TkKind::KeyWord(_) => TokenKind::Ident,
            TkKind::Colon => TokenKind::Colon,
            TkKind::Litteral(Lit::Int) => TokenKind::Int,
            TkKind::Litteral(Lit::Float) => TokenKind::Float,
            TkKind::Plus => TokenKind::Plus,
            TkKind::Dash => TokenKind::Dash,
            TkKind::Star => TokenKind::Star,
            TkKind::Slash => TokenKind::Slash,
            TkKind::Percent => TokenKind::Percent,
            TkKind::Lpar => TokenKind::Lpar,
            TkKind::Rpar => TokenKind::Rpar,
            _ => TokenKind::Unrecognized,
        }
    }

    /// Whether the kind is that of an operator on integers.
    pub open spec fn int_op(self) -> bool {
        self == TokenKind::Plus || self == TokenKind::Dash || self == TokenKind::Star || self
            == TokenKind::Slash || self == TokenKind::Percent
    }

    /// Whether the kind is that of an operator on floats.
    pub open spec fn float_op(self) -> bool {
        self == TokenKind::Plus || self == TokenKind::Dash || self == TokenKind::Star || self
            == TokenKind::Slash
    }

    /// How the kind is shown.
    pub open spec fn shown(self) -> Seq<char> {
        match self {
            TokenKind::Ident => "identifier"@,
            TokenKind::Colon => "colon"@,
            TokenKind::Unrecognized => "unrecognized"@,
            TokenKind::EOI => "end of input"@,
            TokenKind::Int => "integer"@,
            TokenKind::Float => "float"@,
            TokenKind::Plus => "plus"@,
            TokenKind::Dash => "dash"@,
            TokenKind::Star => "star"@,
            TokenKind::Slash => "slash"@,
            TokenKind::Percent => "percent"@,
            TokenKind::Lpar => "left parenthesis"@,
            TokenKind::Rpar => "right parenthesis"@,
        }
    }

    /// The kind that the stream gives to a token of kind `kind`.
    pub fn from_kind(kind: TkKind) -> (r: TokenKind)
        ensures
            r == TokenKind::of(kind),
    {
        match kind {
            TkKind::Ident => TokenKind::Ident,
            TkKind::KeyWord(_) => TokenKind::Ident,
            TkKind::Colon => TokenKind::Colon,
            TkKind::Litteral(Lit::Int) => TokenKind::Int,
            TkKind::Litteral(Lit::Float) => TokenKind::Float,
            TkKind::Plus => TokenKind::Plus,
            TkKind::Dash => TokenKind::Dash,
            TkKind::Star => TokenKind::Star,
            TkKind::Slash => TokenKind::Slash,
            TkKind::Percent => TokenKind::Percent,
            TkKind::Lpar => TokenKind::Lpar,
            TkKind::Rpar => TokenKind::Rpar,
            _ => TokenKind::Unrecognized,
        }
    }

    pub fn is_int_op(&self) -> (r: bool)
        ensures
            r == self.int_op(),
    {
        match self {
            TokenKind::Plus | TokenKind::Dash | TokenKind::Star | TokenKind::Slash
            | TokenKind::Percent => true,
            _ => false,
        }
    }

    pub fn is_float_op(&self) -> (r: bool)
        ensures
            r == self.float_op(),
    {
        match self {
            TokenKind::Plus | TokenKind::Dash | TokenKind::Star | TokenKind::Slash => true,
            _ => false,
        }
    }

    /// Shows the kind by its name.
    pub fn to_text(&self) -> (r: String)
        ensures
            r@ == self.shown(),
    {
        match self {
            TokenKind::Ident => "identifier".to_owned(),
            TokenKind::Colon => "colon".to_owned(),
            TokenKind::Unrecognized => "unrecognized".to_owned(),
            TokenKind::EOI => "end of input".to_owned(),
            TokenKind::Int => "integer".to_owned(),
            TokenKind::Float => "float".to_owned(),
            TokenKind::Plus => "plus".to_owned(),
            TokenKind::Dash => "dash".to_owned(),
            TokenKind::Star => "star".to_owned(),
            TokenKind::Slash => "slash".to_owned(),
            TokenKind::Percent => "percent".to_owned(),
            TokenKind::Lpar => "left parenthesis".to_owned(),
            TokenKind::Rpar => "right parenthesis".to_owned(),
        }
    }
}

/// A token: its kind, its text and the place where it starts.
#[derive(Debug, Clone, PartialEq)]
pub struct Token {
    pub kind: TokenKind,
    pub text: String,
    pub loc: Loc,
}

/// What a token is.
pub struct StreamToken {
    pub kind: TokenKind,
    pub text: Seq<char>,
    pub file: Option<Seq<char>>,
    pub row: usize,
    pub col: usize,
}

/// The name of a file, if there is a file.
pub open spec fn file_text(file: Option<String>) -> Option<Seq<char>> {
    match file {
        Some(path) => Some(path@),
        None => None,
    }
}

impl View for Token {
    type V = StreamToken;

    open spec fn view(&self) -> StreamToken {
        StreamToken {
            kind: self.kind,
            text: self.text@,
            file: file_text(self.loc.file_path),
            row: self.loc.row,
            col: self.loc.col,
        }
    }
}

impl Token {
    /// How a token is shown: its kind, and its text where it has one.
    pub open spec fn shown(self) -> Seq<char> {
        if self.text@.len() > 0 {
            "Token "@ + self.kind.shown() + ": "@ + self.text@
        } else {
            "Token "@ + self.kind.shown()
        }
    }

    /// Shows the token by its kind and its text.
    pub fn to_text(&self) -> (r: String)
        ensures
            r@ == self.shown(),
    {
        let head = "Token ".to_owned().concat(self.kind.to_text().as_str());
        if self.text.as_str().unicode_len() > 0 {
            head.concat(": ").concat(self.text.as_str())
        } else {
            head
        }
    }
}

/// The handle of the first token at or after `from` that starts at the
/// offset `idx` or later and is no comment; the number of tokens when there
/// is none.
pub open spec fn next_from(buf: LexedModel, idx: nat, from: nat) -> nat
    decreases buf.spans.len() - from,
{
    if from >= buf.spans.len() || from >= buf.kinds.len() {
        buf.spans.len()
    } else if buf.spans[from as int].start.pos >= idx && buf.kinds[from as int]
        != TkKind::Comment {
        from
    } else {
        next_from(buf, idx, from + 1)
    }
}

/// The token that the stream hands out for the token `h` of `buf`, which
/// comes from the file `file` if it comes from one.
pub open spec fn token_of(buf: LexedModel, h: int, file: Option<Seq<char>>) -> StreamToken {
    StreamToken {
        kind: TokenKind::of(buf.kinds[h]),
        text: buf.text(h),
        file,
        row: buf.spans[h].start.row,
        col: buf.spans[h].start.col,
    }
}

/// The token that stands for the end of the input: it has no text and no
/// place.
pub open spec fn eoi_token() -> StreamToken {
    StreamToken { kind: TokenKind::EOI, text: Seq::empty(), file: None, row: 0, col: 0 }
}

/// Whether the tokens of `buf` are in order and none is empty.
pub open spec fn in_order(buf: LexedModel) -> bool {
    &&& forall|i: int|
        0 <= i < buf.spans.len() ==> (#[trigger] buf.spans[i]).start.pos < buf.spans[i].end.pos
    &&& forall|i: int, j: int|
        0 <= i < j < buf.spans.len() ==> (#[trigger] buf.spans[i]).end.pos <= (
        #[trigger] buf.spans[j]).start.pos
}

/// The next token lies at or after `from`, and nothing between `from` and
/// it could be handed out.
pub proof fn lemma_next_from(buf: LexedModel, idx: nat, from: nat)
    requires
        buf.wf(),
        from <= buf.spans.len(),
    ensures
        from <= next_from(buf, idx, from) <= buf.spans.len(),
        next_from(buf, idx, from) < buf.spans.len() ==> buf.spans[next_from(
            buf,
            idx,
            from,
        ) as int].start.pos >= idx && buf.kinds[next_from(buf, idx, from) as int]
            != TkKind::Comment,
    decreases buf.spans.len() - from,
{
    if from < buf.spans.len() && !(buf.spans[from as int].start.pos >= idx && buf.kinds[from as int]
        != TkKind::Comment) {
        lemma_next_from(buf, idx, from + 1);
    }
}

/// Tokens that start before `idx` can be passed over.
pub proof fn lemma_next_skips(buf: LexedModel, idx: nat, from: nat, to: nat)
    requires
        buf.wf(),
        from <= to <= buf.spans.len(),
        forall|i: int| from <= i < to ==> (#[trigger] buf.spans[i]).start.pos < idx,
    ensures
        next_from(buf, idx, from) == next_from(buf, idx, to),
    decreases to - from,
{
    if from < to {
        lemma_next_skips(buf, idx, from + 1, to);
    }
}

/// A stream of tokens over a text.
#[derive(Debug)]
pub struct Lexer {
    file_path: Option<String>,
    buffer: LexedBuffer,
    error: Option<LexError>,
    hint: usize,
    idx: usize,
    row: usize,
    col: usize,
}

impl Lexer {
    /// The tokens that the stream runs over.
    pub closed spec fn tokens(&self) -> LexedModel {
        self.buffer@
    }

    /// The offset in the text from which the next token is taken.
    pub closed spec fn offset(&self) -> nat {
        self.idx as nat
    }

    /// The row, the column and the offset where the stream stands.
    pub closed spec fn mark(&self) -> (usize, usize, usize) {
        (self.row, self.col, self.idx)
    }

    /// The file that the text comes from, if it comes from one.
    pub closed spec fn file(&self) -> Option<String> {
        self.file_path
    }

    /// Why the text was not read to its end, if it was not.
    pub closed spec fn failure(&self) -> Option<LexError> {
        self.error
    }

    pub closed spec fn wf(&self) -> bool {
        &&& self.buffer@.wf()
        &&& in_order(self.buffer@)
        &&& self.hint <= self.buffer@.spans.len()
        &&& next_from(self.buffer@, self.idx as nat, 0) == next_from(
            self.buffer@,
            self.idx as nat,
            self.hint as nat,
        )
    }

    /// The handle of the token that is handed out next; the number of
    /// tokens at the end of the input.
    pub open spec fn upcoming(&self) -> nat {
        next_from(self.tokens(), self.offset(), 0)
    }

    /// Whether `next` is the stream `self` at the place `mark`.
    pub open spec fn moved(&self, next: &Lexer, mark: (usize, usize, usize)) -> bool {
        &&& next.wf()
        &&& next.tokens() == self.tokens()
        &&& next.file() == self.file()
        &&& next.failure() == self.failure()
        &&& next.mark() == mark
        &&& next.offset() == mark.2
    }

    /// A stream over the tokens of `source`, which stands before the first
    /// of them.
    pub fn new(source: &str, file_path: Option<String>) -> (r: Lexer)
        ensures
            r.wf(),
            r.tokens() == LexedModel::of(source@, lex_spec(source@).tokens),
            r.failure() == if lex_spec(source@).complete {
                None
            } else {
                Some(
                    LexError {
                        loc: Place::at(source@, source@.len() as int),
                        reason: Reason::UnexpectedEOI,
                    },
                )
            },
            r.mark() == (0usize, 0usize, 0usize),
            r.offset() == 0,
            r.file() == file_path,
    {
        let (buffer, error) = match lex(source) {
            Ok(buf) => (buf, None),
            Err((e, buf)) => (buf, Some(e)),
        };
        proof {
            let s = source@;
            let tokens = lex_spec(s).tokens;
            lemma_tokens_in_order(s, 0);
            let m = LexedModel::of(s, tokens);
            assert forall|i: int| 0 <= i < m.spans.len() implies (#[trigger] m.spans[i]).start.pos
                == tokens[i].start && m.spans[i].end.pos == tokens[i].end by {
                assert(m.spans[i] == span_of(s, tokens[i]));
                Place::lemma_at(s, tokens[i].start);
                Place::lemma_at(s, tokens[i].end);
            }
            assert(in_order(m)) by {
                assert forall|i: int, j: int| 0 <= i < j < m.spans.len() implies (
                #[trigger] m.spans[i]).end.pos <= (#[trigger] m.spans[j]).start.pos by {
                    assert(tokens[i].end <= tokens[j].start);
                }
            }
        }
        Lexer { file_path, buffer, error, hint: 0, idx: 0, row: 0, col: 0 }
    }

    /// Where the stream stands.
    pub fn loc(&self) -> (r: Loc)
        ensures
            r.row == self.mark().0,
            r.col == self.mark().1,
            r.file_path == self.file(),
    {
        Loc { file_path: self.file_path.clone(), row: self.row, col: self.col }
    }

    /// Why the text was not read to its end, if it was not.
    pub fn error(&self) -> (r: Option<LexError>)
        ensures
            r == self.failure(),
    {
        self.error
    }

    /// The handle of the token that is handed out next.
    fn find(&self) -> (h: usize)
        requires
            self.wf(),
        ensures
            h == self.upcoming(),
            h <= self.tokens().spans.len(),
    {
        let n = self.buffer.nb_tokens();
        let ghost buf = self.buffer@;
        let ghost idx = self.idx as nat;
        let mut h = self.hint;
        while h < n
            invariant
                self.buffer@ == buf,
                self.idx == idx,
                buf.wf(),
                n == buf.spans.len(),
                self.hint <= h <= n,
                next_from(buf, idx, 0) == next_from(buf, idx, h as nat),
            ensures
                h <= n,
                next_from(buf, idx, 0) == h,
            decreases n - h,
        {
            if self.buffer.spans()[h].start.pos >= self.idx && *self.buffer.get_kind(h)
                != TkKind::Comment {
                break ;
            }
            h = h + 1;
        }
        h
    }

    /// The token `h` of the buffer, as the stream hands it out.
    fn token_at(&self, h: usize) -> (r: Token)
        requires
            self.wf(),
            h < self.tokens().spans.len(),
        ensures
            r@ == token_of(self.tokens(), h as int, file_text(self.file())),
    {
        let span = self.buffer.spans()[h];
        Token {
            kind: TokenKind::from_kind(*self.buffer.get_kind(h)),
            text: self.buffer.get_token_txt(h),
            loc: Loc { file_path: self.file_path.clone(), row: span.start.row, col: span.start.col },
        }
    }

    /// The token that stands for the end of the input.
    fn eoi() -> (r: Token)
        ensures
            r@ == eoi_token(),
    {
        Token {
            kind: TokenKind::EOI,
            text: String::new(),
            loc: Loc { file_path: None, row: 0, col: 0 },
        }
    }

    /// Hands out the next token and moves past it. At the end of the input
    /// it hands out the end-of-input token and stays where it is.
    pub fn next_tok(&mut self) -> (r: Token)
        requires
            old(self).wf(),
        ensures
            ({
                let buf = old(self).tokens();
                let h = old(self).upcoming() as int;
                if h < buf.spans.len() {
                    r@ == token_of(buf, h, file_text(old(self).file())) && old(self).moved(
                        final(self),
                        (buf.spans[h].end.row, buf.spans[h].end.col, buf.spans[h].end.pos),
                    )
                } else {
                    r@ == eoi_token() && old(self).moved(final(self), old(self).mark())
                }
            }),
    {
        let h = self.find();
        if h < self.buffer.nb_tokens() {
            let tok = self.token_at(h);
            let end = self.buffer.spans()[h].end;
            proof {
                let buf = self.buffer@;
                lemma_next_from(buf, self.idx as nat, 0);
                assert forall|i: int| 0 <= i < h + 1 implies (#[trigger] buf.spans[i]).start.pos
                    < end.pos by {
                    if i < h {
                        assert(buf.spans[i].end.pos <= buf.spans[h as int].start.pos);
                    }
                }
                lemma_next_skips(buf, end.pos as nat, 0, (h + 1) as nat);
            }
            self.idx = end.pos;
            self.row = end.row;
            self.col = end.col;
            self.hint = h + 1;
            tok
        } else {
            Lexer::eoi()
        }
    }

    /// The next token, which stays the next token.
    pub fn peek_tok(&mut self) -> (r: Token)
        requires
            old(self).wf(),
        ensures
            old(self).moved(final(self), old(self).mark()),
            r@ == if old(self).upcoming() < old(self).tokens().spans.len() {
                token_of(
                    old(self).tokens(),
                    old(self).upcoming() as int,
                    file_text(old(self).file()),
                )
            } else {
                eoi_token()
            },
    {
        let h = self.find();
        if h < self.buffer.nb_tokens() {
            self.token_at(h)
        } else {
            Lexer::eoi()
        }
    }

    /// Hands out the next token, as `next_tok` does, and says whether it is
    /// of kind `kind`.
    pub fn expect_tok(&mut self, kind: TokenKind) -> (r: bool)
        requires
            old(self).wf(),
        ensures
            ({
                let buf = old(self).tokens();
                let h = old(self).upcoming() as int;
                if h < buf.spans.len() {
                    r == (TokenKind::of(buf.kinds[h]) == kind) && old(self).moved(
                        final(self),
                        (buf.spans[h].end.row, buf.spans[h].end.col, buf.spans[h].end.pos),
                    )
                } else {
                    r == (kind == TokenKind::EOI) && old(self).moved(final(self), old(self).mark())
                }
            }),
    {
        let tok = self.next_tok();
        tok.kind == kind
    }

    /// The row, the column and the offset where the stream stands.
    pub fn pos(&self) -> (r: (usize, usize, usize))
        ensures
            r == self.mark(),
    {
        (self.row, self.col, self.idx)
    }

    /// Puts the stream at the place `mark`: the next token is the first
    /// that starts at the offset of the mark or later.
    pub fn reset_pos(&mut self, mark: (usize, usize, usize))
        requires
            old(self).wf(),
        ensures
            old(self).moved(final(self), mark),
    {
        self.row = mark.0;
        self.col = mark.1;
        self.idx = mark.2;
        self.hint = 0;
    }

    /// Whether only the end of the input is left to hand out.
    pub fn is_empty(&self) -> (r: bool)
        requires
            self.wf(),
        ensures
            r == (self.upcoming() >= self.tokens().spans.len()),
    {
        let h = self.find();
        h >= self.buffer.nb_tokens()
    }
}

} // verus!
