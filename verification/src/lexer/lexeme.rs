//! The lexical grammar, stated over a sequence of characters.
use vstd::prelude::*;
use crate::utils::{Loc, Span};
use crate::lexer::chars::{
    char_is_alphabetic, char_is_numeric, char_is_whitespace, is_bin_int_char, is_float_mark,
    is_hexa_int_char, is_ident_char, is_number_char,
};
use crate::lexer::token::{Kw, Lit, TkKind};

verus! {

/// The classes of characters that the lexer consumes in runs.
pub enum CharClass {
    /// White space.
    Space,
    /// What may continue an identifier.
    Ident,
    /// The digits of a binary literal.
    Bin,
    /// The digits of a hexadecimal literal.
    Hexa,
    /// Everything but the line feed.
    Line,
}

impl CharClass {
    pub open spec fn holds(self, c: char) -> bool {
        match self {
            CharClass::Space => char_is_whitespace(c),
            CharClass::Ident => is_ident_char(c),
            CharClass::Bin => is_bin_int_char(c),
            CharClass::Hexa => is_hexa_int_char(c),
            CharClass::Line => c != '\n',
        }
    }
}

/// The first offset at or after `i` whose character is not in `class`, or
/// the length of `s` when the run reaches the end.
pub open spec fn scan_while(s: Seq<char>, i: int, class: CharClass) -> int
    decreases s.len() - i,
{
    if 0 <= i < s.len() && class.holds(s[i]) {
        scan_while(s, i + 1, class)
    } else {
        i
    }
}

/// The token kind of a character that is a token by itself. The dash is not
/// among them: it may start a comment.
pub open spec fn punctuation(c: char) -> Option<TkKind> {
    if c == ':' {
        Some(TkKind::Colon)
    } else if c == '=' {
        Some(TkKind::Equals)
    } else if c == '(' {
        Some(TkKind::Lpar)
    } else if c == ')' {
        Some(TkKind::Rpar)
    } else if c == '{' {
        Some(TkKind::Lbrace)
    } else if c == '}' {
        Some(TkKind::Rbrace)
    } else if c == '[' {
        Some(TkKind::Lbracket)
    } else if c == ']' {
        Some(TkKind::Rbracket)
    } else if c == '|' {
        Some(TkKind::Bar)
    } else if c == '@' {
        Some(TkKind::At)
    } else if c == '$' {
        Some(TkKind::Dollar)
    } else if c == '<' {
        Some(TkKind::LT)
    } else if c == '>' {
        Some(TkKind::GT)
    } else if c == '.' {
        Some(TkKind::Dot)
    } else if c == ',' {
        Some(TkKind::Comma)
    } else if c == '+' {
        Some(TkKind::Plus)
    } else if c == '*' {
        Some(TkKind::Star)
    } else if c == '/' {
        Some(TkKind::Slash)
    } else if c == '%' {
        Some(TkKind::Percent)
    } else {
        None
    }
}

/// Where the string literal whose body starts at `i` ends: just after the
/// first double quote that is not written `/"`. Nothing when the text ends
/// first.
pub open spec fn string_end(s: Seq<char>, i: int) -> Option<int>
    decreases s.len() - i,
{
    if i < 0 || i >= s.len() {
        None
    } else if s[i] == '/' && i + 1 < s.len() && s[i + 1] == '"' {
        string_end(s, i + 2)
    } else if s[i] == '"' {
        Some(i + 1)
    } else {
        string_end(s, i + 1)
    }
}

/// Where the block comment that is `depth` levels deep at `i` ends. Block
/// comments nest: each `-{` inside the comment opens a level and each `}-`
/// closes one, and the comment ends with the `}-` that closes the first
/// level. Nothing when the text ends first.
pub open spec fn comment_end(s: Seq<char>, i: int, depth: nat) -> Option<int>
    decreases s.len() - i,
{
    if i < 0 || i >= s.len() || depth == 0 {
        None
    } else if s[i] == '}' && i + 1 < s.len() && s[i + 1] == '-' {
        if depth == 1 {
            Some(i + 2)
        } else {
            comment_end(s, i + 2, (depth - 1) as nat)
        }
    } else if s[i] == '-' && i + 1 < s.len() && s[i + 1] == '{' {
        comment_end(s, i + 2, depth + 1)
    } else {
        comment_end(s, i + 1, depth)
    }
}

/// Whether `c` is a sign that may follow an exponent mark.
pub open spec fn is_sign(c: char) -> bool {
    c == '-' || c == '+'
}

/// Where the decimal literal that continues at `i` ends: the run of digits,
/// decimal points and exponent marks, each exponent mark taking along a sign
/// that follows it.
pub open spec fn number_end(s: Seq<char>, i: int) -> int
    decreases s.len() - i,
{
    if 0 <= i < s.len() && is_number_char(s[i]) {
        if (s[i] == 'e' || s[i] == 'E') && i + 1 < s.len() && is_sign(s[i + 1]) {
            number_end(s, i + 2)
        } else {
            number_end(s, i + 1)
        }
    } else {
        i
    }
}

/// Whether a decimal point or an exponent mark stands in `s` from `from` up
/// to `to`.
pub open spec fn has_float_mark(s: Seq<char>, from: int, to: int) -> bool
    decreases to - from,
{
    if from >= to || to > s.len() || from < 0 {
        false
    } else {
        is_float_mark(s[to - 1]) || has_float_mark(s, from, to - 1)
    }
}

/// What stands at an offset of the text: a token of some kind that ends at
/// some offset, or a string or block comment that the text ends in.
pub enum Lexeme {
    Token(TkKind, int),
    Unterminated,
}

/// The lexeme that starts at `i`, where a character that is not white space
/// stands.
pub open spec fn lexeme_at(s: Seq<char>, i: int) -> Lexeme
    recommends
        0 <= i < s.len(),
{
    let c = s[i];
    if punctuation(c) is Some {
        Lexeme::Token(punctuation(c)->0, i + 1)
    } else if c == '"' {
        match string_end(s, i + 1) {
            Some(e) => Lexeme::Token(TkKind::Litteral(Lit::StringLit), e),
            None => Lexeme::Unterminated,
        }
    } else if c == '-' {
        if i + 1 < s.len() && s[i + 1] == '-' {
            Lexeme::Token(TkKind::Comment, scan_while(s, i + 1, CharClass::Line))
        } else if i + 1 < s.len() && s[i + 1] == '{' {
            match comment_end(s, i + 2, 1) {
                Some(e) => Lexeme::Token(TkKind::Comment, e),
                None => Lexeme::Unterminated,
            }
        } else {
            Lexeme::Token(TkKind::Dash, i + 1)
        }
    } else if c == '_' {
        Lexeme::Token(TkKind::Ident, scan_while(s, i + 1, CharClass::Ident))
    } else if char_is_alphabetic(c) {
        let e = scan_while(s, i + 1, CharClass::Ident);
        match Kw::of(s.subrange(i, e)) {
            Some(kw) => Lexeme::Token(TkKind::KeyWord(kw), e),
            None => Lexeme::Token(TkKind::Ident, e),
        }
    } else if c == '0' && i + 1 < s.len() && s[i + 1] == 'b' {
        Lexeme::Token(TkKind::Litteral(Lit::Int), scan_while(s, i + 2, CharClass::Bin))
    } else if c == '0' && i + 1 < s.len() && s[i + 1] == 'x' {
        Lexeme::Token(TkKind::Litteral(Lit::Int), scan_while(s, i + 2, CharClass::Hexa))
    } else if char_is_numeric(c) {
        let e = number_end(s, i + 1);
        if has_float_mark(s, i + 1, e) {
            Lexeme::Token(TkKind::Litteral(Lit::Float), e)
        } else {
            Lexeme::Token(TkKind::Litteral(Lit::Int), e)
        }
    } else {
        Lexeme::Token(TkKind::Unrecognized, i + 1)
    }
}

/// A token as the grammar sees it: its kind and the offsets where it starts
/// and ends.
pub struct TokenModel {
    pub kind: TkKind,
    pub start: int,
    pub end: int,
}

/// The tokens of a text and whether the text was read to its end.
pub struct LexOutcome {
    pub tokens: Seq<TokenModel>,
    pub complete: bool,
}

/// The tokens of `s` from the offset `i` on. Reading stops, incomplete, at a
/// string or block comment that the text ends in.
pub open spec fn lex_from(s: Seq<char>, i: int) -> LexOutcome
    decreases s.len() - i,
    via lex_from_decreases
{
    let j = scan_while(s, i, CharClass::Space);
    if i < 0 || j >= s.len() {
        LexOutcome { tokens: Seq::empty(), complete: true }
    } else {
        match lexeme_at(s, j) {
            Lexeme::Unterminated => LexOutcome { tokens: Seq::empty(), complete: false },
            Lexeme::Token(kind, end) => {
                let rest = lex_from(s, end);
                LexOutcome {
                    tokens: seq![TokenModel { kind, start: j, end }] + rest.tokens,
                    complete: rest.complete,
                }
            },
        }
    }
}

#[via_fn]
proof fn lex_from_decreases(s: Seq<char>, i: int) {
    let j = scan_while(s, i, CharClass::Space);
    if !(i < 0 || j >= s.len()) {
        lemma_scan_while(s, i, CharClass::Space);
        lemma_lexeme_at(s, j);
    }
}

/// The tokens of a whole text.
pub open spec fn lex_spec(s: Seq<char>) -> LexOutcome {
    lex_from(s, 0)
}

/// The span of a token of the text `s`.
pub open spec fn span_of(s: Seq<char>, t: TokenModel) -> Span {
    Span { start: Loc::at(s, t.start), end: Loc::at(s, t.end) }
}

/// The kinds of a sequence of tokens.
pub open spec fn kinds_of(tokens: Seq<TokenModel>) -> Seq<TkKind> {
    Seq::new(tokens.len(), |i: int| tokens[i].kind)
}

/// The spans of a sequence of tokens of the text `s`.
pub open spec fn spans_of(s: Seq<char>, tokens: Seq<TokenModel>) -> Seq<Span> {
    Seq::new(tokens.len(), |i: int| span_of(s, tokens[i]))
}

/// A run stays inside the text, holds only characters of its class and stops
/// at the first character outside the class.
pub proof fn lemma_scan_while(s: Seq<char>, i: int, class: CharClass)
    requires
        0 <= i <= s.len(),
    ensures
        i <= scan_while(s, i, class) <= s.len(),
        forall|k: int| i <= k < scan_while(s, i, class) ==> class.holds(#[trigger] s[k]),
        scan_while(s, i, class) < s.len() ==> !class.holds(s[scan_while(s, i, class)]),
    decreases s.len() - i,
{
    if i < s.len() && class.holds(s[i]) {
        lemma_scan_while(s, i + 1, class);
    }
}

/// A run from `i` ends at `j` when everything from `i` up to `j` is in the
/// class and `j` is the end of the text or holds a character outside it.
pub proof fn lemma_scan_while_ends(s: Seq<char>, i: int, j: int, class: CharClass)
    requires
        0 <= i <= j <= s.len(),
        forall|k: int| i <= k < j ==> class.holds(#[trigger] s[k]),
        j < s.len() ==> !class.holds(s[j]),
    ensures
        scan_while(s, i, class) == j,
    decreases j - i,
{
    if i < j {
        lemma_scan_while_ends(s, i + 1, j, class);
    }
}

/// A string literal ends after where its body starts and inside the text.
pub proof fn lemma_string_end(s: Seq<char>, i: int)
    requires
        0 <= i,
    ensures
        string_end(s, i) matches Some(e) ==> i < e <= s.len(),
    decreases s.len() - i,
{
    if i < s.len() {
        if s[i] == '/' && i + 1 < s.len() && s[i + 1] == '"' {
            lemma_string_end(s, i + 2);
        } else if s[i] != '"' {
            lemma_string_end(s, i + 1);
        }
    }
}

/// A block comment ends after where its body starts and inside the text.
pub proof fn lemma_comment_end(s: Seq<char>, i: int, depth: nat)
    requires
        0 <= i,
    ensures
        comment_end(s, i, depth) matches Some(e) ==> i < e <= s.len(),
    decreases s.len() - i,
{
    if i < s.len() && depth > 0 {
        if s[i] == '}' && i + 1 < s.len() && s[i + 1] == '-' {
            if depth > 1 {
                lemma_comment_end(s, i + 2, (depth - 1) as nat);
            }
        } else if s[i] == '-' && i + 1 < s.len() && s[i + 1] == '{' {
            lemma_comment_end(s, i + 2, depth + 1);
        } else {
            lemma_comment_end(s, i + 1, depth);
        }
    }
}

/// A decimal literal ends inside the text.
pub proof fn lemma_number_end(s: Seq<char>, i: int)
    requires
        0 <= i <= s.len(),
    ensures
        i <= number_end(s, i) <= s.len(),
    decreases s.len() - i,
{
    if i < s.len() && is_number_char(s[i]) {
        if (s[i] == 'e' || s[i] == 'E') && i + 1 < s.len() && is_sign(s[i + 1]) {
            lemma_number_end(s, i + 2);
        } else {
            lemma_number_end(s, i + 1);
        }
    }
}

/// Every token holds at least one character and ends inside the text.
pub proof fn lemma_lexeme_at(s: Seq<char>, i: int)
    requires
        0 <= i < s.len(),
    ensures
        lexeme_at(s, i) matches Lexeme::Token(_, e) ==> i < e <= s.len(),
{
    lemma_string_end(s, i + 1);
    lemma_comment_end(s, i + 2, 1);
    lemma_number_end(s, i + 1);
    lemma_scan_while(s, i + 1, CharClass::Line);
    lemma_scan_while(s, i + 1, CharClass::Ident);
    if i + 1 < s.len() {
        lemma_scan_while(s, i + 2, CharClass::Bin);
        lemma_scan_while(s, i + 2, CharClass::Hexa);
    }
}

} // verus!
