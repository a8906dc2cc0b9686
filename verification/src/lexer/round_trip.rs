//! The tokens of a text, put back together, give the text without the white
//! space between them.
use vstd::prelude::*;
use crate::utils::Loc;
use crate::lexer::chars::char_is_whitespace;
use crate::lexer::lexeme::{
    lemma_lexeme_at, lemma_scan_while, lex_from, lex_spec, lexeme_at, scan_while, CharClass,
    Lexeme, TokenModel,
};
use crate::lexer::LexedModel;

verus! {

/// The test that keeps every character but white space.
pub open spec fn not_space() -> spec_fn(char) -> bool {
    |c: char| !char_is_whitespace(c)
}

/// Whether the tokens are in order, do not overlap, and lie in the text from
/// `from` on.
pub open spec fn tokens_in_order(s: Seq<char>, tokens: Seq<TokenModel>, from: int) -> bool {
    &&& forall|i: int|
        0 <= i < tokens.len() ==> from <= (#[trigger] tokens[i]).start < tokens[i].end <= s.len()
    &&& forall|i: int, j: int|
        0 <= i < j < tokens.len() ==> (#[trigger] tokens[i]).end <= (#[trigger] tokens[j]).start
}

/// Whether none of the tokens holds white space.
pub open spec fn tokens_free_of_space(s: Seq<char>, tokens: Seq<TokenModel>) -> bool {
    forall|i: int, k: int|
        0 <= i < tokens.len() && (#[trigger] tokens[i]).start <= k < tokens[i].end
            ==> !char_is_whitespace(#[trigger] s[k])
}

/// The texts of the tokens, one after the other.
pub open spec fn token_texts(s: Seq<char>, tokens: Seq<TokenModel>) -> Seq<char>
    decreases tokens.len(),
{
    if tokens.len() == 0 {
        Seq::empty()
    } else {
        s.subrange(tokens[0].start, tokens[0].end) + token_texts(s, tokens.drop_first())
    }
}

impl LexedModel {
    /// The texts of the tokens from the token `from` on, one after the other.
    pub open spec fn texts_from(self, from: int) -> Seq<char>
        decreases self.spans.len() - from,
    {
        if from < 0 || from >= self.spans.len() {
            Seq::empty()
        } else {
            self.text(from) + self.texts_from(from + 1)
        }
    }

    /// Whether none of the tokens holds white space.
    pub open spec fn free_of_space(self) -> bool {
        forall|i: int, k: int|
            0 <= i < self.spans.len() && (#[trigger] self.spans[i]).start.pos <= k
                < self.spans[i].end.pos ==> !char_is_whitespace(#[trigger] self.source[k])
    }
}

proof fn lemma_filter_keeps_all(a: Seq<char>, pred: spec_fn(char) -> bool)
    requires
        forall|i: int| 0 <= i < a.len() ==> pred(#[trigger] a[i]),
    ensures
        a.filter(pred) == a,
    decreases a.len(),
{
    reveal(Seq::filter);
    if a.len() > 0 {
        lemma_filter_keeps_all(a.drop_last(), pred);
        assert(a.drop_last().push(a.last()) =~= a);
    }
}

proof fn lemma_filter_drops_all(a: Seq<char>, pred: spec_fn(char) -> bool)
    requires
        forall|i: int| 0 <= i < a.len() ==> !pred(#[trigger] a[i]),
    ensures
        a.filter(pred) == Seq::<char>::empty(),
    decreases a.len(),
{
    reveal(Seq::filter);
    if a.len() > 0 {
        lemma_filter_drops_all(a.drop_last(), pred);
    }
}

/// The tokens read from `i` on are in order, do not overlap, and lie in the
/// text from `i` on.
pub proof fn lemma_tokens_in_order(s: Seq<char>, i: int)
    requires
        0 <= i <= s.len(),
    ensures
        tokens_in_order(s, lex_from(s, i).tokens, i),
    decreases s.len() - i,
{
    let j = scan_while(s, i, CharClass::Space);
    lemma_scan_while(s, i, CharClass::Space);
    if j < s.len() {
        lemma_lexeme_at(s, j);
        match lexeme_at(s, j) {
            Lexeme::Unterminated => {},
            Lexeme::Token(kind, end) => {
                lemma_tokens_in_order(s, end);
                let rest = lex_from(s, end).tokens;
                let all = lex_from(s, i).tokens;
                assert(all == seq![TokenModel { kind, start: j, end }] + rest);
                assert forall|a: int| 0 <= a < all.len() implies i <= (#[trigger] all[a]).start
                    < all[a].end <= s.len() by {
                    if a > 0 {
                        assert(all[a] == rest[a - 1]);
                    }
                }
                assert forall|a: int, b: int| 0 <= a < b < all.len() implies (#[trigger] all[a]).end
                    <= (#[trigger] all[b]).start by {
                    assert(all[b] == rest[b - 1]);
                    if a > 0 {
                        assert(all[a] == rest[a - 1]);
                    }
                }
            },
        }
    }
}

/// Where the tokens hold no white space, their texts put together are the
/// text from `i` on without its white space.
proof fn lemma_round_trip_from(s: Seq<char>, i: int)
    requires
        0 <= i <= s.len(),
        lex_from(s, i).complete,
        tokens_free_of_space(s, lex_from(s, i).tokens),
    ensures
        token_texts(s, lex_from(s, i).tokens) == s.subrange(i, s.len() as int).filter(not_space()),
    decreases s.len() - i,
{
    let n = s.len() as int;
    let j = scan_while(s, i, CharClass::Space);
    lemma_scan_while(s, i, CharClass::Space);
    let gap = s.subrange(i, j);
    assert(s.subrange(i, n) =~= gap + s.subrange(j, n));
    Seq::filter_distributes_over_add(gap, s.subrange(j, n), not_space());
    assert forall|k: int| 0 <= k < gap.len() implies !not_space()(#[trigger] gap[k]) by {
        assert(gap[k] == s[i + k]);
    }
    lemma_filter_drops_all(gap, not_space());
    assert(Seq::<char>::empty() + s.subrange(j, n).filter(not_space()) =~= s.subrange(
        j,
        n,
    ).filter(not_space()));
    if j >= n {
        assert(s.subrange(j, n) =~= Seq::<char>::empty());
        lemma_filter_drops_all(s.subrange(j, n), not_space());
    } else {
        lemma_lexeme_at(s, j);
        match lexeme_at(s, j) {
            Lexeme::Unterminated => {},
            Lexeme::Token(kind, end) => {
                let tok = TokenModel { kind, start: j, end };
                let rest = lex_from(s, end).tokens;
                let all = lex_from(s, i).tokens;
                assert(all == seq![tok] + rest);
                assert(all[0] == tok);
                assert(all.drop_first() =~= rest);
                assert forall|a: int, k: int|
                    0 <= a < rest.len() && (#[trigger] rest[a]).start <= k
                        < rest[a].end implies !char_is_whitespace(#[trigger] s[k]) by {
                    assert(all[a + 1] == rest[a]);
                }
                lemma_round_trip_from(s, end);
                let word = s.subrange(j, end);
                assert(s.subrange(j, n) =~= word + s.subrange(end, n));
                Seq::filter_distributes_over_add(word, s.subrange(end, n), not_space());
                assert forall|k: int| 0 <= k < word.len() implies not_space()(#[trigger] word[k]) by {
                    assert(word[k] == s[j + k]);
                    assert(all[0].start <= j + k < all[0].end);
                }
                lemma_filter_keeps_all(word, not_space());
            },
        }
    }
}

/// The buffer of the tokens `tokens` holds, as the text of each token, the
/// characters between its two offsets.
proof fn lemma_texts(s: Seq<char>, tokens: Seq<TokenModel>, from: int)
    requires
        s.len() <= usize::MAX,
        tokens_in_order(s, tokens, 0),
        0 <= from <= tokens.len(),
    ensures
        LexedModel::of(s, tokens).texts_from(from) == token_texts(
            s,
            tokens.subrange(from, tokens.len() as int),
        ),
    decreases tokens.len() - from,
{
    let m = LexedModel::of(s, tokens);
    let tail = tokens.subrange(from, tokens.len() as int);
    if from < tokens.len() {
        lemma_texts(s, tokens, from + 1);
        assert(tail.drop_first() =~= tokens.subrange(from + 1, tokens.len() as int));
        assert(tail[0] == tokens[from]);
        Loc::lemma_at(s, tokens[from].start);
        Loc::lemma_at(s, tokens[from].end);
    }
}

/// Round trip: when a text is read to its end and none of its tokens holds
/// white space, as is the case of a text made of symbols, identifiers and
/// numbers with white space between them, the texts of its tokens, one
/// after the other, are the text without its white space.
pub proof fn lemma_round_trip(s: Seq<char>)
    requires
        s.len() <= usize::MAX,
        lex_spec(s).complete,
        LexedModel::of(s, lex_spec(s).tokens).free_of_space(),
    ensures
        LexedModel::of(s, lex_spec(s).tokens).texts_from(0) == s.filter(not_space()),
{
    let tokens = lex_spec(s).tokens;
    let m = LexedModel::of(s, tokens);
    lemma_tokens_in_order(s, 0);
    assert forall|i: int, k: int|
        0 <= i < tokens.len() && (#[trigger] tokens[i]).start <= k
            < tokens[i].end implies !char_is_whitespace(#[trigger] s[k]) by {
        Loc::lemma_at(s, tokens[i].start);
        Loc::lemma_at(s, tokens[i].end);
        assert(m.spans[i] == crate::lexer::lexeme::span_of(s, tokens[i]));
        assert(m.spans[i].start.pos == tokens[i].start);
        assert(m.spans[i].end.pos == tokens[i].end);
        assert(m.source[k] == s[k]);
    }
    lemma_round_trip_from(s, 0);
    lemma_texts(s, tokens, 0);
    assert(tokens.subrange(0, tokens.len() as int) =~= tokens);
    assert(s.subrange(0, s.len() as int) =~= s);
}

/// Between the tokens of a text stands nothing but white space: every
/// character of a text that was read to its end is white space or belongs
/// to a token.
pub proof fn lemma_gaps_are_space(s: Seq<char>, k: int)
    requires
        lex_spec(s).complete,
        0 <= k < s.len(),
        !char_is_whitespace(s[k]),
    ensures
        exists|i: int|
            0 <= i < lex_spec(s).tokens.len() && (#[trigger] lex_spec(s).tokens[i]).start <= k
                < lex_spec(s).tokens[i].end,
{
    lemma_covered_from(s, 0, k);
}

proof fn lemma_covered_from(s: Seq<char>, i: int, k: int)
    requires
        0 <= i <= k < s.len(),
        lex_from(s, i).complete,
        !char_is_whitespace(s[k]),
    ensures
        exists|a: int|
            0 <= a < lex_from(s, i).tokens.len() && (#[trigger] lex_from(s, i).tokens[a]).start
                <= k < lex_from(s, i).tokens[a].end,
    decreases s.len() - i,
{
    let j = scan_while(s, i, CharClass::Space);
    lemma_scan_while(s, i, CharClass::Space);
    assert(j <= k) by {
        if k < j {
            assert(CharClass::Space.holds(s[k]));
        }
    }
    lemma_lexeme_at(s, j);
    match lexeme_at(s, j) {
        Lexeme::Unterminated => {},
        Lexeme::Token(kind, end) => {
            let tok = TokenModel { kind, start: j, end };
            let rest = lex_from(s, end).tokens;
            let all = lex_from(s, i).tokens;
            assert(all == seq![tok] + rest);
            if k < end {
                assert(all[0] == tok);
            } else {
                lemma_covered_from(s, end, k);
                let a = choose|a: int|
                    0 <= a < rest.len() && (#[trigger] rest[a]).start <= k < rest[a].end;
                assert(all[a + 1] == rest[a]);
            }
        },
    }
}

} // verus!
