//! Parsers of literal values, and the reading of number literals.
use vstd::prelude::*;
use crate::ast::expr::{Value, ValueModel};
use crate::lexer::cursor::chars_of;
use crate::lexer::token::{Lit, TkKind};
use crate::lexer::LexedModel;
use crate::parser::combinator::lemma_restore_extended;
use crate::parser::grammar::{kind_at, mismatch_at};
use crate::parser::parsetree::NodeKind;
use crate::parser::state::{Node, ParserState, StateModel};
use crate::parser::{first_of, ParseError, ParserRes};

verus! {

/// The value of `c` as a digit, for the digits and the letters up to `f`.
pub open spec fn digit_of(c: char) -> nat {
    if '0' <= c && c <= '9' {
        (c as nat - '0' as nat) as nat
    } else if 'a' <= c && c <= 'f' {
        (c as nat - 'a' as nat + 10) as nat
    } else if 'A' <= c && c <= 'F' {
        (c as nat - 'A' as nat + 10) as nat
    } else {
        0
    }
}

/// Whether `c` is a digit in the base `radix`, which is 2, 10 or 16.
pub open spec fn is_digit_of(c: char, radix: nat) -> bool {
    (('0' <= c && c <= '9') || ('a' <= c && c <= 'f') || ('A' <= c && c <= 'F')) && digit_of(c)
        < radix
}

/// Whether `s` is made of digits in the base `radix`.
pub open spec fn all_digits(s: Seq<char>, radix: nat) -> bool {
    forall|i: int| 0 <= i < s.len() ==> is_digit_of(#[trigger] s[i], radix)
}

/// The number that the digits `s` write in the base `radix`.
pub open spec fn number_of(s: Seq<char>, radix: nat) -> nat
    decreases s.len(),
{
    if s.len() == 0 {
        0
    } else {
        number_of(s.drop_last(), radix) * radix + digit_of(s.last())
    }
}

/// The integer that `s` writes in the base `radix`: `s` holds at least one
/// digit, only digits, and the number fits in 64 bits.
pub open spec fn radix_literal(s: Seq<char>, radix: nat) -> Option<i64> {
    if s.len() > 0 && all_digits(s, radix) && number_of(s, radix) <= i64::MAX {
        Some(number_of(s, radix) as i64)
    } else {
        None
    }
}

/// Whether `s` starts with the zero and the letter `mark` that announce a
/// base.
pub open spec fn has_prefix(s: Seq<char>, mark: char) -> bool {
    s.len() >= 2 && s[0] == '0' && s[1] == mark
}

/// The value of an integer literal. The text is read as a decimal number
/// first. Where that cannot be done, a text that starts with `0x` is read
/// as a hexadecimal number and one that starts with `0b` as a binary
/// number. A literal that is none of these, or too large, has no value.
pub open spec fn int_literal(text: Seq<char>) -> Option<i64> {
    if radix_literal(text, 10) is Some {
        radix_literal(text, 10)
    } else if has_prefix(text, 'x') {
        radix_literal(text.skip(2), 16)
    } else if has_prefix(text, 'b') {
        radix_literal(text.skip(2), 2)
    } else {
        None
    }
}

/// Writing more digits does not make a number smaller.
pub proof fn lemma_number_grows(s: Seq<char>, radix: nat, n: int)
    requires
        radix >= 1,
        0 <= n <= s.len(),
    ensures
        number_of(s.take(n), radix) <= number_of(s, radix),
    decreases s.len(),
{
    if n < s.len() {
        lemma_number_grows(s.drop_last(), radix, n);
        assert(s.drop_last().take(n) =~= s.take(n));
        assert(number_of(s.drop_last(), radix) * radix >= number_of(s.drop_last(), radix))
            by (nonlinear_arith)
            requires
                radix >= 1,
        ;
    } else {
        assert(s.take(n) =~= s);
    }
}

/// The value of `c` as a digit in the base `radix`, if it is one.
fn digit(c: char, radix: u64) -> (r: Option<u64>)
    requires
        radix == 2 || radix == 10 || radix == 16,
    ensures
        match r {
            Some(d) => is_digit_of(c, radix as nat) && d == digit_of(c) && d < radix,
            None => !is_digit_of(c, radix as nat),
        },
{
    let d: u64 = if '0' <= c && c <= '9' {
        (c as u64) - ('0' as u64)
    } else if 'a' <= c && c <= 'f' {
        (c as u64) - ('a' as u64) + 10
    } else if 'A' <= c && c <= 'F' {
        (c as u64) - ('A' as u64) + 10
    } else {
        return None;
    };
    if d < radix {
        Some(d)
    } else {
        None
    }
}

/// Reads the digits of `chars` from `from` on in the base `radix`.
pub fn read_radix(chars: &Vec<char>, from: usize, radix: u64) -> (r: Option<i64>)
    requires
        radix == 2 || radix == 10 || radix == 16,
        from <= chars.len(),
    ensures
        r == radix_literal(chars@.skip(from as int), radix as nat),
{
    let ghost s = chars@.skip(from as int);
    if from == chars.len() {
        return None;
    }
    let mut acc: u64 = 0;
    let mut i: usize = from;
    while i < chars.len()
        invariant
            radix == 2 || radix == 10 || radix == 16,
            from <= i <= chars.len(),
            s == chars@.skip(from as int),
            all_digits(s.take(i - from), radix as nat),
            acc == number_of(s.take(i - from), radix as nat),
            acc <= i64::MAX,
        decreases chars.len() - i,
    {
        let ghost k = i - from;
        proof {
            assert(s[k] == chars@[i as int]);
            assert(s.take(k + 1).drop_last() =~= s.take(k));
            assert(s.take(k + 1).last() == s[k]);
        }
        match digit(chars[i], radix) {
            None => {
                proof {
                    assert(!is_digit_of(s[k], radix as nat));
                }
                return None;
            },
            Some(d) => {
                let room: u64 = i64::MAX as u64 - d;
                let limit: u64 = room / radix;
                if acc > limit {
                    proof {
                        assert(acc * radix + d > i64::MAX) by (nonlinear_arith)
                            requires
                                acc > limit,
                                limit == room as int / radix as int,
                                room == i64::MAX - d,
                                radix >= 2,
                        ;
                        lemma_number_grows(s, radix as nat, k + 1);
                    }
                    return None;
                }
                proof {
                    assert(acc * radix + d <= i64::MAX) by (nonlinear_arith)
                        requires
                            acc <= limit,
                            limit == room as int / radix as int,
                            room == i64::MAX - d,
                            radix >= 2,
                    ;
                    assert forall|j: int| 0 <= j < k + 1 implies is_digit_of(
                        #[trigger] s.take(k + 1)[j],
                        radix as nat,
                    ) by {
                        if j < k {
                            assert(s.take(k)[j] == s.take(k + 1)[j]);
                        }
                    }
                }
                acc = acc * radix + d;
                i = i + 1;
            },
        }
    }
    proof {
        assert(s.take(i - from) =~= s);
    }
    Some(acc as i64)
}

/// Reads an integer literal.
pub fn read_int(text: &str) -> (r: Option<i64>)
    ensures
        r == int_literal(text@),
{
    let chars = chars_of(text);
    proof {
        assert(chars@.skip(0) =~= chars@);
    }
    match read_radix(&chars, 0, 10) {
        Some(v) => Some(v),
        None => {
            if chars.len() >= 2 && chars[0] == '0' && chars[1] == 'x' {
                read_radix(&chars, 2, 16)
            } else if chars.len() >= 2 && chars[0] == '0' && chars[1] == 'b' {
                read_radix(&chars, 2, 2)
            } else {
                None
            }
        },
    }
}

/// The reading of float literals, as a function of the text of the literal:
/// the bit pattern of the double, or nothing where the text is not a float.
pub type FloatReader = spec_fn(Seq<char>) -> Option<u64>;

/// Whether `g`, called on a text whose characters are `t`, can only return
/// what `floats` gives for `t`.
pub open spec fn pinned_text<G: Fn(&str) -> Option<u64>>(
    g: &G,
    floats: FloatReader,
    t: Seq<char>,
) -> bool {
    forall|s: &str, r: Option<u64>| s@ == t && call_ensures(*g, (s,), r) ==> r == floats(t)
}

/// Whether `g` can only return what `floats` gives on the float literals of
/// `buf`. It does for every `floats` where `buf` holds no float literal.
pub open spec fn reads_buffer<G: Fn(&str) -> Option<u64>>(
    g: &G,
    floats: FloatReader,
    buf: LexedModel,
) -> bool {
    forall|h: int|
        0 <= h < buf.kinds.len() && #[trigger] buf.kinds[h] == TkKind::Litteral(Lit::Float)
            ==> pinned_text(g, floats, buf.text(h))
}

/// Whether what `g` returns depends on the characters of its argument
/// alone.
pub open spec fn reads_text<G: Fn(&str) -> Option<u64>>(g: &G) -> bool {
    forall|s1: &str, s2: &str, r1: Option<u64>, r2: Option<u64>|
        s1@ == s2@ && call_ensures(*g, (s1,), r1) && call_ensures(*g, (s2,), r2) ==> r1 == r2
}

/// Whether `g` may be called on every text.
pub open spec fn accepts_text<G: Fn(&str) -> Option<u64>>(g: &G) -> bool {
    forall|s: &str| call_requires(*g, (s,))
}

/// The function that `g` computes, where what `g` returns depends on the
/// characters of its argument alone.
pub open spec fn float_reader<G: Fn(&str) -> Option<u64>>(g: &G) -> FloatReader {
    |t: Seq<char>|
        (choose|s: &str, r: Option<u64>| s@ == t && #[trigger] call_ensures(*g, (s,), r)).1
}

/// A reader whose result depends on the characters of its argument alone
/// reads every buffer as the function that it computes.
pub proof fn lemma_reader_reads<G: Fn(&str) -> Option<u64>>(g: &G, buf: LexedModel)
    requires
        reads_text(g),
    ensures
        reads_buffer(g, float_reader(g), buf),
{
    assert forall|t: Seq<char>| pinned_text(g, float_reader(g), t) by {
        assert forall|s: &str, r: Option<u64>| s@ == t && call_ensures(*g, (s,), r) implies r
            == float_reader(g)(t) by {
            let pair = choose|s2: &str, r2: Option<u64>|
                s2@ == t && #[trigger] call_ensures(*g, (s2,), r2);
            assert(pair.0@ == t && call_ensures(*g, (pair.0,), pair.1));
        }
    }
}

/// What a parser that builds something writes: what it builds, the nodes
/// that it adds to the output stream, and the handle of the token after the
/// last one it consumed.
pub type Built<T> = (T, Seq<Node>, nat);

/// Whether a parser of values, run on `pre`, did what `expected` says.
pub open spec fn builds_value(
    pre: StateModel,
    post: StateModel,
    r: ParserRes<Value>,
    expected: Result<Built<ValueModel>, ParseError>,
) -> bool {
    match expected {
        Ok((value, nodes, end)) => (r matches ParserRes::Succ(v) && v@ == value) && post == (
        StateModel { out: pre.out + nodes, ..pre }) && post.cursor() == end,
        Err(e) => (r matches ParserRes::Fail(x) && x == e) && post == pre,
    }
}

/// `'(' ')'`: the unit value.
pub open spec fn unit_tree(kinds: Seq<TkKind>, pos: nat) -> Result<Built<ValueModel>, ParseError> {
    if kind_at(kinds, pos) != Some(TkKind::Lpar) {
        Err(mismatch_at(kinds, pos, Some(TkKind::Lpar)))
    } else if kind_at(kinds, pos + 1) != Some(TkKind::Rpar) {
        Err(mismatch_at(kinds, pos + 1, Some(TkKind::Rpar)))
    } else {
        Ok(
            (
                ValueModel::Unit,
                seq![(NodeKind::AtomEnd, (pos + 1) as usize, true), (NodeKind::AtomBegin, pos as usize, true)],
                pos + 2,
            ),
        )
    }
}

/// An integer literal and its value.
pub open spec fn int_tree(buf: LexedModel, pos: nat) -> Result<Built<ValueModel>, ParseError> {
    if kind_at(buf.kinds, pos) != Some(TkKind::Litteral(Lit::Int)) {
        Err(mismatch_at(buf.kinds, pos, Some(TkKind::Litteral(Lit::Int))))
    } else {
        match int_literal(buf.text(pos as int)) {
            Some(v) => Ok((ValueModel::Int(v), seq![(NodeKind::Number, pos as usize, true)], pos + 1)),
            None => Err(ParseError::InvalidLiteral { at: pos as usize }),
        }
    }
}

/// Whether `read` may be what `g` returns for the text of the float
/// literal at `pos`. Where no float literal stands at `pos`, `g` is not
/// asked, and anything may.
pub open spec fn may_read<G: Fn(&str) -> Option<u64>>(
    g: &G,
    buf: LexedModel,
    pos: nat,
    read: Option<u64>,
) -> bool {
    kind_at(buf.kinds, pos) == Some(TkKind::Litteral(Lit::Float)) ==> exists|s: &str|
        s@ == buf.text(pos as int) && #[trigger] call_ensures(*g, (s,), read)
}

/// A float literal and its value, where `read` is what the reader gave for
/// the text of the literal: the bit pattern, or nothing for a text that is
/// no float.
pub open spec fn float_tree_given(buf: LexedModel, pos: nat, read: Option<u64>) -> Result<
    Built<ValueModel>,
    ParseError,
> {
    if kind_at(buf.kinds, pos) != Some(TkKind::Litteral(Lit::Float)) {
        Err(mismatch_at(buf.kinds, pos, Some(TkKind::Litteral(Lit::Float))))
    } else {
        match read {
            Some(bits) => Ok(
                (ValueModel::Float(bits), seq![(NodeKind::Number, pos as usize, true)], pos + 1),
            ),
            None => Err(ParseError::InvalidLiteral { at: pos as usize }),
        }
    }
}

/// A float literal and its value, as `floats` reads it.
pub open spec fn float_tree(buf: LexedModel, floats: FloatReader, pos: nat) -> Result<
    Built<ValueModel>,
    ParseError,
> {
    float_tree_given(buf, pos, floats(buf.text(pos as int)))
}

/// `int | float`, where `read` is what the reader gave for a float literal
/// at `pos`.
pub open spec fn number_tree_given(buf: LexedModel, pos: nat, read: Option<u64>) -> Result<
    Built<ValueModel>,
    ParseError,
> {
    first_of(int_tree(buf, pos), float_tree_given(buf, pos, read))
}

/// `int | float`.
pub open spec fn number_tree(buf: LexedModel, floats: FloatReader, pos: nat) -> Result<
    Built<ValueModel>,
    ParseError,
> {
    number_tree_given(buf, pos, floats(buf.text(pos as int)))
}

/// `unit | int | float`, where `read` is what the reader gave for a float
/// literal at `pos`.
pub open spec fn value_tree_given(buf: LexedModel, pos: nat, read: Option<u64>) -> Result<
    Built<ValueModel>,
    ParseError,
> {
    first_of(unit_tree(buf.kinds, pos), number_tree_given(buf, pos, read))
}

/// `unit | int | float`.
pub open spec fn value_tree(buf: LexedModel, floats: FloatReader, pos: nat) -> Result<
    Built<ValueModel>,
    ParseError,
> {
    value_tree_given(buf, pos, floats(buf.text(pos as int)))
}

/// Parses the unit value, `()`.
pub fn unit_parser(state: &mut ParserState) -> (r: ParserRes<Value>)
    requires
        old(state).wf(),
    ensures
        final(state).wf(),
        r is Succ ==> old(state)@.wrote(final(state)@) && final(state)@.cursor() > old(
            state,
        )@.cursor(),
        builds_value(
            old(state)@,
            final(state)@,
            r,
            unit_tree(old(state)@.input.kinds, old(state)@.cursor()),
        ),
{
    let ghost pre = state@;
    let ghost pos = state@.cursor();
    let save = state.save();
    if !state.is_kind(TkKind::Lpar) {
        return ParserRes::Fail(state.mismatch(Some(TkKind::Lpar)));
    }
    state.stack_node(NodeKind::AtomBegin);
    if !state.is_kind(TkKind::Rpar) {
        let e = state.mismatch(Some(TkKind::Rpar));
        proof {
            lemma_restore_extended(pre, state@);
        }
        state.restore(save);
        return ParserRes::Fail(e);
    }
    state.push_node(NodeKind::AtomEnd);
    state.pop_node();
    proof {
        assert(state@.stack =~= pre.stack);
        assert(state@.out =~= pre.out + seq![
            (NodeKind::AtomEnd, (pos + 1) as usize, true),
            (NodeKind::AtomBegin, pos as usize, true),
        ]);
    }
    ParserRes::Succ(Value::Unit)
}

/// Parses an integer literal: decimal, as `42`; hexadecimal, as `0xffa3b2`;
/// or binary, as `0b101001`.
pub fn int_parser(state: &mut ParserState) -> (r: ParserRes<Value>)
    requires
        old(state).wf(),
    ensures
        final(state).wf(),
        r is Succ ==> old(state)@.wrote(final(state)@) && final(state)@.cursor() > old(
            state,
        )@.cursor(),
        builds_value(
            old(state)@,
            final(state)@,
            r,
            int_tree(old(state)@.input, old(state)@.cursor()),
        ),
{
    proof {
        state.lemma_wf();
    }
    if !state.is_kind(TkKind::Litteral(Lit::Int)) {
        return ParserRes::Fail(state.mismatch(Some(TkKind::Litteral(Lit::Int))));
    }
    let at = state.cursor();
    let text = state.input().get_token_txt(at);
    match read_int(text.as_str()) {
        None => ParserRes::Fail(ParseError::InvalidLiteral { at }),
        Some(v) => {
            state.push_node(NodeKind::Number);
            proof {
                assert(state@.out =~= old(state)@.out + seq![(NodeKind::Number, at, true)]);
            }
            ParserRes::Succ(Value::Int(v))
        },
    }
}

/// Parses a float literal, as `0.5` or `5.2e-6`; `floats` reads its text.
/// Whatever `floats` gives for the text is the value of the literal, and a
/// text for which it gives nothing is an invalid literal.
pub fn float_parser<G: Fn(&str) -> Option<u64>>(state: &mut ParserState, floats: &G) -> (r:
    ParserRes<Value>)
    requires
        old(state).wf(),
        accepts_text(floats),
    ensures
        final(state).wf(),
        r is Fail ==> final(state)@ == old(state)@,
        r is Succ ==> old(state)@.wrote(final(state)@) && final(state)@.cursor() > old(
            state,
        )@.cursor(),
        exists|read: Option<u64>|
            may_read(floats, old(state)@.input, old(state)@.cursor(), read) && #[trigger]
            builds_value(
                old(state)@,
                final(state)@,
                r,
                float_tree_given(old(state)@.input, old(state)@.cursor(), read),
            ),
        forall|fl: FloatReader| #[trigger]
            reads_buffer(floats, fl, old(state)@.input) ==> builds_value(
                old(state)@,
                final(state)@,
                r,
                float_tree(old(state)@.input, fl, old(state)@.cursor()),
            ),
{
    let ghost pre = state@;
    let ghost pos = state@.cursor();
    proof {
        state.lemma_wf();
    }
    if !state.is_kind(TkKind::Litteral(Lit::Float)) {
        let r = ParserRes::Fail(state.mismatch(Some(TkKind::Litteral(Lit::Float))));
        proof {
            let none: Option<u64> = None;
            assert(may_read(floats, pre.input, pos, none) && builds_value(
                pre,
                state@,
                r,
                float_tree_given(pre.input, pos, none),
            ));
        }
        return r;
    }
    let at = state.cursor();
    let text = state.input().get_token_txt(at);
    let shown: &str = text.as_str();
    let read = floats(shown);
    proof {
        let buf = state@.input;
        let t = buf.text(at as int);
        assert(shown@ == t && call_ensures(*floats, (shown,), read));
        assert(may_read(floats, buf, pos, read));
        assert forall|fl: FloatReader| #[trigger] reads_buffer(floats, fl, buf) implies read == fl(
            t,
        ) by {
            assert(buf.kinds[at as int] == TkKind::Litteral(Lit::Float));
            assert(pinned_text(floats, fl, t));
        }
    }
    let r = match read {
        None => ParserRes::Fail(ParseError::InvalidLiteral { at }),
        Some(bits) => {
            state.push_node(NodeKind::Number);
            proof {
                assert(state@.out =~= pre.out + seq![(NodeKind::Number, at, true)]);
            }
            ParserRes::Succ(Value::Float(bits))
        },
    };
    proof {
        assert(builds_value(pre, state@, r, float_tree_given(pre.input, pos, read)));
    }
    r
}

/// Parses either an integer or a float.
pub fn number_parser<G: Fn(&str) -> Option<u64>>(state: &mut ParserState, floats: &G) -> (r:
    ParserRes<Value>)
    requires
        old(state).wf(),
        accepts_text(floats),
    ensures
        final(state).wf(),
        r is Fail ==> final(state)@ == old(state)@,
        r is Succ ==> old(state)@.wrote(final(state)@) && final(state)@.cursor() > old(
            state,
        )@.cursor(),
        exists|read: Option<u64>|
            may_read(floats, old(state)@.input, old(state)@.cursor(), read) && #[trigger]
            builds_value(
                old(state)@,
                final(state)@,
                r,
                number_tree_given(old(state)@.input, old(state)@.cursor(), read),
            ),
        forall|fl: FloatReader| #[trigger]
            reads_buffer(floats, fl, old(state)@.input) ==> builds_value(
                old(state)@,
                final(state)@,
                r,
                number_tree(old(state)@.input, fl, old(state)@.cursor()),
            ),
{
    let ghost pre = state@;
    let ghost pos = state@.cursor();
    match int_parser(state) {
        ParserRes::Succ(v) => {
            let r = ParserRes::Succ(v);
            proof {
                let none: Option<u64> = None;
                assert(kind_at(pre.input.kinds, pos) == Some(TkKind::Litteral(Lit::Int)));
                assert(may_read(floats, pre.input, pos, none) && builds_value(
                    pre,
                    state@,
                    r,
                    number_tree_given(pre.input, pos, none),
                ));
            }
            r
        },
        ParserRes::Fail(e1) => {
            let res = float_parser(state, floats);
            let ghost read = choose|read: Option<u64>|
                may_read(floats, pre.input, pos, read) && #[trigger] builds_value(
                    pre,
                    state@,
                    res,
                    float_tree_given(pre.input, pos, read),
                );
            let r = match res {
                ParserRes::Succ(v) => ParserRes::Succ(v),
                ParserRes::Fail(e2) => ParserRes::Fail(e1.furthest(e2)),
            };
            proof {
                assert(may_read(floats, pre.input, pos, read) && builds_value(
                    pre,
                    state@,
                    r,
                    number_tree_given(pre.input, pos, read),
                ));
            }
            r
        },
    }
}

/// Parses a value: the unit, an integer or a float.
pub fn value_parser<G: Fn(&str) -> Option<u64>>(state: &mut ParserState, floats: &G) -> (r:
    ParserRes<Value>)
    requires
        old(state).wf(),
        accepts_text(floats),
    ensures
        final(state).wf(),
        r is Fail ==> final(state)@ == old(state)@,
        r is Succ ==> old(state)@.wrote(final(state)@) && final(state)@.cursor() > old(
            state,
        )@.cursor(),
        exists|read: Option<u64>|
            may_read(floats, old(state)@.input, old(state)@.cursor(), read) && #[trigger]
            builds_value(
                old(state)@,
                final(state)@,
                r,
                value_tree_given(old(state)@.input, old(state)@.cursor(), read),
            ),
        forall|fl: FloatReader| #[trigger]
            reads_buffer(floats, fl, old(state)@.input) ==> builds_value(
                old(state)@,
                final(state)@,
                r,
                value_tree(old(state)@.input, fl, old(state)@.cursor()),
            ),
{
    let ghost pre = state@;
    let ghost pos = state@.cursor();
    match unit_parser(state) {
        ParserRes::Succ(v) => {
            let r = ParserRes::Succ(v);
            proof {
                let none: Option<u64> = None;
                assert(kind_at(pre.input.kinds, pos) == Some(TkKind::Lpar));
                assert(may_read(floats, pre.input, pos, none) && builds_value(
                    pre,
                    state@,
                    r,
                    value_tree_given(pre.input, pos, none),
                ));
            }
            r
        },
        ParserRes::Fail(e1) => {
            let res = number_parser(state, floats);
            let ghost read = choose|read: Option<u64>|
                may_read(floats, pre.input, pos, read) && #[trigger] builds_value(
                    pre,
                    state@,
                    res,
                    number_tree_given(pre.input, pos, read),
                );
            let r = match res {
                ParserRes::Succ(v) => ParserRes::Succ(v),
                ParserRes::Fail(e2) => ParserRes::Fail(e1.furthest(e2)),
            };
            proof {
                assert(may_read(floats, pre.input, pos, read) && builds_value(
                    pre,
                    state@,
                    r,
                    value_tree_given(pre.input, pos, read),
                ));
            }
            r
        },
    }
}

} // verus!
