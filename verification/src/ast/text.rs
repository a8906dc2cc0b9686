//! How values and expressions are shown.
//!
//! An integer is shown in decimal digits and the unit as the empty text. A
//! list is shown between `[ ` and ` ]`, with a space between its items. A
//! function is shown as its parameter, ` -> `, and its body. How a float is
//! shown is not decided here: the functions are handed what writes the
//! float with a given bit pattern, and show a value as `value_text` says
//! for every writing of floats that theirs agrees with on the floats of
//! the value.
use vstd::prelude::*;
use crate::ast::expr::{Expr, ExprModel, Value, ValueModel};
use crate::utils::{int_text, signed_decimal};

verus! {

/// The writing of floats, as a function of the bit pattern.
pub type FloatWriter = spec_fn(u64) -> Seq<char>;

/// What a writer of floats may return: whether the characters may be what
/// it writes for the bit pattern.
pub type TextRel = spec_fn(u64, Seq<char>) -> bool;

/// What `h` may return, as its contract says.
pub open spec fn text_relation_of<H: Fn(u64) -> String>(h: &H) -> TextRel {
    |bits: u64, t: Seq<char>| exists|s: String| s@ == t && #[trigger] call_ensures(*h, (bits,), s)
}

/// Whether a writer that may return what `rel` says can, for `bits`, only
/// return the characters that `floats` gives for them.
pub open spec fn pinned_bits(rel: TextRel, floats: FloatWriter, bits: u64) -> bool {
    forall|t: Seq<char>| #[trigger] rel(bits, t) ==> t == floats(bits)
}

/// Whether the writer can only return what `floats` gives on the floats
/// that the value `v` holds. It does for every `floats` where `v` holds no
/// float.
pub open spec fn writes_value(rel: TextRel, floats: FloatWriter, v: ValueModel) -> bool
    decreases v,
{
    match v {
        ValueModel::Float(bits) => pinned_bits(rel, floats, bits),
        ValueModel::List(items) => forall|i: int|
            0 <= i < items.len() ==> writes_value(rel, floats, #[trigger] items[i]),
        ValueModel::Fn { arg, expr } => writes_expr(rel, floats, *expr),
        _ => true,
    }
}

/// Whether the writer can only return what `floats` gives on the floats
/// that the expression `e` holds.
pub open spec fn writes_expr(rel: TextRel, floats: FloatWriter, e: ExprModel) -> bool
    decreases e,
{
    match e {
        ExprModel::Unary(_, operand) => writes_expr(rel, floats, *operand),
        ExprModel::Binary(_, lhs, rhs) => writes_expr(rel, floats, *lhs) && writes_expr(
            rel,
            floats,
            *rhs,
        ),
        ExprModel::Value(v) => writes_value(rel, floats, v),
        ExprModel::Ident(_) => true,
    }
}

/// Whether `h` may be called on every bit pattern.
pub open spec fn accepts_bits<H: Fn(u64) -> String>(h: &H) -> bool {
    forall|bits: u64| call_requires(*h, (bits,))
}

/// How the first `n` of `items` are shown: with a space between them.
pub open spec fn items_text(items: Seq<ValueModel>, n: nat, floats: FloatWriter) -> Seq<char>
    decreases items, n,
{
    if n == 0 || n > items.len() {
        Seq::empty()
    } else if n == 1 {
        value_text(items[0], floats)
    } else {
        items_text(items, (n - 1) as nat, floats) + " "@ + value_text(items[n - 1], floats)
    }
}

/// How a value is shown.
pub open spec fn value_text(v: ValueModel, floats: FloatWriter) -> Seq<char>
    decreases v,
{
    match v {
        ValueModel::Int(x) => signed_decimal(x as int),
        ValueModel::Float(bits) => floats(bits),
        ValueModel::Unit => Seq::empty(),
        ValueModel::List(items) => "[ "@ + items_text(items, items.len(), floats) + " ]"@,
        ValueModel::Fn { arg, expr } => arg + " -> "@ + expr_text(*expr, floats),
    }
}

/// How an expression is shown: a prefix operator before its operand, an
/// infix operator between its operands and the whole in parentheses, a
/// literal as its value and an identifier as its name.
pub open spec fn expr_text(e: ExprModel, floats: FloatWriter) -> Seq<char>
    decreases e,
{
    match e {
        ExprModel::Unary(op, operand) => op.shown() + expr_text(*operand, floats),
        ExprModel::Binary(op, lhs, rhs) => "("@ + expr_text(*lhs, floats) + " "@ + op.shown()
            + " "@ + expr_text(*rhs, floats) + ")"@,
        ExprModel::Value(v) => value_text(v, floats),
        ExprModel::Ident(name) => name,
    }
}

impl Value {
    /// Shows the value; `floats` writes the floats.
    pub fn to_text<H: Fn(u64) -> String>(&self, floats: &H) -> (r: String)
        requires
            accepts_bits(floats),
        ensures
            self@ is Float ==> call_ensures(*floats, (self@->Float_0,), r),
            forall|fw: FloatWriter| #[trigger]
                writes_value(text_relation_of(floats), fw, self@) ==> r@ == value_text(self@, fw),
        decreases self,
    {
        match self {
            Value::Int(x) => int_text(*x),
            Value::Float(bits) => {
                let r = floats(*bits);
                proof {
                    assert forall|fw: FloatWriter| #[trigger]
                        writes_value(text_relation_of(floats), fw, self@) implies r@ == fw(*bits) by {
                        assert(pinned_bits(text_relation_of(floats), fw, *bits));
                        assert(text_relation_of(floats)(*bits, r@));
                    }
                }
                r
            },
            Value::Unit => {
                proof {
                    reveal_strlit("");
                }
                let r = "".to_owned();
                assert(r@ =~= Seq::<char>::empty());
                r
            },
            Value::List(items) => {
                let mut r = "[ ".to_owned();
                let mut i: usize = 0;
                while i < items.len()
                    invariant
                        self matches Value::List(l) && l == items,
                        accepts_bits(floats),
                        i <= items.len(),
                        forall|fw: FloatWriter| #[trigger]
                            writes_value(text_relation_of(floats), fw, self@) ==> r@ == "[ "@ + items_text(
                                self@->List_0,
                                i as nat,
                                fw,
                            ),
                    decreases items.len() - i,
                {
                    proof {
                        assert(decreases_to!(items => items@[i as int]));
                        assert(self@->List_0[i as int] == items@[i as int]@);
                    }
                    if i > 0 {
                        r.append(" ");
                    }
                    let shown = items[i].to_text(floats);
                    r.append(shown.as_str());
                    proof {
                        assert forall|fw: FloatWriter| #[trigger]
                            writes_value(text_relation_of(floats), fw, self@) implies r@ == "[ "@ + items_text(
                            self@->List_0,
                            (i + 1) as nat,
                            fw,
                        ) by {
                            assert(writes_value(text_relation_of(floats), fw, self@->List_0[i as int]));
                            assert(r@ =~= "[ "@ + items_text(self@->List_0, (i + 1) as nat, fw));
                        }
                    }
                    i = i + 1;
                }
                r.append(" ]");
                r
            },
            Value::Fn { arg, expr } => {
                proof {
                    assert forall|fw: FloatWriter| #[trigger]
                        writes_value(text_relation_of(floats), fw, self@) implies writes_expr(text_relation_of(floats), fw, expr@) by {}
                }
                let body = expr.to_text(floats);
                arg.clone().concat(" -> ").concat(body.as_str())
            },
        }
    }
}

impl Expr {
    /// Shows the expression; `floats` writes the floats.
    pub fn to_text<H: Fn(u64) -> String>(&self, floats: &H) -> (r: String)
        requires
            accepts_bits(floats),
        ensures
            forall|fw: FloatWriter| #[trigger]
                writes_expr(text_relation_of(floats), fw, self@) ==> r@ == expr_text(self@, fw),
        decreases self,
    {
        match self {
            Expr::Unary(u) => {
                proof {
                    assert forall|fw: FloatWriter| #[trigger]
                        writes_expr(text_relation_of(floats), fw, self@) implies writes_expr(text_relation_of(floats), fw, u.expr@) by {}
                }
                let operand = u.expr.to_text(floats);
                u.op.to_text().concat(operand.as_str())
            },
            Expr::Binary(b) => {
                proof {
                    assert forall|fw: FloatWriter| #[trigger]
                        writes_expr(text_relation_of(floats), fw, self@) implies writes_expr(text_relation_of(floats), fw, b.lhs@)
                        && writes_expr(text_relation_of(floats), fw, b.rhs@) by {}
                }
                let lhs = b.lhs.to_text(floats);
                let rhs = b.rhs.to_text(floats);
                "(".to_owned().concat(lhs.as_str()).concat(" ").concat(
                    b.op.to_text().as_str(),
                ).concat(" ").concat(rhs.as_str()).concat(")")
            },
            Expr::Value(v) => {
                proof {
                    assert forall|fw: FloatWriter| #[trigger]
                        writes_expr(text_relation_of(floats), fw, self@) implies writes_value(text_relation_of(floats), fw, v@) by {}
                }
                v.to_text(floats)
            },
            Expr::Ident(name) => name.clone(),
        }
    }
}

} // verus!
