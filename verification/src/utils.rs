//! Source locations and spans.
use vstd::prelude::*;

verus! {

/// A position in the source text: the absolute character offset, the line
/// count (`row`) and the character count within the line (`col`).
#[derive(Debug, Clone, Copy, PartialEq, Eq, Hash, Structural)]
pub struct Loc {
    pub pos: usize,
    pub row: usize,
    pub col: usize,
}

impl Loc {
    /// The location before the first character.
    pub open spec fn origin() -> Loc {
        Loc { pos: 0, row: 0, col: 0 }
    }

    /// A location is well formed when its row and column account for no more
    /// characters than its offset.
    pub open spec fn wf(self) -> bool {
        self.row + self.col <= self.pos
    }

    /// The location after reading `c` at this location: a newline starts a new
    /// row, any other character moves one column to the right.
    pub open spec fn step(self, c: char) -> Loc
        recommends
            self.pos < usize::MAX,
            self.wf(),
    {
        if c == '\n' {
            Loc { pos: (self.pos + 1) as usize, row: (self.row + 1) as usize, col: 0 }
        } else {
            Loc { pos: (self.pos + 1) as usize, row: self.row, col: (self.col + 1) as usize }
        }
    }

    /// The location reached after reading the first `n` characters of `s`.
    pub open spec fn at(s: Seq<char>, n: int) -> Loc
        decreases n,
    {
        if n <= 0 || n > s.len() {
            Loc::origin()
        } else {
            Loc::at(s, n - 1).step(s[n - 1])
        }
    }

    /// Locations along a text that fits in memory are well formed and their
    /// offset is the number of characters read.
    pub proof fn lemma_at(s: Seq<char>, n: int)
        requires
            0 <= n <= s.len() <= usize::MAX,
        ensures
            Loc::at(s, n).wf(),
            Loc::at(s, n).pos == n,
        decreases n,
    {
        if n > 0 {
            Loc::lemma_at(s, n - 1);
        }
    }

    /// Moves this location past the character `c`.
    pub fn advance(&mut self, c: char)
        requires
            old(self).wf(),
            old(self).pos < usize::MAX,
        ensures
            *final(self) == old(self).step(c),
            final(self).wf(),
    {
        if c == '\n' {
            self.row = self.row + 1;
            self.col = 0;
        } else {
            self.col = self.col + 1;
        }
        self.pos = self.pos + 1;
    }
}

impl Default for Loc {
    fn default() -> (r: Loc)
        ensures
            r == Loc::origin(),
    {
        Loc { pos: 0, row: 0, col: 0 }
    }
}

/// The stretch of source text between two locations.
#[derive(Debug, Clone, Copy, PartialEq, Eq, Hash, Structural)]
pub struct Span {
    pub start: Loc,
    pub end: Loc,
}

impl Span {
    /// A span is well formed when it does not end before it starts.
    pub open spec fn wf(self) -> bool {
        self.start.pos <= self.end.pos
    }

    /// Whether an end of `self` lies strictly inside `other`.
    pub open spec fn overlaps(self, other: Span) -> bool {
        (other.start.pos < self.start.pos && self.start.pos < other.end.pos) || (other.start.pos
            < self.end.pos && self.end.pos < other.end.pos)
    }

    /// The span that starts where the earlier of the two starts and ends where
    /// the later of the two ends; on a tie the bound of `b` is taken.
    pub open spec fn hull(a: Span, b: Span) -> Span {
        Span {
            start: if a.start.pos < b.start.pos { a.start } else { b.start },
            end: if a.end.pos < b.end.pos { b.end } else { a.end },
        }
    }

    /// The span from the earlier end to the later start of two spans.
    pub open spec fn gap(a: Span, b: Span) -> Span {
        Span {
            start: if a.end.pos < b.end.pos { a.end } else { b.end },
            end: if a.start.pos < b.start.pos { b.start } else { a.start },
        }
    }

    pub fn new(start: Loc, end: Loc) -> (r: Span)
        ensures
            r == (Span { start, end }),
    {
        Span { start, end }
    }

    /// Whether the start or the end of `self` falls strictly inside `other`.
    pub fn is_overlaping(&self, other: Span) -> (r: bool)
        ensures
            r == self.overlaps(other),
    {
        (self.start.pos < other.end.pos && self.start.pos > other.start.pos) || (self.end.pos
            < other.end.pos && self.end.pos > other.start.pos)
    }

    /// The smallest span that covers both `a` and `b`.
    pub fn around(a: Span, b: Span) -> (r: Span)
        ensures
            r == Span::hull(a, b),
            a.wf() && b.wf() ==> r.wf() && r.start.pos <= a.start.pos && r.start.pos
                <= b.start.pos && a.end.pos <= r.end.pos && b.end.pos <= r.end.pos,
    {
        let start = if a.start.pos < b.start.pos {
            a.start
        } else {
            b.start
        };
        let end = if a.end.pos < b.end.pos {
            b.end
        } else {
            a.end
        };
        Span::new(start, end)
    }

    /// The span that lies between `a` and `b`, or nothing when an end of `a`
    /// falls strictly inside `b`.
    pub fn inside(a: Span, b: Span) -> (r: Option<Span>)
        ensures
            r == if a.overlaps(b) {
                None
            } else {
                Some(Span::gap(a, b))
            },
    {
        if a.is_overlaping(b) {
            None
        } else {
            let start = if a.end.pos < b.end.pos {
                a.end
            } else {
                b.end
            };
            let end = if a.start.pos < b.start.pos {
                b.start
            } else {
                a.start
            };
            Some(Span::new(start, end))
        }
    }
}

impl Default for Span {
    fn default() -> (r: Span)
        ensures
            r == (Span { start: Loc::origin(), end: Loc::origin() }),
    {
        Span { start: Loc::default(), end: Loc::default() }
    }
}

/// The character that writes the digit `d`.
pub open spec fn digit_char(d: nat) -> char
    recommends
        d < 10,
{
    if d == 0 {
        '0'
    } else if d == 1 {
        '1'
    } else if d == 2 {
        '2'
    } else if d == 3 {
        '3'
    } else if d == 4 {
        '4'
    } else if d == 5 {
        '5'
    } else if d == 6 {
        '6'
    } else if d == 7 {
        '7'
    } else if d == 8 {
        '8'
    } else {
        '9'
    }
}

/// The decimal digits of `n`, without leading zeros; `0` for zero.
pub open spec fn decimal(n: nat) -> Seq<char>
    decreases n,
{
    if n < 10 {
        seq![digit_char(n)]
    } else {
        decimal(n / 10).push(digit_char(n % 10))
    }
}

/// The decimal digits of `n`, after a minus sign where `n` is negative.
pub open spec fn signed_decimal(n: int) -> Seq<char> {
    if n < 0 {
        seq!['-'] + decimal((-n) as nat)
    } else {
        decimal(n as nat)
    }
}

/// The digit `d` as a text.
fn digit_text(d: u64) -> (r: &'static str)
    requires
        d < 10,
    ensures
        r@ == seq![digit_char(d as nat)],
{
    proof {
        reveal_strlit("0");
        reveal_strlit("1");
        reveal_strlit("2");
        reveal_strlit("3");
        reveal_strlit("4");
        reveal_strlit("5");
        reveal_strlit("6");
        reveal_strlit("7");
        reveal_strlit("8");
        reveal_strlit("9");
    }
    let r = if d == 0 {
        "0"
    } else if d == 1 {
        "1"
    } else if d == 2 {
        "2"
    } else if d == 3 {
        "3"
    } else if d == 4 {
        "4"
    } else if d == 5 {
        "5"
    } else if d == 6 {
        "6"
    } else if d == 7 {
        "7"
    } else if d == 8 {
        "8"
    } else {
        "9"
    };
    assert(r@ =~= seq![digit_char(d as nat)]);
    r
}

/// Writes `n` in decimal digits.
pub fn nat_text(n: u64) -> (r: String)
    ensures
        r@ == decimal(n as nat),
    decreases n,
{
    if n < 10 {
        digit_text(n).to_owned()
    } else {
        let mut r = nat_text(n / 10);
        r.append(digit_text(n % 10));
        assert(r@ =~= decimal((n / 10) as nat).push(digit_char((n % 10) as nat)));
        r
    }
}

/// Writes `n` in decimal digits, with a minus sign where it is negative.
pub fn int_text(n: i64) -> (r: String)
    ensures
        r@ == signed_decimal(n as int),
{
    if n < 0 {
        proof {
            reveal_strlit("-");
        }
        let m: u64 = if n == i64::MIN {
            9223372036854775808u64
        } else {
            (-n) as u64
        };
        let r = "-".to_owned().concat(nat_text(m).as_str());
        assert(r@ =~= seq!['-'] + decimal((-n) as nat));
        r
    } else {
        nat_text(n as u64)
    }
}

impl Loc {
    /// How a location is shown: `(row, col)`.
    pub open spec fn shown(self) -> Seq<char> {
        "("@ + decimal(self.row as nat) + ", "@ + decimal(self.col as nat) + ")"@
    }

    /// Shows the location as `(row, col)`.
    pub fn to_text(&self) -> (r: String)
        ensures
            r@ == self.shown(),
    {
        let r = "(".to_owned().concat(nat_text(self.row as u64).as_str()).concat(", ").concat(
            nat_text(self.col as u64).as_str(),
        ).concat(")");
        r
    }
}

impl Span {
    /// How a span is shown: its two locations.
    pub open spec fn shown(self) -> Seq<char> {
        "start: "@ + self.start.shown() + "\tend: "@ + self.end.shown()
    }

    /// Shows the span by its two locations.
    pub fn to_text(&self) -> (r: String)
        ensures
            r@ == self.shown(),
    {
        "start: ".to_owned().concat(self.start.to_text().as_str()).concat("\tend: ").concat(
            self.end.to_text().as_str(),
        )
    }
}

} // verus!
