//! A character stream that keeps track of where it stands in the source.
use vstd::prelude::*;
use crate::utils::{Loc, Span};

verus! {

/// The characters of `s` as a vector.
pub fn chars_of(s: &str) -> (v: Vec<char>)
    ensures
        v@ == s@,
{
    let mut v: Vec<char> = Vec::new();
    for c in it: s.chars()
        invariant
            it.seq() == s@,
            v@ == it.seq().take(it.index()),
    {
        v.push(c);
    }
    assert(v@ == s@);
    v
}

/// A cursor over the characters of a source text. It only moves forward.
#[derive(Debug)]
pub struct Cursor {
    chars: Vec<char>,
    loc: Loc,
}

impl Cursor {
    /// The whole text that the cursor runs over.
    pub closed spec fn text(&self) -> Seq<char> {
        self.chars@
    }

    /// The number of characters already consumed.
    pub closed spec fn offset(&self) -> int {
        self.loc.pos as int
    }

    /// The location of the next character.
    pub closed spec fn location(&self) -> Loc {
        self.loc
    }

    /// The cursor stands inside its text and its location is the one that
    /// reading the consumed characters leads to.
    pub closed spec fn wf(&self) -> bool {
        &&& self.loc.pos <= self.chars.len()
        &&& self.loc == Loc::at(self.chars@, self.loc.pos as int)
    }

    /// What holds of every well-formed cursor.
    pub proof fn lemma_wf(&self)
        requires
            self.wf(),
        ensures
            0 <= self.offset() <= self.text().len() <= usize::MAX,
            self.location() == Loc::at(self.text(), self.offset()),
            self.location().pos == self.offset(),
            self.location().wf(),
    {
        Loc::lemma_at(self.chars@, self.loc.pos as int);
    }

    /// The character under the cursor, if any is left.
    pub open spec fn peeked(&self) -> Option<char> {
        if 0 <= self.offset() < self.text().len() {
            Some(self.text()[self.offset()])
        } else {
            None
        }
    }

    /// Whether `next` is `self` moved forward to the offset `to`.
    pub open spec fn moved_to(&self, next: &Cursor, to: int) -> bool {
        &&& next.wf()
        &&& next.text() == self.text()
        &&& next.offset() == to
    }

    pub fn new(input: &str) -> (r: Cursor)
        ensures
            r.wf(),
            r.text() == input@,
            r.offset() == 0,
            r.location() == Loc::origin(),
    {
        Cursor { chars: chars_of(input), loc: Loc { pos: 0, row: 0, col: 0 } }
    }

    /// Moves past the character under the cursor.
    fn advance(&mut self, c: char)
        requires
            old(self).wf(),
            old(self).peeked() == Some(c),
        ensures
            old(self).moved_to(final(self), old(self).offset() + 1),
    {
        proof {
            Loc::lemma_at(self.chars@, self.loc.pos as int);
        }
        self.loc.advance(c);
    }

    /// Looks at the next character without consuming it.
    pub fn peek_char(&self) -> (r: Option<&char>)
        requires
            self.wf(),
        ensures
            match r {
                Some(c) => self.peeked() == Some(*c),
                None => self.peeked() is None,
            },
    {
        if self.loc.pos < self.chars.len() {
            Some(&self.chars[self.loc.pos])
        } else {
            None
        }
    }

    /// Consumes the next character if `cond` accepts it.
    #[must_use]
    pub fn next_if<F>(&mut self, cond: F) -> (r: Option<char>) where F: Fn(&char) -> bool
        requires
            old(self).wf(),
            forall|c: char| call_requires(cond, (&c,)),
        ensures
            match r {
                Some(c) => old(self).peeked() == Some(c) && call_ensures(cond, (&c,), true)
                    && old(self).moved_to(final(self), old(self).offset() + 1),
                None => *final(self) == *old(self) && match old(self).peeked() {
                    Some(c) => call_ensures(cond, (&c,), false),
                    None => true,
                },
            },
    {
        if self.loc.pos < self.chars.len() {
            let c: char = self.chars[self.loc.pos];
            if cond(&c) {
                self.advance(c);
                Some(c)
            } else {
                None
            }
        } else {
            None
        }
    }

    /// Consumes the next character if `cond` accepts it, without handing it
    /// out.
    pub fn skip_if<F>(&mut self, cond: F) where F: Fn(&char) -> bool
        requires
            old(self).wf(),
            forall|c: char| call_requires(cond, (&c,)),
        ensures
            match old(self).peeked() {
                Some(c) => if final(self).offset() == old(self).offset() {
                    *final(self) == *old(self) && call_ensures(cond, (&c,), false)
                } else {
                    call_ensures(cond, (&c,), true) && old(self).moved_to(
                        final(self),
                        old(self).offset() + 1,
                    )
                },
                None => *final(self) == *old(self),
            },
    {
        let _ = self.next_if(cond);
    }

    /// Consumes characters for as long as `cond` accepts them.
    pub fn skip_while<F>(&mut self, cond: F) where F: Fn(&char) -> bool
        requires
            old(self).wf(),
            forall|c: char| call_requires(cond, (&c,)),
        ensures
            old(self).offset() <= final(self).offset() <= old(self).text().len(),
            old(self).moved_to(final(self), final(self).offset()),
            forall|k: int|
                old(self).offset() <= k < final(self).offset() ==> call_ensures(
                    cond,
                    (&#[trigger] old(self).text()[k],),
                    true,
                ),
            match final(self).peeked() {
                Some(c) => call_ensures(cond, (&c,), false),
                None => true,
            },
    {
        loop
            invariant
                self.wf(),
                self.text() == old(self).text(),
                old(self).offset() <= self.offset() <= self.text().len(),
                forall|c: char| call_requires(cond, (&c,)),
                forall|k: int|
                    old(self).offset() <= k < self.offset() ==> call_ensures(
                        cond,
                        (&#[trigger] old(self).text()[k],),
                        true,
                    ),
            ensures
                match self.peeked() {
                    Some(c) => call_ensures(cond, (&c,), false),
                    None => true,
                },
            decreases self.text().len() - self.offset(),
        {
            if self.next_if(&cond).is_none() {
                break ;
            }
        }
    }

    /// Consumes the next character.
    pub fn next(&mut self) -> (r: Option<char>)
        requires
            old(self).wf(),
        ensures
            r == old(self).peeked(),
            match r {
                Some(c) => old(self).moved_to(final(self), old(self).offset() + 1),
                None => *final(self) == *old(self),
            },
    {
        if self.loc.pos < self.chars.len() {
            let c: char = self.chars[self.loc.pos];
            self.advance(c);
            Some(c)
        } else {
            None
        }
    }

    /// Consumes the next character if it is `c`, and says whether it did.
    pub fn next_is(&mut self, c: char) -> (r: bool)
        requires
            old(self).wf(),
        ensures
            r == (old(self).peeked() == Some(c)),
            if r {
                old(self).moved_to(final(self), old(self).offset() + 1)
            } else {
                *final(self) == *old(self)
            },
    {
        if self.loc.pos < self.chars.len() && self.chars[self.loc.pos] == c {
            self.advance(c);
            true
        } else {
            false
        }
    }

    /// The whole text, consumed or not.
    pub fn chars(&self) -> (r: &Vec<char>)
        ensures
            r@ == self.text(),
    {
        &self.chars
    }

    /// The location of the next character.
    pub fn loc(&self) -> (r: Loc)
        ensures
            r == self.location(),
    {
        self.loc
    }

    /// The span from `start` to the location of the next character.
    pub fn span(&self, start: Loc) -> (r: Span)
        ensures
            r == (Span { start, end: self.location() }),
    {
        Span::new(start, self.loc)
    }
}

} // verus!
