//! A stream of characters that keeps metadata up to date as it is
//! consumed.
use vstd::prelude::*;
use crate::lexer::cursor::chars_of;
use crate::utils::Loc;

verus! {

/// A piece of metadata that can be read out of the metadata of an input.
pub trait MetaData: Sized {
    /// The metadata that the piece is read out of.
    type InputMetaData;

    /// The piece that `metadata` holds.
    spec fn part(metadata: &Self::InputMetaData) -> Self;

    fn get(metadata: &Self::InputMetaData) -> (r: &Self)
        ensures
            *r == Self::part(metadata),
    ;
}

/// The metadata of an input: it is brought up to date with each item that
/// is consumed.
pub trait InputMetaData: Sized {
    /// The items of the input.
    type Item;

    /// How many more items the metadata can take in.
    spec fn capacity(&self) -> nat;

    /// The metadata after `item` was consumed.
    spec fn updated(&self, item: Self::Item) -> Self;

    /// Brings the metadata up to date with `item`, which is being
    /// consumed.
    fn update(&mut self, item: &Self::Item)
        requires
            old(self).capacity() > 0,
        ensures
            *final(self) == old(self).updated(*item),
            final(self).capacity() == old(self).capacity() - 1,
    ;
}

impl MetaData for Loc {
    type InputMetaData = Loc;

    open spec fn part(metadata: &Loc) -> Loc {
        *metadata
    }

    fn get(metadata: &Loc) -> (r: &Loc) {
        metadata
    }
}

impl InputMetaData for Loc {
    type Item = char;

    open spec fn capacity(&self) -> nat {
        if self.wf() {
            (usize::MAX - self.pos) as nat
        } else {
            0
        }
    }

    open spec fn updated(&self, item: char) -> Loc {
        self.step(item)
    }

    fn update(&mut self, item: &char) {
        self.advance(*item);
    }
}

/// The metadata `m` after the items of `s` were consumed, in order.
pub open spec fn absorbed<IM: InputMetaData>(m: IM, s: Seq<IM::Item>) -> IM
    decreases s.len(),
{
    if s.len() == 0 {
        m
    } else {
        absorbed(m, s.drop_last()).updated(s.last())
    }
}

/// An input: a stream of characters with its metadata.
#[derive(Debug)]
pub struct Input<IM> {
    items: Vec<char>,
    pos: usize,
    metadata: IM,
}

impl<IM: InputMetaData<Item = char>> Input<IM> {
    /// All the items, consumed or not.
    pub closed spec fn items(&self) -> Seq<char> {
        self.items@
    }

    /// The number of items consumed.
    pub closed spec fn consumed(&self) -> int {
        self.pos as int
    }

    /// The metadata as it stands.
    pub closed spec fn metadata(&self) -> IM {
        self.metadata
    }

    /// The input stands inside its items and its metadata can take in the
    /// items that are left.
    pub closed spec fn wf(&self) -> bool {
        &&& self.pos <= self.items@.len()
        &&& self.metadata.capacity() >= self.items@.len() - self.pos
    }

    /// The next item, if one is left.
    pub open spec fn peeked(&self) -> Option<char> {
        if 0 <= self.consumed() < self.items().len() {
            Some(self.items()[self.consumed()])
        } else {
            None
        }
    }

    /// Whether `next` is `self` after it consumed the items up to `to`.
    pub open spec fn moved_to(&self, next: &Input<IM>, to: int) -> bool {
        &&& next.wf()
        &&& next.items() == self.items()
        &&& next.consumed() == to
        &&& self.consumed() <= to <= self.items().len()
        &&& next.metadata() == absorbed(
            self.metadata(),
            self.items().subrange(self.consumed(), to),
        )
    }

    /// An input cannot consume more than it holds.
    pub proof fn lemma_wf(&self)
        requires
            self.wf(),
        ensures
            0 <= self.consumed() <= self.items().len(),
    {
    }

    /// An input over the characters of `source`, with `metadata` as its
    /// metadata before the first of them. The metadata must be able to take
    /// in the whole text.
    pub fn new(source: &str, metadata: IM) -> (r: Input<IM>)
        requires
            metadata.capacity() >= source@.len(),
        ensures
            r.wf(),
            r.items() == source@,
            r.consumed() == 0,
            r.metadata() == metadata,
    {
        Input { items: chars_of(source), pos: 0, metadata }
    }

    /// What the metadata holds of the kind `M`.
    pub fn get<M>(&self) -> (r: &M) where M: MetaData<InputMetaData = IM>
        ensures
            *r == M::part(&self.metadata()),
    {
        M::get(&self.metadata)
    }

    /// Consumes the next item.
    pub fn next(&mut self) -> (r: Option<char>)
        requires
            old(self).wf(),
        ensures
            r == old(self).peeked(),
            match r {
                Some(c) => old(self).moved_to(final(self), old(self).consumed() + 1),
                None => *final(self) == *old(self),
            },
    {
        if self.pos < self.items.len() {
            let c: char = self.items[self.pos];
            self.metadata.update(&c);
            self.pos = self.pos + 1;
            proof {
                let s = old(self).items().subrange(old(self).consumed(), old(self).consumed() + 1);
                assert(s.drop_last() =~= Seq::<char>::empty());
                assert(s.last() == c);
                assert(absorbed(old(self).metadata(), s.drop_last()) == old(self).metadata());
            }
            Some(c)
        } else {
            None
        }
    }

    /// Looks at the next item without consuming it.
    pub fn peek(&self) -> (r: Option<&char>)
        requires
            self.wf(),
        ensures
            match r {
                Some(c) => self.peeked() == Some(*c),
                None => self.peeked() is None,
            },
    {
        if self.pos < self.items.len() {
            Some(&self.items[self.pos])
        } else {
            None
        }
    }

    /// Consumes the next item if `pred` accepts it.
    #[must_use]
    pub fn next_if<F>(&mut self, pred: F) -> (r: Option<char>) where F: Fn(&char) -> bool
        requires
            old(self).wf(),
            forall|c: char| call_requires(pred, (&c,)),
        ensures
            match r {
                Some(c) => old(self).peeked() == Some(c) && call_ensures(pred, (&c,), true)
                    && old(self).moved_to(final(self), old(self).consumed() + 1),
                None => *final(self) == *old(self) && match old(self).peeked() {
                    Some(c) => call_ensures(pred, (&c,), false),
                    None => true,
                },
            },
    {
        if self.pos < self.items.len() {
            let c: char = self.items[self.pos];
            if pred(&c) {
                self.next()
            } else {
                None
            }
        } else {
            None
        }
    }

    /// Consumes the next item if `pred` accepts it, and says so, without
    /// handing the item out.
    pub fn skip_if<F>(&mut self, pred: F) -> (r: Option<()>) where F: Fn(&char) -> bool
        requires
            old(self).wf(),
            forall|c: char| call_requires(pred, (&c,)),
        ensures
            match r {
                Some(_) => old(self).peeked() matches Some(c) && call_ensures(pred, (&c,), true)
                    && old(self).moved_to(final(self), old(self).consumed() + 1),
                None => *final(self) == *old(self) && match old(self).peeked() {
                    Some(c) => call_ensures(pred, (&c,), false),
                    None => true,
                },
            },
    {
        match self.next_if(pred) {
            Some(_) => Some(()),
            None => None,
        }
    }

    /// Consumes items for as long as `pred` accepts them.
    pub fn skip_while<F>(&mut self, pred: F) where F: Fn(&char) -> bool
        requires
            old(self).wf(),
            forall|c: char| call_requires(pred, (&c,)),
        ensures
            old(self).moved_to(final(self), final(self).consumed()),
            forall|k: int|
                old(self).consumed() <= k < final(self).consumed() ==> call_ensures(
                    pred,
                    (&#[trigger] old(self).items()[k],),
                    true,
                ),
            match final(self).peeked() {
                Some(c) => call_ensures(pred, (&c,), false),
                None => true,
            },
    {
        proof {
            assert(old(self).items().subrange(old(self).consumed(), old(self).consumed())
                =~= Seq::<char>::empty());
        }
        loop
            invariant
                old(self).wf(),
                old(self).moved_to(self, self.consumed()),
                forall|c: char| call_requires(pred, (&c,)),
                forall|k: int|
                    old(self).consumed() <= k < self.consumed() ==> call_ensures(
                        pred,
                        (&#[trigger] old(self).items()[k],),
                        true,
                    ),
            ensures
                match self.peeked() {
                    Some(c) => call_ensures(pred, (&c,), false),
                    None => true,
                },
            decreases self.items().len() - self.consumed(),
        {
            let ghost before = *self;
            if self.next_if(&pred).is_none() {
                break ;
            }
            proof {
                let from = old(self).consumed();
                let mid = before.consumed();
                let all = old(self).items().subrange(from, mid + 1);
                assert(all.drop_last() =~= old(self).items().subrange(from, mid));
                let one = before.items().subrange(mid, mid + 1);
                assert(one.drop_last() =~= Seq::<char>::empty());
                assert(absorbed(before.metadata(), one.drop_last()) == before.metadata());
                assert(one.last() == all.last());
            }
        }
    }

    /// Whether the next item is `c`.
    pub fn peek_is(&self, c: char) -> (r: bool)
        requires
            self.wf(),
        ensures
            r == (self.peeked() == Some(c)),
    {
        self.pos < self.items.len() && self.items[self.pos] == c
    }

    /// Consumes the next item if it is `c`, and says whether it did.
    pub fn next_is(&mut self, c: char) -> (r: bool)
        requires
            old(self).wf(),
        ensures
            r == (old(self).peeked() == Some(c)),
            if r {
                old(self).moved_to(final(self), old(self).consumed() + 1)
            } else {
                *final(self) == *old(self)
            },
    {
        if self.peek_is(c) {
            let _ = self.next();
            true
        } else {
            false
        }
    }

    /// Consumes items up to the next `c`, which is left, or to the end.
    pub fn skip_to_next(&mut self, c: char)
        requires
            old(self).wf(),
        ensures
            old(self).moved_to(final(self), final(self).consumed()),
            forall|k: int|
                old(self).consumed() <= k < final(self).consumed() ==> (#[trigger] old(
                    self,
                ).items()[k]) != c,
            final(self).peeked() is None || final(self).peeked() == Some(c),
    {
        proof {
            assert(old(self).items().subrange(old(self).consumed(), old(self).consumed())
                =~= Seq::<char>::empty());
        }
        loop
            invariant
                old(self).wf(),
                old(self).moved_to(self, self.consumed()),
                forall|k: int|
                    old(self).consumed() <= k < self.consumed() ==> (#[trigger] old(
                        self,
                    ).items()[k]) != c,
            ensures
                self.peeked() is None || self.peeked() == Some(c),
            decreases self.items().len() - self.consumed(),
        {
            let ghost before = *self;
            if self.pos >= self.items.len() || self.items[self.pos] == c {
                break ;
            }
            let _ = self.next();
            proof {
                let from = old(self).consumed();
                let mid = before.consumed();
                let all = old(self).items().subrange(from, mid + 1);
                assert(all.drop_last() =~= old(self).items().subrange(from, mid));
                let one = before.items().subrange(mid, mid + 1);
                assert(one.drop_last() =~= Seq::<char>::empty());
                assert(absorbed(before.metadata(), one.drop_last()) == before.metadata());
                assert(one.last() == all.last());
            }
        }
    }

    /// Consumes the next item if it is `c`, and says whether it did.
    pub fn skip_next(&mut self, c: char) -> (r: bool)
        requires
            old(self).wf(),
        ensures
            r == (old(self).peeked() == Some(c)),
            if r {
                old(self).moved_to(final(self), old(self).consumed() + 1)
            } else {
                *final(self) == *old(self)
            },
    {
        self.next_is(c)
    }
}

/// The location that an input leads to when it starts at the origin is the
/// location of the consumed text.
pub proof fn lemma_absorbed_loc(s: Seq<char>, n: int)
    requires
        0 <= n <= s.len() <= usize::MAX,
    ensures
        absorbed(Loc::origin(), s.subrange(0, n)) == Loc::at(s, n),
    decreases n,
{
    if n > 0 {
        lemma_absorbed_loc(s, n - 1);
        assert(s.subrange(0, n).drop_last() =~= s.subrange(0, n - 1));
    }
}

} // verus!
