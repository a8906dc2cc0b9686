//! The binding context: what each identifier is bound to.
use vstd::prelude::*;
use crate::ast::expr::{Value, ValueModel};

verus! {

/// The index of the first binding of `key` at or after `from`, or the
/// number of bindings when there is none.
pub open spec fn first_binding(names: Seq<Seq<char>>, key: Seq<char>, from: int) -> int
    decreases names.len() - from,
{
    if from < 0 || from >= names.len() {
        names.len() as int
    } else if names[from] == key {
        from
    } else {
        first_binding(names, key, from + 1)
    }
}

/// The first binding of `key` at or after `from` binds `key`, and nothing
/// between `from` and it does.
pub proof fn lemma_first_binding(names: Seq<Seq<char>>, key: Seq<char>, from: int)
    requires
        0 <= from <= names.len(),
    ensures
        from <= first_binding(names, key, from) <= names.len(),
        first_binding(names, key, from) < names.len() ==> names[first_binding(names, key, from)]
            == key,
        forall|i: int| from <= i < first_binding(names, key, from) ==> names[i] != key,
    decreases names.len() - from,
{
    if from < names.len() && names[from] != key {
        lemma_first_binding(names, key, from + 1);
    }
}

/// A mapping from identifiers to values. No identifier is bound twice.
#[derive(Debug)]
pub struct Context {
    entries: Vec<(String, Value)>,
}

impl Context {
    /// The bound identifiers, in the order in which they were first bound.
    pub closed spec fn names(&self) -> Seq<Seq<char>> {
        Seq::new(self.entries@.len(), |i: int| self.entries@[i].0@)
    }

    /// No identifier is bound twice.
    pub closed spec fn wf(&self) -> bool {
        forall|i: int, j: int|
            0 <= i < j < self.entries@.len() ==> self.entries@[i].0@ != self.entries@[j].0@
    }
}

impl View for Context {
    type V = Map<Seq<char>, ValueModel>;

    closed spec fn view(&self) -> Map<Seq<char>, ValueModel> {
        Map::new(
            |k: Seq<char>| first_binding(self.names(), k, 0) < self.entries@.len(),
            |k: Seq<char>| self.entries@[first_binding(self.names(), k, 0)].1@,
        )
    }
}

impl Context {
    /// The context in which nothing is bound: it holds no identifier.
    pub fn new() -> (r: Context)
        ensures
            r.wf(),
            r@ == Map::<Seq<char>, ValueModel>::empty(),
            r.names() == Seq::<Seq<char>>::empty(),
    {
        let r = Context { entries: Vec::new() };
        proof {
            assert(r@ =~= Map::<Seq<char>, ValueModel>::empty());
            assert(r.names() =~= Seq::<Seq<char>>::empty());
        }
        r
    }

    /// The place of the binding of `name`, if it is bound.
    fn find(&self, name: &String) -> (r: Option<usize>)
        ensures
            match r {
                Some(i) => i < self.entries@.len() && first_binding(self.names(), name@, 0) == i,
                None => first_binding(self.names(), name@, 0) == self.entries@.len(),
            },
    {
        let mut i: usize = 0;
        while i < self.entries.len()
            invariant
                i <= self.entries@.len(),
                first_binding(self.names(), name@, 0) == first_binding(
                    self.names(),
                    name@,
                    i as int,
                ),
            decreases self.entries@.len() - i,
        {
            proof {
                assert(self.names()[i as int] == self.entries@[i as int].0@);
            }
            if self.entries[i].0 == *name {
                return Some(i);
            }
            i = i + 1;
        }
        None
    }

    /// What `name` is bound to, if it is bound.
    pub fn get(&self, name: &String) -> (r: Option<&Value>)
        ensures
            match r {
                Some(v) => self@.contains_key(name@) && v@ == self@[name@],
                None => !self@.contains_key(name@),
            },
    {
        match self.find(name) {
            Some(i) => Some(&self.entries[i].1),
            None => None,
        }
    }

    /// Whether `name` is bound.
    pub fn contains(&self, name: &String) -> (r: bool)
        ensures
            r == self@.contains_key(name@),
    {
        self.find(name).is_some()
    }

    /// Binds `name` to `value`; a binding that `name` had is replaced.
    pub fn insert(&mut self, name: String, value: Value)
        requires
            old(self).wf(),
        ensures
            final(self).wf(),
            final(self)@ == old(self)@.insert(name@, value@),
            final(self).names() == if old(self)@.contains_key(name@) {
                old(self).names()
            } else {
                old(self).names().push(name@)
            },
    {
        let ghost before = *old(self);
        let ghost key = name@;
        let ghost val = value@;
        let found = self.find(&name);
        match found {
            Some(i) => {
                self.entries[i] = (name, value);
                proof {
                    lemma_first_binding(before.names(), key, 0);
                    assert(before.names()[i as int] == key);
                    assert(self.names() =~= before.names()) by {
                        assert forall|k: int| 0 <= k < self.names().len() implies self.names()[k]
                            == before.names()[k] by {
                            if k != i {
                                assert(self.entries@[k] == before.entries@[k]);
                            }
                        }
                    }
                    assert forall|a: int, b: int| 0 <= a < b < self.entries@.len() implies self.entries@[a].0@
                        != self.entries@[b].0@ by {
                        assert(self.names()[a] == before.entries@[a].0@);
                        assert(self.names()[b] == before.entries@[b].0@);
                    }
                    assert(self@ =~= before@.insert(key, val)) by {
                        assert forall|k: Seq<char>| #[trigger]
                            self@.contains_key(k) == before@.insert(key, val).contains_key(
                                k,
                            ) by {
                            lemma_first_binding(self.names(), k, 0);
                        }
                        assert forall|k: Seq<char>| #[trigger]
                            self@.contains_key(k) implies self@[k] == before@.insert(key, val)[k] by {
                            lemma_first_binding(self.names(), k, 0);
                        }
                    }
                }
            },
            None => {
                proof {
                    lemma_first_binding(before.names(), key, 0);
                }
                self.entries.push((name, value));
                proof {
                    let n = before.entries@.len() as int;
                    assert(self.names() =~= before.names().push(key));
                    assert(self@ =~= before@.insert(key, val)) by {
                        assert forall|k: Seq<char>| #[trigger]
                            self@.contains_key(k) == before@.insert(key, val).contains_key(
                                k,
                            ) by {
                            lemma_pushed_binding(before.names(), key, k, 0);
                        }
                        assert forall|k: Seq<char>| #[trigger]
                            self@.contains_key(k) implies self@[k] == before@.insert(key, val)[k] by {
                            lemma_pushed_binding(before.names(), key, k, 0);
                            let at = first_binding(self.names(), k, 0);
                            assert(self.names() == before.names().push(key));
                            assert(at < self.entries@.len());
                            assert(self.entries@.len() == n + 1);
                            lemma_first_binding(before.names(), k, 0);
                            if k != key {
                                assert(at < n);
                                assert(self.entries@[at] == before.entries@[at]);
                            } else {
                                assert(at == n);
                            }
                        }
                    }
                    assert forall|i: int, j: int| 0 <= i < j < self.entries@.len() implies self.entries@[i].0@
                        != self.entries@[j].0@ by {
                        if j == n {
                            assert(before.names()[i] == self.entries@[i].0@);
                        }
                    }
                }
            },
        }
    }

    /// The number of bound identifiers.
    pub fn len(&self) -> (r: usize)
        ensures
            r == self.names().len(),
    {
        self.entries.len()
    }
}

/// Where the first binding of `k` lies after the binding of `key` was added
/// at the end.
proof fn lemma_pushed_binding(names: Seq<Seq<char>>, key: Seq<char>, k: Seq<char>, from: int)
    requires
        0 <= from <= names.len(),
    ensures
        first_binding(names.push(key), k, from) == if first_binding(names, k, from) < names.len() {
            first_binding(names, k, from)
        } else if k == key {
            names.len() as int
        } else {
            (names.len() + 1) as int
        },
    decreases names.len() - from,
{
    let more = names.push(key);
    if from < names.len() {
        assert(more[from] == names[from]);
        if names[from] != k {
            lemma_pushed_binding(names, key, k, from + 1);
        }
    } else {
        assert(more[from] == key);
        if key != k {
            assert(first_binding(more, k, from + 1) == more.len());
        }
    }
}

} // verus!
