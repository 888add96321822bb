use vstd::prelude::*;

use crate::ident::{names, Ident};

verus! {

/// Entries keyed by identifier, each name at most once, kept in the order in
/// which the names were first inserted.
#[derive(Clone, Debug)]
pub struct Table<V> {
    keys: Vec<Ident>,
    vals: Vec<V>,
}

impl<V: Copy> Table<V> {
    /// The names of the table, in insertion order.
    pub closed spec fn key_names(&self) -> Seq<Seq<char>> {
        names(self.keys@)
    }

    /// The value held under `name`, if any.
    pub closed spec fn lookup(&self, name: Seq<char>) -> Option<V> {
        if exists|k: int| 0 <= k < self.keys@.len() && #[trigger] self.keys@[k]@ == name {
            let k = choose|k: int| 0 <= k < self.keys@.len() && #[trigger] self.keys@[k]@ == name;
            Some(self.vals@[k])
        } else {
            None
        }
    }

    pub closed spec fn wf(&self) -> bool {
        &&& self.keys@.len() == self.vals@.len()
        &&& forall|a: int, b: int|
            0 <= a < b < self.keys@.len() ==> #[trigger] self.keys@[a]@ != #[trigger] self.keys@[b]@
    }

    pub fn new() -> (r: Table<V>)
        ensures
            r.wf(),
            r.key_names() == Seq::<Seq<char>>::empty(),
            forall|name: Seq<char>| #[trigger] r.lookup(name) is None,
    {
        let r = Table { keys: Vec::new(), vals: Vec::new() };
        assert(names(r.keys@) =~= Seq::<Seq<char>>::empty());
        r
    }

    /// The position of `name` among the keys.
    fn position(&self, name: &Ident) -> (r: Option<usize>)
        requires
            self.wf(),
        ensures
            r matches Some(k) ==> k < self.keys@.len() && self.keys@[k as int]@ == name@,
            r is None ==> forall|k: int| 0 <= k < self.keys@.len() ==> #[trigger] self.keys@[k]@ != name@,
    {
        let mut i: usize = 0;
        while i < self.keys.len()
            invariant
                i <= self.keys@.len(),
                forall|k: int| 0 <= k < i ==> #[trigger] self.keys@[k]@ != name@,
            decreases self.keys@.len() - i,
        {
            if self.keys[i].same_as(name) {
                return Some(i);
            }
            i = i + 1;
        }
        None
    }

    /// The value held under `name`, if any.
    pub fn get(&self, name: &Ident) -> (r: Option<V>)
        requires
            self.wf(),
        ensures
            r == self.lookup(name@),
    {
        match self.position(name) {
            Some(k) => {
                proof {
                    let c = choose|c: int| 0 <= c < self.keys@.len() && #[trigger] self.keys@[c]@ == name@;
                    assert(c == k);
                }
                Some(self.vals[k])
            },
            None => None,
        }
    }

    /// Puts `v` under `name`, and returns what was there before. A new name
    /// goes last; a name already present keeps its place.
    pub fn insert(&mut self, name: Ident, v: V) -> (r: Option<V>)
        requires
            old(self).wf(),
        ensures
            final(self).wf(),
            r == old(self).lookup(name@),
            final(self).lookup(name@) == Some(v),
            forall|other: Seq<char>| other != name@ ==> #[trigger] final(self).lookup(other) == old(self).lookup(other),
            old(self).lookup(name@) is Some ==> final(self).key_names() == old(self).key_names(),
            old(self).lookup(name@) is None ==> final(self).key_names() == old(self).key_names().push(name@),
    {
        let ghost before = *self;
        match self.position(&name) {
            Some(k) => {
                let prev = self.vals[k];
                self.vals.set(k, v);
                proof {
                    let c = choose|c: int| 0 <= c < before.keys@.len() && #[trigger] before.keys@[c]@ == name@;
                    assert(c == k);
                    assert forall|other: Seq<char>| other != name@ implies #[trigger] self.lookup(other) == before.lookup(other) by {
                        if exists|c: int| 0 <= c < self.keys@.len() && #[trigger] self.keys@[c]@ == other {
                            let c = choose|c: int| 0 <= c < self.keys@.len() && #[trigger] self.keys@[c]@ == other;
                            assert(c != k);
                        }
                    }
                    assert(self.lookup(name@) == Some(v)) by {
                        let c = choose|c: int| 0 <= c < self.keys@.len() && #[trigger] self.keys@[c]@ == name@;
                        assert(c == k);
                    }
                }
                Some(prev)
            },
            None => {
                self.keys.push(name);
                self.vals.push(v);
                proof {
                    let n = before.keys@.len() as int;
                    assert(self.keys@[n]@ == name@);
                    assert(self.lookup(name@) == Some(v)) by {
                        let c = choose|c: int| 0 <= c < self.keys@.len() && #[trigger] self.keys@[c]@ == name@;
                        assert(c == n);
                    }
                    assert forall|other: Seq<char>| other != name@ implies #[trigger] self.lookup(other) == before.lookup(other) by {
                        if exists|c: int| 0 <= c < self.keys@.len() && #[trigger] self.keys@[c]@ == other {
                            let c = choose|c: int| 0 <= c < self.keys@.len() && #[trigger] self.keys@[c]@ == other;
                            assert(c != n);
                            assert(before.keys@[c] == self.keys@[c]);
                        }
                        if exists|c: int| 0 <= c < before.keys@.len() && #[trigger] before.keys@[c]@ == other {
                            let c = choose|c: int| 0 <= c < before.keys@.len() && #[trigger] before.keys@[c]@ == other;
                            assert(self.keys@[c] == before.keys@[c]);
                        }
                    }
                    assert(names(self.keys@) =~= names(before.keys@).push(name@));
                }
                None
            },
        }
    }

    /// Copies of the keys, in insertion order.
    pub fn keys(&self) -> (r: Vec<Ident>)
        ensures
            names(r@) == self.key_names(),
    {
        let mut r: Vec<Ident> = Vec::new();
        let mut i: usize = 0;
        while i < self.keys.len()
            invariant
                i <= self.keys@.len(),
                r@.len() == i,
                forall|k: int| 0 <= k < i ==> #[trigger] r@[k]@ == self.keys@[k]@,
            decreases self.keys@.len() - i,
        {
            r.push(self.keys[i].duplicate());
            i = i + 1;
        }
        assert(names(r@) =~= names(self.keys@));
        r
    }
}

} // verus!
