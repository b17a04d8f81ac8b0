//! The preview cache: at most one preview per entry name, the latest
//! insert winning.
use vstd::prelude::*;
use crate::preview::Preview;

verus! {

/// Previews keyed by entry name (exact string equality).
pub struct PreviewCache {
    entries: Vec<(String, Preview)>,
}

impl PreviewCache {
    /// The name stored at position `i`.
    pub closed spec fn key_at(&self, i: int) -> Seq<char> {
        self.entries@[i].0@
    }

    /// Each name is stored once.
    pub closed spec fn wf(&self) -> bool {
        forall|i: int, j: int|
            0 <= i < self.entries@.len() && 0 <= j < self.entries@.len() && #[trigger] self.key_at(i)
                == #[trigger] self.key_at(j) ==> i == j
    }

    spec fn holds(&self, k: Seq<char>) -> bool {
        exists|i: int| 0 <= i < self.entries@.len() && #[trigger] self.key_at(i) == k
    }

    spec fn position(&self, k: Seq<char>) -> int {
        choose|i: int| 0 <= i < self.entries@.len() && #[trigger] self.key_at(i) == k
    }

    /// The cache as a map from entry name to preview.
    pub closed spec fn view(&self) -> Map<Seq<char>, Preview> {
        Map::new(|k: Seq<char>| self.holds(k), |k: Seq<char>| self.entries@[self.position(k)].1)
    }

    proof fn lemma_lookup(&self, i: int)
        requires
            self.wf(),
            0 <= i < self.entries@.len(),
        ensures
            self.view().contains_key(self.key_at(i)),
            self.view()[self.key_at(i)] == self.entries@[i].1,
    {
        let k = self.key_at(i);
        assert(self.holds(k));
        let j = self.position(k);
        assert(self.key_at(j) == self.key_at(i));
    }

    /// An empty cache.
    pub fn new() -> (r: PreviewCache)
        ensures
            r.wf(),
            r.view() == Map::<Seq<char>, Preview>::empty(),
    {
        let r = PreviewCache { entries: Vec::new() };
        assert(r.view() =~= Map::<Seq<char>, Preview>::empty());
        r
    }

    fn find(&self, key: &String) -> (r: Option<usize>)
        requires
            self.wf(),
        ensures
            r is Some ==> r->Some_0 < self.entries@.len() && self.key_at(r->Some_0 as int) == key@,
            r is None ==> !self.view().contains_key(key@),
    {
        let mut i: usize = 0;
        while i < self.entries.len()
            invariant
                i <= self.entries@.len(),
                forall|j: int| 0 <= j < i ==> #[trigger] self.key_at(j) != key@,
            decreases self.entries@.len() - i,
        {
            if self.entries[i].0 == *key {
                return Some(i);
            }
            i += 1;
        }
        None
    }

    /// The preview stored for `key`, if any.
    pub fn get(&self, key: &String) -> (r: Option<&Preview>)
        requires
            self.wf(),
        ensures
            r == (if self.view().contains_key(key@) {
                Some(&self.view()[key@])
            } else {
                None::<&Preview>
            }),
    {
        match self.find(key) {
            Some(i) => {
                proof {
                    self.lemma_lookup(i as int);
                }
                Some(&self.entries[i].1)
            },
            None => None,
        }
    }

    /// Storing `(k, v)` at position `p`, over the entry with name `k` or
    /// appended when `k` is absent, keeps each name once and stores `v`
    /// for `k` in the map.
    proof fn lemma_store(old_cache: &Self, new_cache: &Self, k: Seq<char>, v: Preview, p: int)
        requires
            old_cache.wf(),
            0 <= p <= old_cache.entries@.len(),
            p == old_cache.entries@.len() ==> !old_cache.holds(k),
            p < old_cache.entries@.len() ==> old_cache.key_at(p) == k,
            new_cache.entries@.len() == if p == old_cache.entries@.len() {
                p + 1
            } else {
                old_cache.entries@.len() as int
            },
            new_cache.key_at(p) == k,
            new_cache.entries@[p].1 == v,
            forall|j: int|
                0 <= j < new_cache.entries@.len() && j != p ==> #[trigger] new_cache.entries@[j]
                    == old_cache.entries@[j],
        ensures
            new_cache.wf(),
            new_cache.view() == old_cache.view().insert(k, v),
    {
        let o = old_cache;
        let s = new_cache;
        let n = s.entries@.len() as int;
        assert(forall|j: int| 0 <= j < n && j != p ==> s.key_at(j) == #[trigger] o.key_at(j)) by {
            assert forall|j: int| 0 <= j < n && j != p implies s.key_at(j) == #[trigger] o.key_at(j) by {
                assert(s.entries@[j] == o.entries@[j]);
            }
        }
        assert forall|a: int, b: int|
            0 <= a < n && 0 <= b < n && #[trigger] s.key_at(a) == #[trigger] s.key_at(b) implies a == b by {
            if a == p && b != p {
                assert(o.key_at(b) == k);
            }
            if b == p && a != p {
                assert(o.key_at(a) == k);
            }
            if a != p && b != p {
                assert(o.key_at(a) == s.key_at(a));
                assert(o.key_at(b) == s.key_at(b));
            }
        }
        assert forall|c: Seq<char>| #[trigger] s.holds(c) == (o.holds(c) || c == k) by {
            if o.holds(c) {
                let j = o.position(c);
                if j != p {
                    assert(s.key_at(j) == c);
                }
            }
            if s.holds(c) {
                let j = s.position(c);
                if j != p {
                    assert(o.key_at(j) == c);
                }
            }
            if c == k {
                assert(s.key_at(p) == c);
            }
        }
        assert forall|c: Seq<char>| #[trigger] s.holds(c) && c != k implies s.entries@[s.position(
            c,
        )].1 == o.entries@[o.position(c)].1 by {
            let j = s.position(c);
            assert(o.key_at(j) == c);
        }
        s.lemma_lookup(p);
        assert(s.view() =~= o.view().insert(k, v));
    }

    /// Stores `preview` for `key`, replacing any preview stored for it.
    pub fn insert(&mut self, key: String, preview: Preview)
        requires
            old(self).wf(),
        ensures
            final(self).wf(),
            final(self).view() == old(self).view().insert(key@, preview),
    {
        let ghost k = key@;
        let ghost p: int;
        match self.find(&key) {
            Some(i) => {
                proof {
                    p = i as int;
                }
                self.entries.set(i, (key, preview));
            },
            None => {
                proof {
                    p = self.entries@.len() as int;
                }
                self.entries.push((key, preview));
            },
        }
        proof {
            Self::lemma_store(&*old(self), &*self, k, preview, p);
        }
    }
}

} // verus!
