//! The directory handle cache: virtual path to the directory handle the
//! resolver obtained for it. Removal evicts eagerly, since the substrate
//! never says when a handle went stale.
use vstd::prelude::*;

use crate::assoc::{
    assoc_map, has_key, keys_unique, lemma_assoc_absent, lemma_assoc_index, lemma_assoc_push,
    lemma_assoc_remove, lemma_assoc_update,
};
use crate::path::{is_prefix, VirtualPath};

verus! {

/// The cache once `base` was removed: recursively, every entry at or below
/// `base` goes; otherwise only the entry of `base`.
pub open spec fn evicted<H>(m: Map<Seq<Seq<char>>, H>, base: Seq<Seq<char>>, recursive: bool) -> Map<
    Seq<Seq<char>>,
    H,
> {
    if recursive {
        Map::new(|k: Seq<Seq<char>>| m.contains_key(k) && !is_prefix(base, k), |k: Seq<Seq<char>>| m[k])
    } else {
        m.remove(base)
    }
}

/// After a removal the cache holds no handle for the removed path, and
/// after a recursive one none for anything below it: a later lookup goes to
/// the substrate, which no longer has the entry.
pub proof fn lemma_evicted_is_gone<H>(
    m: Map<Seq<Seq<char>>, H>,
    base: Seq<Seq<char>>,
    recursive: bool,
    k: Seq<Seq<char>>,
)
    ensures
        !evicted(m, base, recursive).contains_key(base),
        recursive && is_prefix(base, k) ==> !evicted(m, base, recursive).contains_key(k),
        !is_prefix(base, k) && m.contains_key(k) ==> evicted(m, base, recursive).contains_key(k)
            && evicted(m, base, recursive)[k] == m[k],
{
    assert(base.subrange(0, base.len() as int) =~= base);
}

/// Directory handles by virtual path.
pub struct DirCache<H> {
    entries: Vec<(VirtualPath, H)>,
}

spec fn cache_pairs<H>(s: Seq<(VirtualPath, H)>) -> Seq<(Seq<Seq<char>>, H)> {
    s.map_values(|e: (VirtualPath, H)| (e.0@, e.1))
}

impl<H> View for DirCache<H> {
    type V = Map<Seq<Seq<char>>, H>;

    closed spec fn view(&self) -> Map<Seq<Seq<char>>, H> {
        assoc_map(cache_pairs(self.entries@))
    }
}

impl<H> DirCache<H> {
    /// Paths are distinct.
    pub closed spec fn wf(&self) -> bool {
        keys_unique(cache_pairs(self.entries@))
    }

    /// An empty cache.
    pub fn new() -> (r: DirCache<H>)
        ensures
            r.wf(),
            r@ == Map::<Seq<Seq<char>>, H>::empty(),
    {
        let r = DirCache { entries: Vec::new() };
        assert(cache_pairs(r.entries@) =~= Seq::empty());
        assert(r@ =~= Map::<Seq<Seq<char>>, H>::empty());
        r
    }

    fn index_of(&self, path: &VirtualPath) -> (r: Option<usize>)
        requires
            self.wf(),
        ensures
            r matches Some(i) ==> i < self.entries@.len() && self.entries@[i as int].0@ == path@
                && self@.contains_key(path@) && self@[path@] == self.entries@[i as int].1,
            r is None ==> !self@.contains_key(path@),
    {
        let mut i: usize = 0;
        while i < self.entries.len()
            invariant
                self.wf(),
                i <= self.entries@.len(),
                forall|j: int| 0 <= j < i ==> self.entries@[j].0@ != path@,
            decreases self.entries@.len() - i,
        {
            if self.entries[i].0.same_as(path) {
                proof {
                    lemma_assoc_index(cache_pairs(self.entries@), i as int);
                }
                return Some(i);
            }
            i = i + 1;
        }
        proof {
            let s = cache_pairs(self.entries@);
            assert forall|j: int| 0 <= j < s.len() implies s[j].0 != path@ by {
                assert(s[j].0 == self.entries@[j].0@);
            }
            lemma_assoc_absent(s, path@);
        }
        None
    }

    /// The handle cached for `path`.
    pub fn get_cached_dir_handle(&self, path: &VirtualPath) -> (r: Option<&H>)
        requires
            self.wf(),
        ensures
            r matches Some(h) ==> self@.contains_key(path@) && self@[path@] == *h,
            r is None ==> !self@.contains_key(path@),
    {
        match self.index_of(path) {
            Some(i) => Some(&self.entries[i].1),
            None => None,
        }
    }

    /// Caches `handle` for `path`, replacing any handle cached before.
    pub fn set_cached_dir_handle(&mut self, path: VirtualPath, handle: H)
        requires
            old(self).wf(),
        ensures
            final(self).wf(),
            final(self)@ == old(self)@.insert(path@, handle),
    {
        let ghost s = cache_pairs(self.entries@);
        let ghost key = path@;
        match self.index_of(&path) {
            Some(i) => {
                proof {
                    lemma_assoc_update(s, i as int, handle);
                }
                self.entries.set(i, (path, handle));
                assert(cache_pairs(self.entries@) =~= s.update(i as int, (s[i as int].0, handle)));
            },
            None => {
                proof {
                    assert(!has_key(s, key)) by {
                        if has_key(s, key) {
                            let j = choose|j: int| 0 <= j < s.len() && s[j].0 == key;
                            lemma_assoc_index(s, j);
                        }
                    }
                    lemma_assoc_push(s, key, handle);
                }
                self.entries.push((path, handle));
                assert(cache_pairs(self.entries@) =~= s.push((key, handle)));
            },
        }
    }

    /// Evicts `path` after its removal: with `recursive`, every entry at or
    /// below it; otherwise the entry of `path` alone.
    pub fn remove_cached_dir_handle(&mut self, path: &VirtualPath, recursive: bool)
        requires
            old(self).wf(),
        ensures
            final(self).wf(),
            final(self)@ == evicted(old(self)@, path@, recursive),
    {
        let ghost m = self@;
        if !recursive {
            if let Some(i) = self.index_of(path) {
                let ghost s = cache_pairs(self.entries@);
                proof {
                    lemma_assoc_remove(s, i as int);
                }
                self.entries.remove(i);
                assert(cache_pairs(self.entries@) =~= s.remove(i as int));
            } else {
                assert(m.remove(path@) =~= m);
            }
            return;
        }
        let mut i: usize = 0;
        while i < self.entries.len()
            invariant
                self.wf(),
                i <= self.entries@.len(),
                forall|j: int| 0 <= j < i ==> !is_prefix(path@, #[trigger] self.entries@[j].0@),
                forall|k: Seq<Seq<char>>| #[trigger]
                    self@.contains_key(k) ==> m.contains_key(k) && self@[k] == m[k],
                forall|k: Seq<Seq<char>>|
                    m.contains_key(k) && !is_prefix(path@, k) ==> #[trigger] self@.contains_key(k),
            decreases self.entries@.len() - i,
        {
            if self.entries[i].0.starts_with(path) {
                let ghost s = cache_pairs(self.entries@);
                let ghost before = self@;
                let ghost gone = self.entries@[i as int].0@;
                proof {
                    lemma_assoc_remove(s, i as int);
                }
                self.entries.remove(i);
                proof {
                    assert(cache_pairs(self.entries@) =~= s.remove(i as int));
                    assert(s[i as int].0 == gone);
                    assert(self@ == before.remove(gone));
                    assert forall|j: int| 0 <= j < i implies !is_prefix(
                        path@,
                        #[trigger] self.entries@[j].0@,
                    ) by {
                        assert(cache_pairs(self.entries@)[j] == s[j]);
                    }
                    assert forall|k: Seq<Seq<char>>|
                        m.contains_key(k) && !is_prefix(path@, k) implies #[trigger] self@.contains_key(k) by {
                        assert(before.contains_key(k));
                        assert(k != gone);
                    }
                }
            } else {
                i = i + 1;
            }
        }
        proof {
            let s = cache_pairs(self.entries@);
            assert forall|k: Seq<Seq<char>>| #[trigger]
                self@.contains_key(k) implies !is_prefix(path@, k) by {
                let j = choose|j: int| 0 <= j < s.len() && s[j].0 == k;
                assert(s[j].0 == self.entries@[j].0@);
            }
            assert(self@ =~= evicted(m, path@, true));
        }
    }
}

} // verus!
