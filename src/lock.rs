//! The per-path lock table.
//!
//! The substrate allows one synchronous handle per file, while callers may
//! hold several open files on one path. The table reconciles the two: each
//! path has shared seats (read-only or read-write), an exclusive seat for
//! destructive operations, a FIFO queue of waiters, and the one cached handle
//! that compatible holders share. The first holder of a path (the creator)
//! opens the handle and publishes it; when the last holder leaves, the
//! handle is handed back to be closed.
//!
//! The table does no waiting itself: an arrival takes a waiter id, polling
//! grants a seat only to the head of the queue when it is compatible, and
//! `head_ready` names the waiter that should be woken next.
use vstd::prelude::*;

use crate::assoc::{
    assoc_map, has_key, keys_unique, lemma_assoc_absent, lemma_assoc_index, lemma_assoc_push,
    lemma_assoc_remove,
};
use crate::options::{covers, mode_covers, SyncAccessMode};
use crate::path::VirtualPath;

verus! {

/// The seat a caller asks for.
#[derive(Clone, Copy, Debug, PartialEq, Eq, Structural)]
pub enum LockMode {
    /// A shared seat whose holder reads, or reads and writes, through the
    /// cached handle.
    Shared(SyncAccessMode),
    /// The only seat on the path.
    Exclusive,
}

/// A parked acquirer: its arrival id and the seat it waits for.
#[derive(Clone, Copy, Debug, PartialEq, Eq, Structural)]
pub struct Waiter {
    pub id: u64,
    pub mode: LockMode,
}

/// What the table records for one path.
pub struct LockEntry<S> {
    /// The cached handle and the mode it was opened in.
    pub cached: Option<(S, SyncAccessMode)>,
    /// Shared read-only holders.
    pub readers: u64,
    /// Shared read-write holders.
    pub writers: u64,
    /// Whether the exclusive seat is held.
    pub exclusive: bool,
    /// Waiters in order of arrival.
    pub queue: Seq<Waiter>,
}

/// The number of shared holders.
pub open spec fn shared_holders<S>(e: LockEntry<S>) -> int {
    e.readers + e.writers
}

/// The entry has a holder or a waiter.
pub open spec fn occupied<S>(e: LockEntry<S>) -> bool {
    shared_holders(e) > 0 || e.exclusive || e.queue.len() > 0
}

/// Whether a seat of mode `m` can be given now. An exclusive seat needs an
/// idle path; a shared seat needs no exclusive holder, and either no holder
/// at all (the new holder creates the handle) or a cached handle whose mode
/// serves the request.
pub open spec fn compatible<S>(e: LockEntry<S>, m: LockMode) -> bool {
    match m {
        LockMode::Exclusive => !e.exclusive && shared_holders(e) == 0,
        LockMode::Shared(a) => !e.exclusive && (shared_holders(e) == 0 || (e.cached matches Some(
            c,
        ) && covers(c.1, a))),
    }
}

/// The entry once the head of its queue took a seat of mode `m`.
pub open spec fn seated<S>(e: LockEntry<S>, m: LockMode) -> LockEntry<S> {
    LockEntry {
        cached: e.cached,
        readers: if m == LockMode::Shared(SyncAccessMode::Readonly) {
            (e.readers + 1) as u64
        } else {
            e.readers
        },
        writers: if m == LockMode::Shared(SyncAccessMode::Readwrite) {
            (e.writers + 1) as u64
        } else {
            e.writers
        },
        exclusive: e.exclusive || m == LockMode::Exclusive,
        queue: e.queue.drop_first(),
    }
}

/// Whether a seat of mode `m` is held.
pub open spec fn holds<S>(e: LockEntry<S>, m: LockMode) -> bool {
    match m {
        LockMode::Exclusive => e.exclusive,
        LockMode::Shared(SyncAccessMode::Readonly) => e.readers > 0,
        LockMode::Shared(SyncAccessMode::Readwrite) => e.writers > 0,
    }
}

/// The counters once a holder of mode `m` left, the handle still in place.
pub open spec fn left<S>(e: LockEntry<S>, m: LockMode) -> LockEntry<S> {
    LockEntry {
        cached: e.cached,
        readers: if m == LockMode::Shared(SyncAccessMode::Readonly) {
            (e.readers - 1) as u64
        } else {
            e.readers
        },
        writers: if m == LockMode::Shared(SyncAccessMode::Readwrite) {
            (e.writers - 1) as u64
        } else {
            e.writers
        },
        exclusive: e.exclusive && m != LockMode::Exclusive,
        queue: e.queue,
    }
}

/// No holder is left.
pub open spec fn idle<S>(e: LockEntry<S>) -> bool {
    shared_holders(e) == 0 && !e.exclusive
}

/// The entry once a holder of mode `m` left: with the last holder gone the
/// handle leaves the table.
pub open spec fn unseated<S>(e: LockEntry<S>, m: LockMode) -> LockEntry<S> {
    let l = left(e, m);
    if idle(l) {
        LockEntry { cached: None, ..l }
    } else {
        l
    }
}

/// The handle to close once a holder of mode `m` left.
pub open spec fn closed_handle<S>(e: LockEntry<S>, m: LockMode) -> Option<S> {
    if idle(left(e, m)) {
        match e.cached {
            Some(c) => Some(c.0),
            None => None,
        }
    } else {
        None
    }
}

/// The facts that hold of every entry of the table.
pub open spec fn entry_ok<S>(e: LockEntry<S>, next: u64) -> bool {
    // an exclusive holder is alone, and does not use the cached handle
    &&& e.exclusive ==> shared_holders(e) == 0 && e.cached is None
    // a cached read-only handle serves no writer
    &&& (e.cached matches Some(c) && c.1 == SyncAccessMode::Readonly) ==> e.writers == 0
    // the handle is cached only while someone holds a seat
    &&& e.cached is Some ==> shared_holders(e) > 0
    // until the handle is published, its creator is the only shared holder
    &&& e.cached is None ==> shared_holders(e) <= 1
    &&& occupied(e)
    // waiters queue in order of arrival
    &&& forall|i: int, j: int|
        0 <= i < j < e.queue.len() ==> #[trigger] e.queue[i].id < #[trigger] e.queue[j].id
    &&& forall|i: int| 0 <= i < e.queue.len() ==> #[trigger] e.queue[i].id < next
    // every holder and waiter took an arrival id
    &&& shared_holders(e) + (if e.exclusive {
        1int
    } else {
        0int
    }) + e.queue.len() <= next
}

/// The head of `p`'s queue is waiter `id`, and its seat can be given.
pub open spec fn can_grant<S>(m: Map<Seq<Seq<char>>, LockEntry<S>>, p: Seq<Seq<char>>, id: u64) -> bool {
    &&& m.contains_key(p)
    &&& m[p].queue.len() > 0
    &&& m[p].queue[0].id == id
    &&& compatible(m[p], m[p].queue[0].mode)
}

/// The table once waiter `w` joined the queue of `p`.
pub open spec fn enqueued<S>(m: Map<Seq<Seq<char>>, LockEntry<S>>, p: Seq<Seq<char>>, w: Waiter) -> Map<
    Seq<Seq<char>>,
    LockEntry<S>,
> {
    if m.contains_key(p) {
        m.insert(p, LockEntry { queue: m[p].queue.push(w), ..m[p] })
    } else {
        m.insert(
            p,
            LockEntry { cached: None, readers: 0, writers: 0, exclusive: false, queue: seq![w] },
        )
    }
}

/// The table once the head of `p`'s queue took its seat.
pub open spec fn granted<S>(m: Map<Seq<Seq<char>>, LockEntry<S>>, p: Seq<Seq<char>>) -> Map<
    Seq<Seq<char>>,
    LockEntry<S>,
> {
    m.insert(p, seated(m[p], m[p].queue[0].mode))
}

/// The table once a holder of mode `mode` left `p`: the entry goes when
/// nobody holds or waits on it any more.
pub open spec fn released<S>(
    m: Map<Seq<Seq<char>>, LockEntry<S>>,
    p: Seq<Seq<char>>,
    mode: LockMode,
) -> Map<Seq<Seq<char>>, LockEntry<S>> {
    let e = unseated(m[p], mode);
    if occupied(e) {
        m.insert(p, e)
    } else {
        m.remove(p)
    }
}

/// The queue without the waiter `id`, if it is there.
pub open spec fn without_waiter(q: Seq<Waiter>, id: u64) -> Seq<Waiter> {
    if exists|k: int| 0 <= k < q.len() && q[k].id == id {
        q.remove(choose|k: int| 0 <= k < q.len() && q[k].id == id)
    } else {
        q
    }
}

/// The table once waiter `id` gave up waiting on `p`.
pub open spec fn cancelled<S>(m: Map<Seq<Seq<char>>, LockEntry<S>>, p: Seq<Seq<char>>, id: u64) -> Map<
    Seq<Seq<char>>,
    LockEntry<S>,
> {
    if m.contains_key(p) {
        let e = LockEntry { queue: without_waiter(m[p].queue, id), ..m[p] };
        if occupied(e) {
            m.insert(p, e)
        } else {
            m.remove(p)
        }
    } else {
        m
    }
}

/// A cached handle may be stored for `p` in mode `mode`: someone holds a
/// shared seat, no handle is cached yet, and the mode serves every holder.
pub open spec fn can_publish<S>(
    m: Map<Seq<Seq<char>>, LockEntry<S>>,
    p: Seq<Seq<char>>,
    mode: SyncAccessMode,
) -> bool {
    &&& m.contains_key(p)
    &&& m[p].cached is None
    &&& !m[p].exclusive
    &&& shared_holders(m[p]) > 0
    &&& m[p].writers > 0 ==> covers(mode, SyncAccessMode::Readwrite)
}

/// The state of one path.
struct PathLock<S> {
    path: VirtualPath,
    handle: Option<S>,
    mode: SyncAccessMode,
    readers: u64,
    writers: u64,
    exclusive: bool,
    queue: Vec<Waiter>,
}

impl<S> PathLock<S> {
    closed spec fn entry(&self) -> LockEntry<S> {
        LockEntry {
            cached: match self.handle {
                Some(h) => Some((h, self.mode)),
                None => None,
            },
            readers: self.readers,
            writers: self.writers,
            exclusive: self.exclusive,
            queue: self.queue@,
        }
    }
}

spec fn pairs_of<S>(s: Seq<PathLock<S>>) -> Seq<(Seq<Seq<char>>, LockEntry<S>)> {
    s.map_values(|e: PathLock<S>| (e.path@, e.entry()))
}

/// A seat held on a path; handing it back to the table releases it.
#[derive(Debug)]
pub struct PathLockGuard {
    path: VirtualPath,
    mode: LockMode,
}

impl PathLockGuard {
    /// The path the seat is held on.
    pub closed spec fn held_path(&self) -> Seq<Seq<char>> {
        self.path@
    }

    /// The kind of seat.
    pub closed spec fn held_mode(&self) -> LockMode {
        self.mode
    }

    /// The kind of seat.
    pub fn mode(&self) -> (r: LockMode)
        ensures
            r == self.held_mode(),
    {
        self.mode
    }

    /// The path the seat is held on.
    pub fn path(&self) -> (r: &VirtualPath)
        ensures
            r@ == self.held_path(),
    {
        &self.path
    }
}

/// An exclusive acquisition in progress: the waiter's path and id.
#[derive(Debug)]
pub struct PathLockFuture {
    path: VirtualPath,
    id: u64,
}

impl PathLockFuture {
    /// The path waited on.
    pub closed spec fn waited_path(&self) -> Seq<Seq<char>> {
        self.path@
    }

    /// The waiter's arrival id.
    pub closed spec fn waiter_id(&self) -> u64 {
        self.id
    }

    /// The waiter's arrival id.
    pub fn id(&self) -> (r: u64)
        ensures
            r == self.waiter_id(),
    {
        self.id
    }

    /// Tries to take the exclusive seat: given only when this waiter heads
    /// the queue and nobody holds the path.
    pub fn poll<S>(&self, table: &mut LockTable<S>) -> (r: Option<PathLockGuard>)
        requires
            old(table).wf(),
        ensures
            final(table).wf(),
            final(table).next_id() == old(table).next_id(),
            r.is_some() == can_grant(old(table)@, self.waited_path(), self.waiter_id()),
            r.is_some() ==> final(table)@ == granted(old(table)@, self.waited_path()),
            r.is_none() ==> final(table)@ == old(table)@,
            r matches Some(g) ==> g.held_path() == self.waited_path() && g.held_mode() == old(
                table)@[self.waited_path()].queue[0].mode,
    {
        table.poll_acquire(&self.path, self.id)
    }
}

/// The lock table.
pub struct LockTable<S> {
    entries: Vec<PathLock<S>>,
    next_id: u64,
}

impl<S> View for LockTable<S> {
    type V = Map<Seq<Seq<char>>, LockEntry<S>>;

    closed spec fn view(&self) -> Map<Seq<Seq<char>>, LockEntry<S>> {
        assoc_map(pairs_of(self.entries@))
    }
}

impl<S> LockTable<S> {
    /// The id the next arrival receives.
    pub closed spec fn next_id(&self) -> u64 {
        self.next_id
    }

    /// Paths are distinct and every entry satisfies `entry_ok`.
    pub closed spec fn wf(&self) -> bool {
        &&& keys_unique(pairs_of(self.entries@))
        &&& forall|p: Seq<Seq<char>>| #[trigger]
            self@.contains_key(p) ==> entry_ok(self@[p], self.next_id)
    }

    /// Every entry of a well-formed table satisfies `entry_ok`.
    pub proof fn lemma_entries_ok(&self, p: Seq<Seq<char>>)
        requires
            self.wf(),
            self@.contains_key(p),
        ensures
            entry_ok(self@[p], self.next_id()),
    {
    }

    /// An empty table.
    pub fn new() -> (r: LockTable<S>)
        ensures
            r.wf(),
            r@ == Map::<Seq<Seq<char>>, LockEntry<S>>::empty(),
            r.next_id() == 0,
    {
        let r = LockTable { entries: Vec::new(), next_id: 0 };
        assert(pairs_of(r.entries@) =~= Seq::empty());
        assert(r@ =~= Map::<Seq<Seq<char>>, LockEntry<S>>::empty());
        r
    }

    proof fn lemma_index(&self, i: int)
        requires
            keys_unique(pairs_of(self.entries@)),
            0 <= i < self.entries@.len(),
        ensures
            self@.contains_key(self.entries@[i].path@),
            self@[self.entries@[i].path@] == self.entries@[i].entry(),
    {
        lemma_assoc_index(pairs_of(self.entries@), i);
    }

    fn index_of(&self, path: &VirtualPath) -> (r: Option<usize>)
        requires
            keys_unique(pairs_of(self.entries@)),
        ensures
            r matches Some(i) ==> i < self.entries@.len() && self.entries@[i as int].path@ == path@
                && self@.contains_key(path@) && self@[path@] == self.entries@[i as int].entry(),
            r is None ==> !self@.contains_key(path@),
    {
        let mut i: usize = 0;
        while i < self.entries.len()
            invariant
                keys_unique(pairs_of(self.entries@)),
                i <= self.entries@.len(),
                forall|j: int| 0 <= j < i ==> self.entries@[j].path@ != path@,
            decreases self.entries@.len() - i,
        {
            if self.entries[i].path.same_as(path) {
                proof {
                    self.lemma_index(i as int);
                }
                return Some(i);
            }
            i = i + 1;
        }
        proof {
            let s = pairs_of(self.entries@);
            assert forall|j: int| 0 <= j < s.len() implies s[j].0 != path@ by {
                assert(s[j].0 == self.entries@[j].path@);
            }
            lemma_assoc_absent(s, path@);
        }
        None
    }

    /// Puts back, at position `i`, the entry of the same path.
    fn put_back(&mut self, i: usize, e: PathLock<S>)
        requires
            keys_unique(pairs_of(old(self).entries@)),
            i <= old(self).entries@.len(),
            forall|j: int|
                0 <= j < old(self).entries@.len() ==> old(self).entries@[j].path@ != e.path@,
        ensures
            keys_unique(pairs_of(final(self).entries@)),
            final(self)@ == old(self)@.insert(e.path@, e.entry()),
            final(self).next_id == old(self).next_id,
    {
        let ghost s = pairs_of(self.entries@);
        proof {
            assert(!has_key(s, e.path@)) by {
                assert forall|j: int| 0 <= j < s.len() implies s[j].0 != e.path@ by {
                    assert(s[j].0 == self.entries@[j].path@);
                }
            }
            lemma_assoc_push(s, e.path@, e.entry());
        }
        let ghost pushed = s.push((e.path@, e.entry()));
        self.entries.insert(i, e);
        proof {
            let t = pairs_of(self.entries@);
            // the same entries, in another order
            assert(t =~= s.insert(i as int, (e.path@, e.entry())));
            assert forall|k: Seq<Seq<char>>| has_key(t, k) <==> has_key(pushed, k) by {
                if has_key(t, k) {
                    let j = choose|j: int| 0 <= j < t.len() && t[j].0 == k;
                    if j < i {
                        assert(pushed[j] == t[j]);
                    } else if j == i {
                        assert(pushed[s.len() as int] == t[j]);
                    } else {
                        assert(pushed[j - 1] == t[j]);
                    }
                }
                if has_key(pushed, k) {
                    let j = choose|j: int| 0 <= j < pushed.len() && pushed[j].0 == k;
                    if j < i {
                        assert(pushed[j] == t[j]);
                    } else if j == s.len() {
                        assert(pushed[j] == t[i as int]);
                    } else {
                        assert(pushed[j] == t[j + 1]);
                    }
                }
            }
            assert(keys_unique(t)) by {
                assert forall|a: int, b: int|
                    0 <= a < t.len() && 0 <= b < t.len() && a != b implies t[a].0 != t[b].0 by {
                    let a2 = if a < i {
                        a
                    } else if a == i {
                        s.len() as int
                    } else {
                        a - 1
                    };
                    let b2 = if b < i {
                        b
                    } else if b == i {
                        s.len() as int
                    } else {
                        b - 1
                    };
                    assert(t[a] == pushed[a2]);
                    assert(t[b] == pushed[b2]);
                }
            }
            assert forall|k: Seq<Seq<char>>| #[trigger]
                assoc_map(t).contains_key(k) implies assoc_map(t)[k] == assoc_map(pushed)[k] by {
                let j = choose|j: int| 0 <= j < t.len() && t[j].0 == k;
                lemma_assoc_index(t, j);
                let j2 = if j < i {
                    j
                } else if j == i {
                    s.len() as int
                } else {
                    j - 1
                };
                assert(t[j] == pushed[j2]);
                lemma_assoc_index(pushed, j2);
            }
            assert(assoc_map(t) =~= assoc_map(pushed));
        }
    }

    /// Takes the entry at position `i` out of the table.
    fn take_out(&mut self, i: usize) -> (e: PathLock<S>)
        requires
            keys_unique(pairs_of(old(self).entries@)),
            i < old(self).entries@.len(),
        ensures
            keys_unique(pairs_of(final(self).entries@)),
            e == old(self).entries@[i as int],
            final(self)@ == old(self)@.remove(e.path@),
            final(self).entries@.len() == old(self).entries@.len() - 1,
            forall|j: int|
                0 <= j < final(self).entries@.len() ==> final(self).entries@[j].path@ != e.path@,
            final(self).next_id == old(self).next_id,
    {
        let ghost s = pairs_of(self.entries@);
        proof {
            lemma_assoc_remove(s, i as int);
        }
        let e = self.entries.remove(i);
        proof {
            assert(pairs_of(self.entries@) =~= s.remove(i as int));
            assert forall|j: int| 0 <= j < self.entries@.len() implies self.entries@[j].path@
                != e.path@ by {
                let j2 = if j < i {
                    j
                } else {
                    j + 1
                };
                assert(self.entries@[j] == old(self).entries@[j2]);
                assert(s[j2].0 != s[i as int].0);
            }
        }
        e
    }

    /// Joins the queue of `path` with a request for a seat of mode `mode`,
    /// and returns the arrival id; `None` once every id has been given out.
    pub fn arrive(&mut self, path: &VirtualPath, mode: LockMode) -> (r: Option<u64>)
        requires
            old(self).wf(),
        ensures
            final(self).wf(),
            old(self).next_id() == u64::MAX ==> r is None && final(self)@ == old(self)@
                && final(self).next_id() == old(self).next_id(),
            old(self).next_id() < u64::MAX ==> r == Some(old(self).next_id()) && final(self).next_id() == old(self).next_id() + 1 && final(self)@ == enqueued(
                old(self)@,
                path@,
                (Waiter { id: old(self).next_id(), mode }),
            ),
    {
        if self.next_id == u64::MAX {
            return None;
        }
        let id = self.next_id;
        let w = Waiter { id, mode };
        let ghost m = self@;
        match self.index_of(path) {
            Some(i) => {
                let mut e = self.take_out(i);
                e.queue.push(w);
                self.next_id = id + 1;
                self.put_back(i, e);
                proof {
                    assert(m.remove(path@).insert(path@, e.entry()) =~= enqueued(m, path@, w));
                }
            },
            None => {
                let e = PathLock {
                    path: path.duplicate(),
                    handle: None,
                    mode: SyncAccessMode::Readonly,
                    readers: 0,
                    writers: 0,
                    exclusive: false,
                    queue: vec![w],
                };
                self.next_id = id + 1;
                let n = self.entries.len();
                proof {
                    assert forall|j: int| 0 <= j < self.entries@.len() implies self.entries@[j].path@
                        != e.path@ by {
                        self.lemma_index(j);
                    }
                    assert(e.queue@ =~= seq![w]);
                }
                self.put_back(n, e);
                proof {
                    assert(m.insert(path@, e.entry()) =~= enqueued(m, path@, w));
                }
            },
        }
        proof {
            let t = self@;
            assert forall|p: Seq<Seq<char>>| #[trigger] t.contains_key(p) implies entry_ok(
                t[p],
                self.next_id,
            ) by {
                if p != path@ {
                    assert(m.contains_key(p));
                    assert(entry_ok(m[p], id));
                }
            }
        }
        Some(id)
    }

    /// Gives waiter `id` its seat on `path` if it heads the queue and its
    /// request is compatible; returns the guard of that seat.
    pub fn poll_acquire(&mut self, path: &VirtualPath, id: u64) -> (r: Option<PathLockGuard>)
        requires
            old(self).wf(),
        ensures
            final(self).wf(),
            final(self).next_id() == old(self).next_id(),
            r.is_some() == can_grant(old(self)@, path@, id),
            r.is_some() ==> final(self)@ == granted(old(self)@, path@),
            r.is_none() ==> final(self)@ == old(self)@,
            r matches Some(g) ==> g.held_path() == path@ && g.held_mode() == old(self)@[path@].queue[0].mode,
    {
        let ghost m = self@;
        let i = match self.index_of(path) {
            Some(i) => i,
            None => return None,
        };
        if self.entries[i].queue.len() == 0 || self.entries[i].queue[0].id != id {
            return None;
        }
        let w = self.entries[i].queue[0];
        let ok = match w.mode {
            LockMode::Exclusive => !self.entries[i].exclusive && self.entries[i].readers == 0
                && self.entries[i].writers == 0,
            LockMode::Shared(a) => {
                !self.entries[i].exclusive && ((self.entries[i].readers == 0
                    && self.entries[i].writers == 0) || (self.entries[i].handle.is_some()
                    && mode_covers(self.entries[i].mode, a)))
            },
        };
        if !ok {
            return None;
        }
        let mut e = self.take_out(i);
        proof {
            assert(entry_ok(m[path@], self.next_id));
        }
        e.queue.remove(0);
        match w.mode {
            LockMode::Exclusive => {
                e.exclusive = true;
            },
            LockMode::Shared(SyncAccessMode::Readonly) => {
                e.readers = e.readers + 1;
            },
            LockMode::Shared(SyncAccessMode::Readwrite) => {
                e.writers = e.writers + 1;
            },
        }
        let guard = PathLockGuard { path: e.path.duplicate(), mode: w.mode };
        self.put_back(i, e);
        proof {
            let old_e = m[path@];
            assert(e.entry().queue =~= old_e.queue.drop_first());
            assert(e.entry() == seated(old_e, w.mode));
            assert(m.remove(path@).insert(path@, e.entry()) =~= granted(m, path@));
            let ne = e.entry();
            assert forall|a: int, b: int| 0 <= a < b < ne.queue.len() implies #[trigger] ne.queue[a].id
                < #[trigger] ne.queue[b].id by {
                assert(ne.queue[a] == old_e.queue[a + 1]);
                assert(ne.queue[b] == old_e.queue[b + 1]);
            }
            assert forall|a: int| 0 <= a < ne.queue.len() implies #[trigger] ne.queue[a].id
                < self.next_id by {
                assert(ne.queue[a] == old_e.queue[a + 1]);
            }
            let t = self@;
            assert forall|p: Seq<Seq<char>>| #[trigger] t.contains_key(p) implies entry_ok(
                t[p],
                self.next_id,
            ) by {
                if p != path@ {
                    assert(m.contains_key(p));
                }
            }
        }
        Some(guard)
    }

    /// The waiter of `path` that can take its seat now, if any: the head of
    /// the queue when its request is compatible.
    pub fn head_ready(&self, path: &VirtualPath) -> (r: Option<u64>)
        requires
            self.wf(),
        ensures
            r matches Some(id) ==> can_grant(self@, path@, id),
            r is None ==> !(self@.contains_key(path@) && self@[path@].queue.len() > 0
                && compatible(self@[path@], self@[path@].queue[0].mode)),
    {
        let i = match self.index_of(path) {
            Some(i) => i,
            None => return None,
        };
        let e = &self.entries[i];
        if e.queue.len() == 0 {
            return None;
        }
        let w = e.queue[0];
        let ok = match w.mode {
            LockMode::Exclusive => !e.exclusive && e.readers == 0 && e.writers == 0,
            LockMode::Shared(a) => {
                !e.exclusive && ((e.readers == 0 && e.writers == 0) || (e.handle.is_some()
                    && mode_covers(e.mode, a)))
            },
        };
        if ok {
            Some(w.id)
        } else {
            None
        }
    }

    /// The handle cached for `path`, if any.
    pub fn cached_handle(&self, path: &VirtualPath) -> (r: Option<&S>)
        requires
            self.wf(),
        ensures
            r matches Some(h) ==> self@.contains_key(path@) && (self@[path@].cached matches Some(c)
                && c.0 == *h),
            r is None ==> !(self@.contains_key(path@) && self@[path@].cached is Some),
    {
        match self.index_of(path) {
            Some(i) => self.entries[i].handle.as_ref(),
            None => None,
        }
    }

    /// Stores the handle that the creator of `path` opened in mode `mode`.
    /// A handle that cannot be stored (the creator left, another handle is
    /// cached, or the mode does not serve the holders) is handed back, to
    /// be closed by the caller.
    pub fn publish(&mut self, path: &VirtualPath, handle: S, mode: SyncAccessMode) -> (r: Option<S>)
        requires
            old(self).wf(),
        ensures
            final(self).wf(),
            final(self).next_id() == old(self).next_id(),
            can_publish(old(self)@, path@, mode) ==> r is None && final(self)@ == old(self)@.insert(path@, (LockEntry { cached: Some((handle, mode)), ..old(self)@[path@] })),
            !can_publish(old(self)@, path@, mode) ==> r == Some(handle) && final(self)@ == old(self)@,
    {
        let ghost m = self@;
        let i = match self.index_of(path) {
            Some(i) => i,
            None => return Some(handle),
        };
        let ok = self.entries[i].handle.is_none() && !self.entries[i].exclusive && (
        self.entries[i].readers > 0 || self.entries[i].writers > 0) && (self.entries[i].writers
            == 0 || mode_covers(mode, SyncAccessMode::Readwrite));
        if !ok {
            return Some(handle);
        }
        let mut e = self.take_out(i);
        e.handle = Some(handle);
        e.mode = mode;
        self.put_back(i, e);
        proof {
            let ne = LockEntry { cached: Some((handle, mode)), ..m[path@] };
            assert(e.entry() == ne);
            assert(m.remove(path@).insert(path@, e.entry()) =~= m.insert(path@, ne));
            assert(entry_ok(m[path@], self.next_id));
            let t = self@;
            assert forall|p: Seq<Seq<char>>| #[trigger] t.contains_key(p) implies entry_ok(
                t[p],
                self.next_id,
            ) by {
                if p != path@ {
                    assert(m.contains_key(p));
                }
            }
        }
        None
    }

    /// Releases the seat of `guard`. When the last holder leaves, the cached
    /// handle is returned to be closed; the entry goes when nobody waits.
    pub fn unlock_path(&mut self, guard: PathLockGuard) -> (r: Option<S>)
        requires
            old(self).wf(),
        ensures
            final(self).wf(),
            final(self).next_id() == old(self).next_id(),
            old(self)@.contains_key(guard.held_path()) && holds(
                old(self)@[guard.held_path()],
                guard.held_mode(),
            ) ==> final(self)@ == released(old(self)@, guard.held_path(), guard.held_mode()) && r
                == closed_handle(old(self)@[guard.held_path()], guard.held_mode()),
            !(old(self)@.contains_key(guard.held_path()) && holds(
                old(self)@[guard.held_path()],
                guard.held_mode(),
            )) ==> final(self)@ == old(self)@ && r is None,
    {
        let ghost m = self@;
        let path = guard.path;
        let mode = guard.mode;
        let i = match self.index_of(&path) {
            Some(i) => i,
            None => return None,
        };
        let held = match mode {
            LockMode::Exclusive => self.entries[i].exclusive,
            LockMode::Shared(SyncAccessMode::Readonly) => self.entries[i].readers > 0,
            LockMode::Shared(SyncAccessMode::Readwrite) => self.entries[i].writers > 0,
        };
        if !held {
            return None;
        }
        let mut e = self.take_out(i);
        let ghost old_e = m[path@];
        match mode {
            LockMode::Exclusive => {
                e.exclusive = false;
            },
            LockMode::Shared(SyncAccessMode::Readonly) => {
                e.readers = e.readers - 1;
            },
            LockMode::Shared(SyncAccessMode::Readwrite) => {
                e.writers = e.writers - 1;
            },
        }
        let mut closed: Option<S> = None;
        if e.readers == 0 && e.writers == 0 && !e.exclusive {
            closed = e.handle.take();
        }
        proof {
            assert(e.entry() == unseated(old_e, mode));
            assert(closed == closed_handle(old_e, mode));
            assert(entry_ok(old_e, self.next_id));
        }
        if e.readers > 0 || e.writers > 0 || e.exclusive || e.queue.len() > 0 {
            self.put_back(i, e);
            proof {
                assert(m.remove(path@).insert(path@, e.entry()) =~= released(m, path@, mode));
            }
        } else {
            proof {
                assert(m.remove(path@) =~= released(m, path@, mode));
            }
        }
        proof {
            let t = self@;
            assert forall|p: Seq<Seq<char>>| #[trigger] t.contains_key(p) implies entry_ok(
                t[p],
                self.next_id,
            ) by {
                if p != path@ {
                    assert(m.contains_key(p));
                }
            }
        }
        closed
    }

    /// Withdraws waiter `id` from the queue of `path`; an entry left with
    /// no holder and no waiter goes.
    pub fn cancel(&mut self, path: &VirtualPath, id: u64)
        requires
            old(self).wf(),
        ensures
            final(self).wf(),
            final(self).next_id() == old(self).next_id(),
            final(self)@ == cancelled(old(self)@, path@, id),
    {
        let ghost m = self@;
        let i = match self.index_of(path) {
            Some(i) => i,
            None => return,
        };
        let mut e = self.take_out(i);
        let ghost old_e = m[path@];
        proof {
            assert(entry_ok(old_e, self.next_id));
        }
        let mut k: usize = 0;
        while k < e.queue.len() && e.queue[k].id != id
            invariant
                k <= e.queue@.len(),
                e.queue@ == old_e.queue,
                forall|j: int| 0 <= j < k ==> e.queue@[j].id != id,
            decreases e.queue@.len() - k,
        {
            k = k + 1;
        }
        if k < e.queue.len() {
            e.queue.remove(k);
            proof {
                let q = old_e.queue;
                assert(q[k as int].id == id);
                let c = choose|c: int| 0 <= c < q.len() && q[c].id == id;
                // ids in the queue are distinct, so the waiter found is the one chosen
                assert(c == k) by {
                    if c > k {
                        assert(q[k as int].id < q[c].id);
                    }
                }
                assert(e.queue@ == without_waiter(q, id));
                let nq = e.queue@;
                assert forall|a: int, b: int| 0 <= a < b < nq.len() implies #[trigger] nq[a].id
                    < #[trigger] nq[b].id by {
                    let a2 = if a < k {
                        a
                    } else {
                        a + 1
                    };
                    let b2 = if b < k {
                        b
                    } else {
                        b + 1
                    };
                    assert(nq[a] == q[a2] && nq[b] == q[b2]);
                }
                assert forall|a: int| 0 <= a < nq.len() implies #[trigger] nq[a].id
                    < self.next_id by {
                    let a2 = if a < k {
                        a
                    } else {
                        a + 1
                    };
                    assert(nq[a] == q[a2]);
                }
            }
        } else {
            proof {
                assert(e.queue@ == without_waiter(old_e.queue, id));
            }
        }
        let ghost ne = LockEntry { queue: without_waiter(old_e.queue, id), ..old_e };
        proof {
            assert(e.entry() == ne);
        }
        if e.readers > 0 || e.writers > 0 || e.exclusive || e.queue.len() > 0 {
            self.put_back(i, e);
            proof {
                assert(m.remove(path@).insert(path@, e.entry()) =~= cancelled(m, path@, id));
            }
        } else {
            proof {
                assert(m.remove(path@) =~= cancelled(m, path@, id));
            }
        }
        proof {
            let t = self@;
            assert forall|p: Seq<Seq<char>>| #[trigger] t.contains_key(p) implies entry_ok(
                t[p],
                self.next_id,
            ) by {
                if p != path@ {
                    assert(m.contains_key(p));
                }
            }
        }
    }

    /// Whether anyone holds a seat on `path`.
    pub fn is_path_locked(&self, path: &VirtualPath) -> (r: bool)
        requires
            self.wf(),
        ensures
            r == (self@.contains_key(path@) && !idle(self@[path@])),
    {
        match self.index_of(path) {
            Some(i) => self.entries[i].readers > 0 || self.entries[i].writers > 0
                || self.entries[i].exclusive,
            None => false,
        }
    }

    /// Takes the exclusive seat on `path` without waiting: given only when
    /// nobody holds or waits on the path.
    pub fn try_lock_path(&mut self, path: &VirtualPath) -> (r: Option<PathLockGuard>)
        requires
            old(self).wf(),
        ensures
            final(self).wf(),
            r.is_some() == (!old(self)@.contains_key(path@) && old(self).next_id() < u64::MAX),
            r.is_some() ==> final(self).next_id() == old(self).next_id() + 1 && final(self)@ == old(self)@.insert(
                path@,
                (LockEntry {
                    cached: None,
                    readers: 0,
                    writers: 0,
                    exclusive: true,
                    queue: Seq::empty(),
                }),
            ),
            r.is_none() ==> final(self)@ == old(self)@ && final(self).next_id() == old(self).next_id(),
            r matches Some(g) ==> g.held_path() == path@ && g.held_mode() == LockMode::Exclusive,
    {
        if self.next_id == u64::MAX {
            return None;
        }
        if self.index_of(path).is_some() {
            return None;
        }
        let ghost m = self@;
        let id = match self.arrive(path, LockMode::Exclusive) {
            Some(id) => id,
            None => return None,
        };
        let r = self.poll_acquire(path, id);
        proof {
            let w = Waiter { id, mode: LockMode::Exclusive };
            let e0 = LockEntry::<S> {
                cached: None,
                readers: 0,
                writers: 0,
                exclusive: false,
                queue: seq![w],
            };
            assert(enqueued(m, path@, w) == m.insert(path@, e0));
            assert(seated(e0, LockMode::Exclusive).queue =~= Seq::<Waiter>::empty());
            assert(m.insert(path@, e0).insert(path@, seated(e0, LockMode::Exclusive)) =~= m.insert(
                path@,
                LockEntry {
                    cached: None,
                    readers: 0,
                    writers: 0,
                    exclusive: true,
                    queue: Seq::empty(),
                },
            ));
        }
        r
    }

    /// Joins the queue of `path` for the exclusive seat; `None` once every
    /// arrival id has been given out.
    pub fn lock_path(&mut self, path: &VirtualPath) -> (r: Option<PathLockFuture>)
        requires
            old(self).wf(),
        ensures
            final(self).wf(),
            old(self).next_id() == u64::MAX ==> r is None && final(self)@ == old(self)@,
            old(self).next_id() < u64::MAX ==> (r matches Some(f) && f.waited_path() == path@
                && f.waiter_id() == old(self).next_id() && final(self)@ == enqueued(
                old(self)@,
                path@,
                (Waiter { id: old(self).next_id(), mode: LockMode::Exclusive }),
            )),
    {
        match self.arrive(path, LockMode::Exclusive) {
            Some(id) => Some(PathLockFuture { path: path.duplicate(), id }),
            None => None,
        }
    }
}

/// An exclusive holder is alone: while the exclusive seat on a path is held,
/// no shared seat is.
pub proof fn lemma_exclusive_alone<S>(t: &LockTable<S>, p: Seq<Seq<char>>)
    requires
        t.wf(),
        t@.contains_key(p),
    ensures
        t@[p].exclusive ==> t@[p].readers == 0 && t@[p].writers == 0,
{
    t.lemma_entries_ok(p);
}

/// The cached handle serves every current holder: none is cached while the
/// exclusive seat is held, and a read-only handle is never cached while a
/// read-write seat is held.
pub proof fn lemma_cached_serves_holders<S>(t: &LockTable<S>, p: Seq<Seq<char>>)
    requires
        t.wf(),
        t@.contains_key(p),
    ensures
        t@[p].cached matches Some(c) ==> {
            &&& !t@[p].exclusive
            &&& t@[p].writers > 0 ==> covers(c.1, SyncAccessMode::Readwrite)
            &&& t@[p].readers > 0 ==> covers(c.1, SyncAccessMode::Readonly)
        },
{
    t.lemma_entries_ok(p);
}

/// Until a handle is cached for a path, at most one shared holder exists:
/// the creator, who opens the handle while later acquirers wait.
pub proof fn lemma_single_creator<S>(t: &LockTable<S>, p: Seq<Seq<char>>)
    requires
        t.wf(),
        t@.contains_key(p),
    ensures
        t@[p].cached is None ==> t@[p].readers + t@[p].writers <= 1,
{
    t.lemma_entries_ok(p);
}

/// When the last holder of a path leaves, its handle is handed back to be
/// closed, and the head of the queue, if any, can take its seat: it becomes
/// the next creator.
pub proof fn lemma_release_hands_over<S>(t: &LockTable<S>, p: Seq<Seq<char>>, mode: LockMode)
    requires
        t.wf(),
        t@.contains_key(p),
        holds(t@[p], mode),
        idle(left(t@[p], mode)),
    ensures
        closed_handle(t@[p], mode) == (match t@[p].cached {
            Some(c) => Some(c.0),
            None => None::<S>,
        }),
        released(t@, p, mode).contains_key(p) ==> released(t@, p, mode)[p].cached is None
            && can_grant(released(t@, p, mode), p, released(t@, p, mode)[p].queue[0].id),
        !released(t@, p, mode).contains_key(p) ==> t@[p].queue.len() == 0,
{
    t.lemma_entries_ok(p);
    let e = unseated(t@[p], mode);
    if occupied(e) {
        assert(e.queue.len() > 0);
    }
}

/// Seats are given in order of arrival: when waiter `id` takes its seat on
/// `p`, every waiter still queued on `p` arrived after it.
pub proof fn lemma_fifo_grant<S>(t: &LockTable<S>, p: Seq<Seq<char>>, id: u64)
    requires
        t.wf(),
        can_grant(t@, p, id),
    ensures
        forall|i: int|
            0 <= i < granted(t@, p)[p].queue.len() ==> id < #[trigger] granted(t@, p)[p].queue[i].id,
{
    t.lemma_entries_ok(p);
    let q = t@[p].queue;
    assert forall|i: int| 0 <= i < granted(t@, p)[p].queue.len() implies id < #[trigger] granted(
        t@,
        p,
    )[p].queue[i].id by {
        assert(granted(t@, p)[p].queue[i] == q[i + 1]);
        assert(q[0].id < q[i + 1].id);
    }
}

} // verus!
