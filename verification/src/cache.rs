//! The address resolver's two caches: key to owning thread set, and thread
//! to transport endpoint.
//!
//! Both grow monotonically: a resolution response only unions thread sets in
//! and binds endpoints; entries are never proactively invalidated.

use vstd::prelude::*;

use crate::assoc::assoc_has_key;
use crate::assoc::assoc_view;
use crate::assoc::assoc_wf;
use crate::assoc::lemma_assoc_append;
use crate::assoc::lemma_assoc_lookup;
use crate::assoc::lemma_assoc_update;
use crate::codec::bytes_eq;
use crate::messages::ClientKey;
use crate::topics::KvsThread;
use crate::topics::KvsThreadModel;
use crate::topics::TransportAddr;

verus! {

impl View for TransportAddr {
    type V = TransportAddr;

    open spec fn view(&self) -> TransportAddr {
        *self
    }
}

// ---------------------------------------------------------------------------
// Sets of storage threads
// ---------------------------------------------------------------------------

/// A replica set: the storage threads known to own one key.
pub struct ThreadSet {
    /// The threads, each listed once.
    pub elems: Vec<KvsThread>,
}

/// The set of threads named by the first `n` entries of `s`.
pub open spec fn thread_set_of_prefix(s: Seq<KvsThread>, n: int) -> Set<KvsThreadModel> {
    Set::new(|t: KvsThreadModel| exists|i: int| 0 <= i < n && s[i]@ == t)
}

impl View for ThreadSet {
    type V = Set<KvsThreadModel>;

    open spec fn view(&self) -> Set<KvsThreadModel> {
        thread_set_of_prefix(self.elems@, self.elems@.len() as int)
    }
}

impl ThreadSet {
    /// Each thread is listed exactly once.
    pub open spec fn wf(&self) -> bool {
        forall|i: int, j: int| 0 <= i < j < self.elems@.len() ==> self.elems@[i]@ != self.elems@[j]@
    }

    /// The empty replica set.
    pub fn new() -> (r: ThreadSet)
        ensures
            r.wf(),
            r@ == Set::<KvsThreadModel>::empty(),
    {
        let r = ThreadSet { elems: Vec::new() };
        proof {
            assert(r@ =~= Set::<KvsThreadModel>::empty());
        }
        r
    }

    /// Whether the set holds the given thread.
    pub fn contains(&self, t: &KvsThread) -> (r: bool)
        ensures
            r == self@.contains(t@),
    {
        let mut i: usize = 0;
        while i < self.elems.len()
            invariant
                0 <= i <= self.elems@.len(),
                forall|j: int| 0 <= j < i ==> self.elems@[j]@ != t@,
            decreases self.elems@.len() - i,
        {
            if &self.elems[i] == t {
                return true;
            }
            i += 1;
        }
        false
    }

    /// Adds a thread; one already present is not listed a second time.
    pub fn insert(&mut self, t: KvsThread)
        requires
            old(self).wf(),
        ensures
            final(self).wf(),
            final(self)@ == old(self)@.insert(t@),
    {
        let present = self.contains(&t);
        let ghost pre = self.elems@;
        if !present {
            self.elems.push(t);
        }
        proof {
            if present {
                assert(self@ =~= thread_set_of_prefix(pre, pre.len() as int).insert(t@));
            } else {
                assert forall|y: KvsThreadModel| self@.contains(y) implies thread_set_of_prefix(
                    pre,
                    pre.len() as int,
                ).insert(self.elems@[pre.len() as int]@).contains(y) by {
                    let i = choose|i: int| 0 <= i < self.elems@.len() && self.elems@[i]@ == y;
                    if i < pre.len() {
                        assert(pre[i]@ == y);
                    }
                }
                assert forall|y: KvsThreadModel|
                    thread_set_of_prefix(pre, pre.len() as int).insert(
                        self.elems@[pre.len() as int]@,
                    ).contains(y) implies self@.contains(y) by {
                    if y == self.elems@[pre.len() as int]@ {
                        assert(self.elems@[pre.len() as int]@ == y);
                    } else {
                        let i = choose|i: int| 0 <= i < pre.len() && pre[i]@ == y;
                        assert(self.elems@[i]@ == y);
                    }
                }
                assert(self@ =~= thread_set_of_prefix(pre, pre.len() as int).insert(t@));
            }
        }
    }

    /// The number of threads listed.
    pub fn len(&self) -> (n: usize)
        ensures
            n == self.elems@.len(),
            n > 0 ==> self@ !== Set::<KvsThreadModel>::empty(),
    {
        proof {
            if self.elems@.len() > 0 {
                assert(self@.contains(self.elems@[0]@));
            }
        }
        self.elems.len()
    }

    /// A copy of the listed thread at the given position.
    pub fn pick(&self, i: usize) -> (r: KvsThread)
        requires
            i < self.elems@.len(),
        ensures
            self@.contains(r@),
    {
        let r = self.elems[i].clone();
        proof {
            assert(self.elems@[i as int]@ == r@);
        }
        r
    }
}

// ---------------------------------------------------------------------------
// Key to owning threads
// ---------------------------------------------------------------------------

/// Cache from key to the set of storage threads owning it.  Grows
/// monotonically: resolution only unions threads in.
pub struct KeyAddressCache {
    /// The cached bindings, one entry per key.
    pub entries: Vec<(ClientKey, ThreadSet)>,
}

impl View for KeyAddressCache {
    type V = Map<Seq<u8>, Set<KvsThreadModel>>;

    open spec fn view(&self) -> Map<Seq<u8>, Set<KvsThreadModel>> {
        assoc_view(self.entries@)
    }
}

impl KeyAddressCache {
    /// Keys are listed once and every replica set is well formed.
    pub open spec fn wf(&self) -> bool {
        &&& assoc_wf(self.entries@)
        &&& forall|i: int| 0 <= i < self.entries@.len() ==> (#[trigger] self.entries@[i].1).wf()
    }

    /// The empty cache.
    pub fn new() -> (r: KeyAddressCache)
        ensures
            r.wf(),
            r@ == Map::<Seq<u8>, Set<KvsThreadModel>>::empty(),
    {
        let r = KeyAddressCache { entries: Vec::new() };
        proof {
            assert(r@ =~= Map::<Seq<u8>, Set<KvsThreadModel>>::empty());
        }
        r
    }

    /// Finds the position of the entry for the given key, if any.
    pub fn find(&self, key: &ClientKey) -> (r: Option<usize>)
        requires
            self.wf(),
        ensures
            match r {
                Some(i) => i < self.entries@.len() && self.entries@[i as int].0@ == key@
                    && self@.dom().contains(key@) && self@[key@] == self.entries@[i as int].1@,
                None => !self@.dom().contains(key@),
            },
    {
        let mut i: usize = 0;
        while i < self.entries.len()
            invariant
                self.wf(),
                0 <= i <= self.entries@.len(),
                forall|j: int| 0 <= j < i ==> self.entries@[j].0@ != key@,
            decreases self.entries@.len() - i,
        {
            if bytes_eq(&self.entries[i].0.bytes, &key.bytes) {
                proof {
                    lemma_assoc_lookup(self.entries@, i as int);
                }
                return Some(i);
            }
            i += 1;
        }
        None
    }

    /// The replica set cached for a key, for reading.
    pub fn threads_of(&self, key: &ClientKey) -> (r: Option<&ThreadSet>)
        requires
            self.wf(),
        ensures
            match r {
                Some(s) => self@.dom().contains(key@) && s@ == self@[key@] && s.wf(),
                None => !self@.dom().contains(key@),
            },
    {
        match self.find(key) {
            Some(i) => Some(&self.entries[i].1),
            None => None,
        }
    }

    /// Unions one owning thread into the replica set cached for a key.  The
    /// cache only ever grows: the thread sets already cached, for this key
    /// and for every other, are kept.
    pub fn add_thread(&mut self, key: &ClientKey, t: KvsThread)
        requires
            old(self).wf(),
        ensures
            final(self).wf(),
            final(self)@ == old(self)@.insert(
                key@,
                if old(self)@.dom().contains(key@) {
                    old(self)@[key@].insert(t@)
                } else {
                    Set::<KvsThreadModel>::empty().insert(t@)
                },
            ),
    {
        let found = self.find(key);
        let ghost pre = self.entries@;
        match found {
            Some(i) => {
                let mut entry = self.entries.remove(i);
                entry.1.insert(t);
                self.entries.insert(i, entry);
                proof {
                    pre.remove_ensures(i as int);
                    assert forall|s: int| 0 <= s < pre.len() implies self.entries@[s].0@
                        == pre[s].0@ && (s != i ==> self.entries@[s].1@ == pre[s].1@) by {
                        assert(self.entries@[s] == pre.remove(i as int).insert(i as int, entry)[s]);
                    }
                    lemma_assoc_update(pre, self.entries@, i as int);
                }
            },
            None => {
                let mut set = ThreadSet::new();
                set.insert(t);
                self.entries.push((key.clone(), set));
                proof {
                    lemma_assoc_append(pre, self.entries@);
                }
            },
        }
    }
}

// ---------------------------------------------------------------------------
// Thread to transport endpoint
// ---------------------------------------------------------------------------

/// Cache from storage thread to its transport endpoint.
pub struct ThreadAddressCache {
    /// The cached bindings, one entry per thread.
    pub entries: Vec<(KvsThread, TransportAddr)>,
}

impl View for ThreadAddressCache {
    type V = Map<KvsThreadModel, TransportAddr>;

    open spec fn view(&self) -> Map<KvsThreadModel, TransportAddr> {
        assoc_view(self.entries@)
    }
}

impl ThreadAddressCache {
    /// Threads are listed once.
    pub open spec fn wf(&self) -> bool {
        assoc_wf(self.entries@)
    }

    /// The empty cache.
    pub fn new() -> (r: ThreadAddressCache)
        ensures
            r.wf(),
            r@ == Map::<KvsThreadModel, TransportAddr>::empty(),
    {
        let r = ThreadAddressCache { entries: Vec::new() };
        proof {
            assert(r@ =~= Map::<KvsThreadModel, TransportAddr>::empty());
        }
        r
    }

    /// The endpoint cached for a thread.
    pub fn get(&self, t: &KvsThread) -> (r: Option<TransportAddr>)
        requires
            self.wf(),
        ensures
            match r {
                Some(a) => self@.dom().contains(t@) && a == self@[t@],
                None => !self@.dom().contains(t@),
            },
    {
        let mut i: usize = 0;
        while i < self.entries.len()
            invariant
                self.wf(),
                0 <= i <= self.entries@.len(),
                forall|j: int| 0 <= j < i ==> self.entries@[j].0@ != t@,
            decreases self.entries@.len() - i,
        {
            if &self.entries[i].0 == t {
                proof {
                    lemma_assoc_lookup(self.entries@, i as int);
                }
                return Some(self.entries[i].1);
            }
            i += 1;
        }
        None
    }

    /// Binds a thread to an endpoint, replacing any previous binding.
    pub fn insert(&mut self, t: KvsThread, addr: TransportAddr)
        requires
            old(self).wf(),
        ensures
            final(self).wf(),
            final(self)@ == old(self)@.insert(t@, addr),
    {
        let ghost pre = self.entries@;
        let mut i: usize = 0;
        while i < self.entries.len()
            invariant
                self.wf(),
                pre == old(self).entries@,
                self.entries@ == pre,
                0 <= i <= self.entries@.len(),
                forall|j: int| 0 <= j < i ==> self.entries@[j].0@ != t@,
            decreases self.entries@.len() - i,
        {
            if &self.entries[i].0 == &t {
                self.entries.set(i, (t, addr));
                proof {
                    lemma_assoc_update(pre, self.entries@, i as int);
                }
                return ;
            }
            i += 1;
        }
        self.entries.push((t, addr));
        proof {
            lemma_assoc_append(pre, self.entries@);
        }
    }
}

} // verus!
