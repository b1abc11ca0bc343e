//! Request correlation: the table of outstanding request identifiers whose
//! completion slots wait for a matching response.
//!
//! The table records which identifiers are registered; the runtime wrapper
//! owns the completion slots themselves.  Every registered identifier is
//! fulfilled at most once, because fulfilling removes it; fulfilling an
//! identifier with no registered slot reports `false` and is a no-op.

use vstd::prelude::*;

use crate::messages::RequestId;

verus! {

/// The set of request identifiers with a registered completion slot.
pub struct PendingTable {
    /// The registered identifiers, each listed once.
    pub ids: Vec<RequestId>,
}

impl View for PendingTable {
    type V = Set<RequestId>;

    open spec fn view(&self) -> Set<RequestId> {
        self.ids@.to_set()
    }
}

impl PendingTable {
    /// Each identifier is listed exactly once.
    pub open spec fn wf(&self) -> bool {
        forall|i: int, j: int| 0 <= i < j < self.ids@.len() ==> self.ids@[i] != self.ids@[j]
    }

    /// The empty table.
    pub fn new() -> (r: PendingTable)
        ensures
            r.wf(),
            r@ == Set::<RequestId>::empty(),
    {
        let r = PendingTable { ids: Vec::new() };
        proof {
            assert(r@ =~= Set::<RequestId>::empty());
        }
        r
    }

    /// Whether the identifier is registered.
    pub fn is_pending(&self, id: RequestId) -> (r: bool)
        ensures
            r == self@.contains(id),
    {
        let mut i: usize = 0;
        while i < self.ids.len()
            invariant
                0 <= i <= self.ids@.len(),
                forall|j: int| 0 <= j < i ==> self.ids@[j] != id,
            decreases self.ids@.len() - i,
        {
            if self.ids[i] == id {
                proof {
                    assert(self.ids@.contains(id));
                }
                return true;
            }
            i += 1;
        }
        proof {
            if self.ids@.contains(id) {
                let j = choose|j: int| 0 <= j < self.ids@.len() && self.ids@[j] == id;
                assert(false);
            }
        }
        false
    }

    /// Registers a completion slot for the identifier.  Registering an
    /// identifier twice keeps a single slot.
    pub fn register(&mut self, id: RequestId)
        requires
            old(self).wf(),
        ensures
            final(self).wf(),
            final(self)@ == old(self)@.insert(id),
    {
        let present = self.is_pending(id);
        let ghost pre = self.ids@;
        if !present {
            self.ids.push(id);
        }
        proof {
            if present {
                assert(pre.to_set().contains(id));
                assert(self@ =~= pre.to_set().insert(id));
            } else {
                assert forall|x: RequestId| self@.contains(x) implies pre.to_set().insert(
                    id,
                ).contains(x) by {
                    let j = choose|j: int| 0 <= j < self.ids@.len() && self.ids@[j] == x;
                    if j < pre.len() {
                        assert(pre[j] == x);
                    }
                }
                assert forall|x: RequestId| pre.to_set().insert(id).contains(x) implies
                    self@.contains(x) by {
                    if x == id {
                        assert(self.ids@[pre.len() as int] == x);
                    } else {
                        let j = choose|j: int| 0 <= j < pre.len() && pre[j] == x;
                        assert(self.ids@[j] == x);
                    }
                }
                assert(self@ =~= pre.to_set().insert(id));
            }
        }
    }

    /// Takes the completion slot for the identifier if one is registered.
    /// Returns whether one was: a `false` answer means the fulfillment is a
    /// silent no-op, and a second fulfillment of the same identifier always
    /// answers `false`.
    pub fn fulfill(&mut self, id: RequestId) -> (was: bool)
        requires
            old(self).wf(),
        ensures
            final(self).wf(),
            was == old(self)@.contains(id),
            final(self)@ == old(self)@.remove(id),
    {
        let ghost pre = self.ids@;
        let mut i: usize = 0;
        while i < self.ids.len()
            invariant
                self.wf(),
                pre == old(self).ids@,
                self.ids@ == pre,
                0 <= i <= self.ids@.len(),
                forall|j: int| 0 <= j < i ==> self.ids@[j] != id,
            decreases self.ids@.len() - i,
        {
            if self.ids[i] == id {
                self.ids.remove(i);
                proof {
                    pre.remove_ensures(i as int);
                    assert(pre.contains(id)) by {
                        assert(pre[i as int] == id);
                    }
                    assert forall|x: RequestId| self@.contains(x) implies pre.to_set().remove(
                        id,
                    ).contains(x) by {
                        let j = choose|j: int| 0 <= j < self.ids@.len() && self.ids@[j] == x;
                        if j < i {
                            assert(pre[j] == x);
                        } else {
                            assert(pre[j + 1] == x);
                        }
                    }
                    assert forall|x: RequestId| pre.to_set().remove(id).contains(x) implies
                        self@.contains(x) by {
                        let j = choose|j: int| 0 <= j < pre.len() && pre[j] == x;
                        if j < i {
                            assert(self.ids@[j] == x);
                        } else {
                            assert(self.ids@[j - 1] == x);
                        }
                    }
                    assert(self@ =~= pre.to_set().remove(id));
                }
                return true;
            }
            i += 1;
        }
        proof {
            if pre.to_set().contains(id) {
                let j = choose|j: int| 0 <= j < pre.len() && pre[j] == id;
                assert(false);
            }
            assert(self@ =~= pre.to_set().remove(id));
        }
        false
    }
}

} // verus!
