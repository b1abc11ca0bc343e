//! The read-committed transaction layer.
//!
//! A transaction buffers its writes locally; nothing is sent to storage
//! before commit, so a transaction dropped without committing has no
//! effect.  Reads consult the buffer first (read-your-own-writes) and fall
//! through to the facade otherwise, so they reflect the latest externally
//! committed state at read time, not a snapshot taken at transaction start.
//! Commit stamps every buffered write with one shared timestamp, so the
//! writes of one transaction never race each other on timestamp ties.

use vstd::prelude::*;

use crate::assoc::assoc_view;
use crate::assoc::assoc_wf;
use crate::assoc::lemma_assoc_append;
use crate::assoc::lemma_assoc_lookup;
use crate::assoc::lemma_assoc_update;
use crate::client::Client;
use crate::codec::bytes_eq;
use crate::codec::clone_bytes;
use crate::messages::ClientKey;
use crate::messages::ClientRequest;
use crate::messages::KeyOperation;

verus! {

/// A transaction at the read-committed isolation level: an open write
/// buffer, applied as one batch on commit.
pub struct ReadCommittedTransaction {
    /// The buffered writes, one entry per key.
    pub write_buffer: Vec<(ClientKey, Vec<u8>)>,
}

impl View for ReadCommittedTransaction {
    type V = Map<Seq<u8>, Seq<u8>>;

    open spec fn view(&self) -> Map<Seq<u8>, Seq<u8>> {
        assoc_view(self.write_buffer@)
    }
}

impl ReadCommittedTransaction {
    /// Each buffered key is listed exactly once.
    pub open spec fn wf(&self) -> bool {
        assoc_wf(self.write_buffer@)
    }

    /// Opens a transaction with an empty write buffer.
    pub fn new() -> (r: ReadCommittedTransaction)
        ensures
            r.wf(),
            r@ == Map::<Seq<u8>, Seq<u8>>::empty(),
    {
        let r = ReadCommittedTransaction { write_buffer: Vec::new() };
        proof {
            assert(r@ =~= Map::<Seq<u8>, Seq<u8>>::empty());
        }
        r
    }

    /// Reads a key from the write buffer.  `Some` exactly when the open
    /// transaction has written the key, and then the buffered value — even
    /// if a concurrent external write to the key has landed in storage.  A
    /// `None` answer means the caller must read the key through the facade,
    /// observing the latest externally committed value at read time.
    pub fn get_lww(&self, key: &ClientKey) -> (r: Option<Vec<u8>>)
        requires
            self.wf(),
        ensures
            r is Some <==> self@.dom().contains(key@),
            r is Some ==> r->0@ == self@[key@],
    {
        let mut i: usize = 0;
        while i < self.write_buffer.len()
            invariant
                self.wf(),
                0 <= i <= self.write_buffer@.len(),
                forall|j: int| 0 <= j < i ==> self.write_buffer@[j].0@ != key@,
            decreases self.write_buffer@.len() - i,
        {
            if bytes_eq(&self.write_buffer[i].0.bytes, &key.bytes) {
                proof {
                    lemma_assoc_lookup(self.write_buffer@, i as int);
                }
                return Some(clone_bytes(&self.write_buffer[i].1));
            }
            i += 1;
        }
        None
    }

    /// Buffers a write.  Purely local: nothing reaches storage before
    /// commit.
    pub fn put_lww(&mut self, key: ClientKey, value: Vec<u8>)
        requires
            old(self).wf(),
        ensures
            final(self).wf(),
            final(self)@ == old(self)@.insert(key@, value@),
    {
        let ghost pre = self.write_buffer@;
        let mut i: usize = 0;
        while i < self.write_buffer.len()
            invariant
                self.wf(),
                pre == old(self).write_buffer@,
                self.write_buffer@ == pre,
                0 <= i <= self.write_buffer@.len(),
                forall|j: int| 0 <= j < i ==> self.write_buffer@[j].0@ != key@,
            decreases self.write_buffer@.len() - i,
        {
            if bytes_eq(&self.write_buffer[i].0.bytes, &key.bytes) {
                self.write_buffer.set(i, (key, value));
                proof {
                    lemma_assoc_update(pre, self.write_buffer@, i as int);
                }
                return ;
            }
            i += 1;
        }
        self.write_buffer.push((key, value));
        proof {
            lemma_assoc_append(pre, self.write_buffer@);
        }
    }

    /// Closes the transaction, turning every buffered write into one
    /// last-writer-wins put request.  All requests carry the same commit
    /// timestamp, so the buffered writes never race each other on ties.
    /// The caller sends them in order and propagates the first failure,
    /// still attempting the rest: a failed commit may be partially applied.
    pub fn commit(self, client: &mut Client) -> (reqs: Vec<ClientRequest>)
        requires
            self.wf(),
            old(client).wf(),
        ensures
            final(client).wf(),
            final(client).same_but_seq(old(client)),
            reqs@.len() == self.write_buffer@.len(),
            forall|i: int|
                0 <= i < reqs@.len() ==> ((#[trigger] reqs@[i].operation) matches KeyOperation::Put(
                    k,
                    v,
                ) && k@ == self.write_buffer@[i].0@ && v@ == self.write_buffer@[i].1@),
            forall|i: int, j: int|
                0 <= i < reqs@.len() && 0 <= j < reqs@.len() ==> #[trigger] reqs@[i].timestamp
                    == #[trigger] reqs@[j].timestamp,
    {
        let timestamp = crate::client::current_commit_timestamp();
        let mut reqs: Vec<ClientRequest> = Vec::new();
        let mut i: usize = 0;
        while i < self.write_buffer.len()
            invariant
                self.wf(),
                client.wf(),
                client.same_but_seq(old(client)),
                0 <= i <= self.write_buffer@.len(),
                reqs@.len() == i,
                forall|t: int|
                    0 <= t < i ==> ((#[trigger] reqs@[t].operation) matches KeyOperation::Put(
                        k,
                        v,
                    ) && k@ == self.write_buffer@[t].0@ && v@ == self.write_buffer@[t].1@),
                forall|t: int| 0 <= t < i ==> #[trigger] reqs@[t].timestamp == timestamp,
            decreases self.write_buffer@.len() - i,
        {
            let k = self.write_buffer[i].0.clone();
            let v = clone_bytes(&self.write_buffer[i].1);
            let req = client.make_request_at(KeyOperation::Put(k, v), timestamp);
            reqs.push(req);
            i += 1;
        }
        reqs
    }
}

impl Client {
    /// Begins a transaction at the read-committed isolation level.
    pub fn begin_transaction(&mut self) -> (tx: ReadCommittedTransaction)
        requires
            old(self).wf(),
        ensures
            *final(self) == *old(self),
            tx.wf(),
            tx@ == Map::<Seq<u8>, Seq<u8>>::empty(),
    {
        ReadCommittedTransaction::new()
    }
}

/// Read-your-own-write: after a transaction buffers a write of `v` under
/// `k`, a read of `k` inside the same open transaction is served from the
/// buffer and yields exactly `v`, whatever the buffer held before and
/// whatever has meanwhile landed in storage.
pub proof fn lemma_read_your_own_write(buffer: Map<Seq<u8>, Seq<u8>>, k: Seq<u8>, v: Seq<u8>)
    ensures
        buffer.insert(k, v).dom().contains(k),
        buffer.insert(k, v)[k] == v,
{
}

/// Isolation boundary: a key the open transaction has not written is never
/// served from the buffer, also after other keys were buffered or the same
/// key was buffered and the buffer then rebuilt without it.  The read falls
/// through to the facade and reflects the latest externally committed value
/// at the moment of the read, not a snapshot taken at transaction start.
pub proof fn lemma_unwritten_key_reads_through(
    buffer: Map<Seq<u8>, Seq<u8>>,
    k: Seq<u8>,
    k2: Seq<u8>,
    v2: Seq<u8>,
)
    requires
        !buffer.dom().contains(k),
        k2 != k,
    ensures
        !buffer.insert(k2, v2).dom().contains(k),
{
}

} // verus!
