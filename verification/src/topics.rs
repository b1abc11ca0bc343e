//! Identifiers of the execution units the client talks to, and the transport
//! endpoints they answer on.

use vstd::prelude::*;

use crate::codec::bytes_eq;
use crate::codec::clone_bytes;

verus! {

/// One addressable execution unit inside a storage or routing node: a node
/// identifier paired with a local thread index.
pub struct KvsThread {
    /// Identifier of the owning node, by exact byte content.
    pub node: Vec<u8>,
    /// Index of the thread inside the node.
    pub thread: u32,
}

/// Mathematical model of a [`KvsThread`].
pub struct KvsThreadModel {
    /// Identifier of the owning node.
    pub node: Seq<u8>,
    /// Index of the thread inside the node.
    pub thread: u32,
}

impl View for KvsThread {
    type V = KvsThreadModel;

    open spec fn view(&self) -> KvsThreadModel {
        KvsThreadModel { node: self.node@, thread: self.thread }
    }
}

impl KvsThread {
    /// Builds a thread identifier.
    pub fn new(node: Vec<u8>, thread: u32) -> (r: KvsThread)
        ensures
            r@ == (KvsThreadModel { node: node@, thread }),
    {
        KvsThread { node, thread }
    }
}

impl Clone for KvsThread {
    /// Copies the identifier.
    fn clone(&self) -> (r: KvsThread)
        ensures
            r@ == self@,
    {
        KvsThread { node: clone_bytes(&self.node), thread: self.thread }
    }
}

impl PartialEq for KvsThread {
    fn eq(&self, other: &KvsThread) -> (r: bool) {
        bytes_eq(&self.node, &other.node) && self.thread == other.thread
    }
}

impl vstd::std_specs::cmp::PartialEqSpecImpl for KvsThread {
    open spec fn obeys_eq_spec() -> bool {
        true
    }

    open spec fn eq_spec(&self, other: &KvsThread) -> bool {
        self@ == other@
    }
}

/// The client's own identity: a node identifier drawn at creation and a
/// client-local thread index, both embedded in every request identifier.
#[derive(Clone, Copy, Debug, PartialEq, Eq, Structural)]
pub struct ClientThread {
    /// Identifier of this client instance.
    pub node: u128,
    /// Client-local thread index.
    pub thread: u32,
}

/// A concrete transport endpoint: a numeric host address and a TCP port.
#[derive(Clone, Copy, Debug, Hash, PartialEq, Eq, Structural)]
pub struct TransportAddr {
    /// The host address, as a single number.
    pub ip: u128,
    /// The TCP port.
    pub port: u16,
}

} // verus!
