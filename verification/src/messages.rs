//! Wire message types: request and response envelopes for address
//! resolution and key operations.  Framing and serialization are the
//! transport wrapper's business; the core works on these decoded shapes.

use vstd::prelude::*;

use crate::codec::clone_bytes;
use crate::errors::AnnaError;
use crate::lattice::PlainMapValue;
use crate::lattice::SetValue;
use crate::topics::KvsThread;
use crate::topics::TransportAddr;

verus! {

/// Identifier of a stored value, by exact byte content.
pub struct ClientKey {
    /// The key bytes.
    pub bytes: Vec<u8>,
}

impl View for ClientKey {
    type V = Seq<u8>;

    open spec fn view(&self) -> Seq<u8> {
        self.bytes@
    }
}

impl ClientKey {
    /// Builds a key from its bytes.
    pub fn new(bytes: Vec<u8>) -> (r: ClientKey)
        ensures
            r@ == bytes@,
    {
        ClientKey { bytes }
    }
}

impl Clone for ClientKey {
    /// Copies the key.
    fn clone(&self) -> (r: ClientKey)
        ensures
            r@ == self@,
    {
        ClientKey { bytes: clone_bytes(&self.bytes) }
    }
}

impl PartialEq for ClientKey {
    fn eq(&self, other: &ClientKey) -> (r: bool) {
        crate::codec::bytes_eq(&self.bytes, &other.bytes)
    }
}

impl vstd::std_specs::cmp::PartialEqSpecImpl for ClientKey {
    open spec fn obeys_eq_spec() -> bool {
        true
    }

    open spec fn eq_spec(&self, other: &ClientKey) -> bool {
        self@ == other@
    }
}

/// Identifier of one outstanding request, unique inside a client instance up
/// to the sequence modulus.
#[derive(Clone, Copy, Debug, Hash, PartialEq, Eq, Structural)]
pub struct RequestId {
    /// Identifier of the issuing client instance.
    pub node: u128,
    /// Client-local thread index of the issuer.
    pub thread: u32,
    /// Cycling sequence number.
    pub seq: u32,
}

/// One key operation, as the storage node executes it.
pub enum KeyOperation {
    /// Read the value stored under the key.
    Get(ClientKey),
    /// Merge a last-writer-wins byte payload into the key.
    Put(ClientKey, Vec<u8>),
    /// Merge a set of byte strings into the key.
    SetAdd(ClientKey, SetValue),
    /// Merge a plain field map into the key.
    MapAdd(ClientKey, PlainMapValue),
    /// Add a signed delta to the counter under the key and report the result.
    Inc(ClientKey, i64),
}

impl KeyOperation {
    /// The key the operation works on.
    pub open spec fn key_spec(&self) -> Seq<u8> {
        match self {
            KeyOperation::Get(k) => k@,
            KeyOperation::Put(k, _) => k@,
            KeyOperation::SetAdd(k, _) => k@,
            KeyOperation::MapAdd(k, _) => k@,
            KeyOperation::Inc(k, _) => k@,
        }
    }

    /// The collection payloads are well formed.
    pub open spec fn wf(&self) -> bool {
        match self {
            KeyOperation::SetAdd(_, s) => s.wf(),
            KeyOperation::MapAdd(_, m) => m.wf(),
            _ => true,
        }
    }

    /// The key the operation works on.
    pub fn key(&self) -> (r: &ClientKey)
        ensures
            r@ == self.key_spec(),
    {
        match self {
            KeyOperation::Get(k) => k,
            KeyOperation::Put(k, _) => k,
            KeyOperation::SetAdd(k, _) => k,
            KeyOperation::MapAdd(k, _) => k,
            KeyOperation::Inc(k, _) => k,
        }
    }
}

/// A key-operation request: the operation, the identifier a response must
/// echo, and the logical timestamp the write carries.
pub struct ClientRequest {
    /// Identifier echoed by the matching response.
    pub request_id: RequestId,
    /// The operation to execute.
    pub operation: KeyOperation,
    /// Logical timestamp tagging any write the operation performs.
    pub timestamp: u64,
}

/// A request to resolve which storage threads own the named keys.
pub struct AddressRequest {
    /// Identifier echoed by the matching response.
    pub request_id: RequestId,
    /// The keys to resolve.
    pub keys: Vec<ClientKey>,
}

/// One key paired with the storage threads that own it.
pub struct KeyAddress {
    /// The resolved key.
    pub key: ClientKey,
    /// The threads owning it.
    pub nodes: Vec<KvsThread>,
}

/// The answer to an [`AddressRequest`].  It may carry more pairs than were
/// asked for; every pair is merged into the caches.
pub struct AddressResponse {
    /// The identifier of the request this answers.
    pub response_id: RequestId,
    /// Transport endpoints of storage threads.
    pub tcp_sockets: Vec<(KvsThread, TransportAddr)>,
    /// Owning thread sets per key.
    pub addresses: Vec<KeyAddress>,
    /// A resolution-level error, if any.
    pub error: Option<AnnaError>,
}

/// A lattice value as a response carries it to the client: collection
/// variants hold plain payloads, with no storage-side timestamps.
#[derive(Debug, PartialEq, Eq)]
pub enum ClientResponseValue {
    /// A last-writer-wins byte payload.
    Bytes(Vec<u8>),
    /// A set of byte strings.
    ByteSet(SetValue),
    /// A plain field map.
    FieldMap(PlainMapValue),
    /// A counter value.
    Int(i64),
}

impl ClientResponseValue {
    /// The collection payloads are well formed.
    pub open spec fn wf(&self) -> bool {
        match self {
            ClientResponseValue::ByteSet(s) => s.wf(),
            ClientResponseValue::FieldMap(m) => m.wf(),
            _ => true,
        }
    }
}

/// One result inside a [`Response`]: either a lattice value or a per-tuple
/// error.
pub struct ResponseTuple {
    /// The value read or computed, if the tuple succeeded.
    pub lattice: Option<ClientResponseValue>,
    /// The tuple's own error, if it failed.
    pub error: Option<AnnaError>,
}

/// The answer to a [`ClientRequest`].
pub struct Response {
    /// The identifier of the request this answers; a response without one
    /// cannot be correlated and is dropped.
    pub response_id: Option<RequestId>,
    /// The result tuples; a single-key request expects exactly one.
    pub tuples: Vec<ResponseTuple>,
    /// A response-level error, if the whole request failed.
    pub error: Option<AnnaError>,
}

impl Response {
    /// Every carried lattice value is well formed.
    pub open spec fn wf(&self) -> bool {
        forall|i: int|
            0 <= i < self.tuples@.len() ==> match (#[trigger] self.tuples@[i]).lattice {
                Some(v) => v.wf(),
                None => true,
            }
    }
}

/// One decoded frame of the shared transport, as the background receive loop
/// classifies it.
pub enum TcpMessage {
    /// An outbound address-resolution request.
    AddressRequest(AddressRequest),
    /// An inbound address-resolution answer.
    AddressResponse(AddressResponse),
    /// An outbound key-operation request.
    Request(ClientRequest),
    /// An inbound key-operation answer.
    Response(Response),
}

} // verus!
