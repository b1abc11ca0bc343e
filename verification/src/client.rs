//! The client core: configuration, request building, address resolution
//! bookkeeping, frame demultiplexing decisions and response interpretation.
//!
//! The core holds no sockets.  A runtime wrapper connects transports, sends
//! the requests the core builds, and feeds every received frame back through
//! [`Client::handle_frame`]; the core decides what each frame means and
//! keeps the caches and pending tables.

use vstd::prelude::*;

use crate::cache::KeyAddressCache;
use crate::cache::ThreadAddressCache;
use crate::correlator::PendingTable;
use crate::errors::ClientError;
use crate::messages::AddressRequest;
use crate::messages::AddressResponse;
use crate::messages::ClientKey;
use crate::messages::ClientRequest;
use crate::messages::ClientResponseValue;
use crate::messages::KeyOperation;
use crate::messages::RequestId;
use crate::messages::Response;
use crate::messages::TcpMessage;
use crate::topics::ClientThread;
use crate::topics::KvsThread;
use crate::topics::KvsThreadModel;
use crate::topics::TransportAddr;

verus! {

/// The sequence number of request identifiers cycles below this modulus.
/// A collision across a full wrap is an accepted risk at low request rates.
pub const REQUEST_ID_MODULUS: u32 = 10000;

// ---------------------------------------------------------------------------
// Outside calls the core depends on
// ---------------------------------------------------------------------------

/// Relies on rand's `thread_rng` and `Rng::gen_range`: a uniformly drawn
/// index strictly below the bound.  Which index comes back is chance; only
/// the bound is promised.
#[verifier::external_body]
fn pick_index(n: usize) -> (r: usize)
    requires
        n > 0,
    ensures
        r < n,
{
    rand::Rng::gen_range(&mut rand::thread_rng(), 0..n)
}

/// Relies on uuid's `Uuid::new_v4`: a freshly drawn random identifier for
/// this client instance.  Nothing is promised of its value.
#[verifier::external_body]
fn fresh_node_id() -> u128 {
    uuid::Uuid::new_v4().as_u128()
}

/// Relies on chrono's `Utc::now` and `DateTime::timestamp_millis`: the wall
/// clock in milliseconds since the epoch.  Nothing is promised of its value.
#[verifier::external_body]
fn now_timestamp_millis() -> i64 {
    chrono::Utc::now().timestamp_millis()
}

/// The wall clock as an unsigned logical timestamp; readings before the
/// epoch clamp to zero.  Used for request timestamps and as the one shared
/// commit timestamp of a transaction.
pub fn current_commit_timestamp() -> u64 {
    let t = now_timestamp_millis();
    if t < 0 {
        0
    } else {
        t as u64
    }
}

// ---------------------------------------------------------------------------
// What one inbound frame means
// ---------------------------------------------------------------------------

/// What the background receive loop must do with one classified frame.
pub enum DemuxAction {
    /// Fulfill the address-resolution slot registered for the response's
    /// identifier with this response.
    DeliverAddress(AddressResponse),
    /// Fulfill the key-operation slot registered for the identifier with
    /// this response.
    DeliverResponse(RequestId, Response),
    /// Drop the frame: it cannot be correlated, or its caller is gone.
    DropFrame,
    /// A protocol violation: an outbound frame kind arrived inbound.  The
    /// receive loop for this transport ends.
    Fatal,
}

// ---------------------------------------------------------------------------
// Cache folds of an address-resolution response
// ---------------------------------------------------------------------------

/// The endpoint cache after binding the first `n` listed sockets, in order.
pub open spec fn socket_updates(
    m: Map<KvsThreadModel, TransportAddr>,
    s: Seq<(KvsThread, TransportAddr)>,
    n: int,
) -> Map<KvsThreadModel, TransportAddr>
    decreases n,
{
    if n <= 0 {
        m
    } else {
        socket_updates(m, s, n - 1).insert(s[n - 1].0@, s[n - 1].1)
    }
}

/// The key cache after unioning the first `n` listed threads into one key's
/// replica set, in order.
pub open spec fn key_updates(
    m: Map<Seq<u8>, Set<KvsThreadModel>>,
    key: Seq<u8>,
    nodes: Seq<KvsThread>,
    n: int,
) -> Map<Seq<u8>, Set<KvsThreadModel>>
    decreases n,
{
    if n <= 0 {
        m
    } else {
        let m2 = key_updates(m, key, nodes, n - 1);
        m2.insert(
            key,
            (if m2.dom().contains(key) {
                m2[key]
            } else {
                Set::empty()
            }).insert(nodes[n - 1]@),
        )
    }
}

/// The key cache after merging the first `n` listed key-address pairs, in
/// order.
pub open spec fn address_updates(
    m: Map<Seq<u8>, Set<KvsThreadModel>>,
    addrs: Seq<crate::messages::KeyAddress>,
    n: int,
) -> Map<Seq<u8>, Set<KvsThreadModel>>
    decreases n,
{
    if n <= 0 {
        m
    } else {
        let m2 = address_updates(m, addrs, n - 1);
        key_updates(m2, addrs[n - 1].key@, addrs[n - 1].nodes@, addrs[n - 1].nodes@.len() as int)
    }
}

/// Unioning threads into one key's replica set keeps every cached binding:
/// no key disappears and no replica set loses a member.
pub proof fn lemma_key_updates_monotonic(
    m: Map<Seq<u8>, Set<KvsThreadModel>>,
    key: Seq<u8>,
    nodes: Seq<KvsThread>,
    n: int,
)
    ensures
        forall|k: Seq<u8>| #[trigger]
            m.dom().contains(k) ==> key_updates(m, key, nodes, n).dom().contains(k)
                && m[k].subset_of(key_updates(m, key, nodes, n)[k]),
    decreases n,
{
    if n > 0 {
        lemma_key_updates_monotonic(m, key, nodes, n - 1);
    }
}

/// The address cache is monotonic: merging a resolution response never
/// shrinks it.  Once a key resolved to a thread set, a later resolution of
/// any keys leaves every previously cached thread in place; it can only
/// union more in.
pub proof fn lemma_address_merge_monotonic(
    m: Map<Seq<u8>, Set<KvsThreadModel>>,
    addrs: Seq<crate::messages::KeyAddress>,
    n: int,
)
    ensures
        forall|k: Seq<u8>| #[trigger]
            m.dom().contains(k) ==> address_updates(m, addrs, n).dom().contains(k)
                && m[k].subset_of(address_updates(m, addrs, n)[k]),
    decreases n,
{
    if n > 0 {
        lemma_address_merge_monotonic(m, addrs, n - 1);
        lemma_key_updates_monotonic(
            address_updates(m, addrs, n - 1),
            addrs[n - 1].key@,
            addrs[n - 1].nodes@,
            addrs[n - 1].nodes@.len() as int,
        );
    }
}

// ---------------------------------------------------------------------------
// Response interpretation
// ---------------------------------------------------------------------------

/// What a single-key response means to its caller.  A response-level error
/// aborts the operation; otherwise exactly one result tuple is expected, so
/// a response without tuples is malformed; a tuple carrying its own error
/// aborts with that error; otherwise the tuple must carry a lattice value.
pub open spec fn interpret_model(response: Response) -> Result<ClientResponseValue, ClientError> {
    if response.error is Some {
        Err(ClientError::of_anna_spec(response.error->0))
    } else if response.tuples@.len() == 0 {
        Err(ClientError::MalformedResponse)
    } else {
        let t = response.tuples@.last();
        if t.error is Some {
            Err(ClientError::of_anna_spec(t.error->0))
        } else if t.lattice is Some {
            Ok(t.lattice->0)
        } else {
            Err(ClientError::MalformedResponse)
        }
    }
}

/// Interprets a single-key response, yielding its lattice value or the
/// error that aborts the operation.
pub fn interpret_response(response: Response) -> (r: Result<ClientResponseValue, ClientError>)
    ensures
        r == interpret_model(response),
        response.wf() && r is Ok ==> r->Ok_0.wf(),
{
    match response.error {
        Some(e) => Err(ClientError::of_anna(e)),
        None => {
            let mut tuples = response.tuples;
            match tuples.pop() {
                None => Err(ClientError::MalformedResponse),
                Some(t) => {
                    match t.error {
                        Some(e) => Err(ClientError::of_anna(e)),
                        None => {
                            match t.lattice {
                                Some(v) => Ok(v),
                                None => Err(ClientError::MalformedResponse),
                            }
                        },
                    }
                },
            }
        },
    }
}

/// Reports whether a write-style response succeeded: success exactly when
/// the response carries no response-level error.
pub fn put_response_status(response: &Response) -> (r: Result<(), ClientError>)
    ensures
        r is Ok <==> response.error is None,
        response.error is Some ==> r == Err::<(), ClientError>(
            ClientError::of_anna_spec(response.error->0),
        ),
{
    match &response.error {
        Some(e) => Err(ClientError::of_anna(*e)),
        None => Ok(()),
    }
}

/// Decodes a response to a last-writer-wins read: the byte payload, or the
/// response's error, or a variant-mismatch error.
pub fn decode_bytes_response(response: Response) -> (r: Result<Vec<u8>, ClientError>)
    ensures
        match interpret_model(response) {
            Err(e) => r == Err::<Vec<u8>, ClientError>(e),
            Ok(v) => match v {
                ClientResponseValue::Bytes(b) => r is Ok && r->Ok_0 == b,
                _ => r == Err::<Vec<u8>, ClientError>(ClientError::UnexpectedValueType),
            },
        },
{
    match interpret_response(response) {
        Err(e) => Err(e),
        Ok(v) => match v {
            ClientResponseValue::Bytes(b) => Ok(b),
            _ => Err(ClientError::UnexpectedValueType),
        },
    }
}

/// Decodes a response to a set read.
pub fn decode_set_response(response: Response) -> (r: Result<crate::lattice::SetValue, ClientError>)
    ensures
        match interpret_model(response) {
            Err(e) => r == Err::<crate::lattice::SetValue, ClientError>(e),
            Ok(v) => match v {
                ClientResponseValue::ByteSet(s) => r is Ok && r->Ok_0 == s,
                _ => r == Err::<crate::lattice::SetValue, ClientError>(
                    ClientError::UnexpectedValueType,
                ),
            },
        },
        response.wf() && r is Ok ==> r->Ok_0.wf(),
{
    match interpret_response(response) {
        Err(e) => Err(e),
        Ok(v) => match v {
            ClientResponseValue::ByteSet(s) => Ok(s),
            _ => Err(ClientError::UnexpectedValueType),
        },
    }
}

/// Decodes a response to a map read.
pub fn decode_map_response(response: Response) -> (r: Result<
    crate::lattice::PlainMapValue,
    ClientError,
>)
    ensures
        match interpret_model(response) {
            Err(e) => r == Err::<crate::lattice::PlainMapValue, ClientError>(e),
            Ok(v) => match v {
                ClientResponseValue::FieldMap(m) => r is Ok && r->Ok_0 == m,
                _ => r == Err::<crate::lattice::PlainMapValue, ClientError>(
                    ClientError::UnexpectedValueType,
                ),
            },
        },
        response.wf() && r is Ok ==> r->Ok_0.wf(),
{
    match interpret_response(response) {
        Err(e) => Err(e),
        Ok(v) => match v {
            ClientResponseValue::FieldMap(m) => Ok(m),
            _ => Err(ClientError::UnexpectedValueType),
        },
    }
}

/// Decodes a response to a counter increment: the resulting counter value.
pub fn decode_int_response(response: Response) -> (r: Result<i64, ClientError>)
    ensures
        match interpret_model(response) {
            Err(e) => r == Err::<i64, ClientError>(e),
            Ok(v) => match v {
                ClientResponseValue::Int(n) => r == Ok::<i64, ClientError>(n),
                _ => r == Err::<i64, ClientError>(ClientError::UnexpectedValueType),
            },
        },
{
    match interpret_response(response) {
        Err(e) => Err(e),
        Ok(v) => match v {
            ClientResponseValue::Int(n) => Ok(n),
            _ => Err(ClientError::UnexpectedValueType),
        },
    }
}

// ---------------------------------------------------------------------------
// Configuration
// ---------------------------------------------------------------------------

/// Configuration for [`Client`].
#[derive(Clone, Copy, Debug, Hash, PartialEq, Eq, Structural)]
pub struct ClientConfig {
    /// Address of the routing tier, as a single number.
    pub routing_ip: u128,
    /// First port of the routing thread range; routing thread `i` answers on
    /// `routing_port_base + i`.
    pub routing_port_base: u16,
    /// Number of routing threads; must be at least one.
    pub routing_threads: u32,
    /// Timeout for client requests, accepted but currently inert: no
    /// deadline is enforced at this layer.
    pub timeout_ms: u64,
}

impl ClientConfig {
    /// At least one routing thread, and the whole port range fits.
    pub open spec fn valid(&self) -> bool {
        &&& self.routing_threads >= 1
        &&& self.routing_port_base + self.routing_threads <= 65536
    }

    /// Checks [`ClientConfig::valid`] at run time.
    pub fn check_valid(&self) -> (r: bool)
        ensures
            r == self.valid(),
    {
        self.routing_threads >= 1 && (self.routing_threads as u64) <= 65536u64 - (
        self.routing_port_base as u64)
    }
}

// ---------------------------------------------------------------------------
// The client core
// ---------------------------------------------------------------------------

/// The state of one client instance.
pub struct Client {
    /// This client's identity, embedded in every request identifier.
    pub client_thread: ClientThread,
    /// Address of the routing tier.
    pub routing_ip: u128,
    /// First port of the routing thread range.
    pub routing_port_base: u16,
    /// Number of routing threads.
    pub routing_threads: u32,
    /// Accepted timeout, currently inert.
    pub timeout_ms: u64,
    /// Sequence number of the next request identifier.
    pub next_request_id: u32,
    /// Cache from key to owning storage threads.
    pub key_address_cache: KeyAddressCache,
    /// Cache from storage thread to transport endpoint.
    pub kvs_tcp_address_cache: ThreadAddressCache,
    /// Identifiers of outstanding address-resolution requests.
    pub address_response_promises: PendingTable,
    /// Identifiers of outstanding key-operation requests.
    pub response_promises: PendingTable,
}

impl Client {
    /// Configuration is valid, the caches and tables are well formed, and
    /// the sequence number is below its modulus.
    pub open spec fn wf(&self) -> bool {
        &&& self.routing_threads >= 1
        &&& self.routing_port_base + self.routing_threads <= 65536
        &&& self.next_request_id < REQUEST_ID_MODULUS
        &&& self.key_address_cache.wf()
        &&& self.kvs_tcp_address_cache.wf()
        &&& self.address_response_promises.wf()
        &&& self.response_promises.wf()
    }

    /// Everything but the sequence number is that of `other`: identity,
    /// configuration, caches and pending tables are untouched.
    pub open spec fn same_but_seq(&self, other: &Client) -> bool {
        &&& self.client_thread == other.client_thread
        &&& self.routing_ip == other.routing_ip
        &&& self.routing_port_base == other.routing_port_base
        &&& self.routing_threads == other.routing_threads
        &&& self.timeout_ms == other.timeout_ms
        &&& self.key_address_cache == other.key_address_cache
        &&& self.kvs_tcp_address_cache == other.kvs_tcp_address_cache
        &&& self.address_response_promises == other.address_response_promises
        &&& self.response_promises == other.response_promises
    }

    /// Identity, configuration and sequence number are those of `other`;
    /// caches and pending tables may differ.
    pub open spec fn same_but_tables(&self, other: &Client) -> bool {
        &&& self.client_thread == other.client_thread
        &&& self.routing_ip == other.routing_ip
        &&& self.routing_port_base == other.routing_port_base
        &&& self.routing_threads == other.routing_threads
        &&& self.timeout_ms == other.timeout_ms
        &&& self.next_request_id == other.next_request_id
    }

    /// Creates a new client core with a freshly drawn node identifier, empty
    /// caches and empty pending tables.
    pub fn new(config: ClientConfig) -> (r: Client)
        requires
            config.valid(),
        ensures
            r.wf(),
            r.routing_ip == config.routing_ip,
            r.routing_port_base == config.routing_port_base,
            r.routing_threads == config.routing_threads,
            r.timeout_ms == config.timeout_ms,
            r.client_thread.thread == 0,
            r.next_request_id == 1,
            r.key_address_cache@ == Map::<Seq<u8>, Set<KvsThreadModel>>::empty(),
            r.kvs_tcp_address_cache@ == Map::<KvsThreadModel, TransportAddr>::empty(),
            r.address_response_promises@ == Set::<RequestId>::empty(),
            r.response_promises@ == Set::<RequestId>::empty(),
    {
        let node = fresh_node_id();
        Client {
            client_thread: ClientThread { node, thread: 0 },
            routing_ip: config.routing_ip,
            routing_port_base: config.routing_port_base,
            routing_threads: config.routing_threads,
            timeout_ms: config.timeout_ms,
            next_request_id: 1,
            key_address_cache: KeyAddressCache::new(),
            kvs_tcp_address_cache: ThreadAddressCache::new(),
            address_response_promises: PendingTable::new(),
            response_promises: PendingTable::new(),
        }
    }

    /// The identifier the next request will carry.
    pub open spec fn next_id_spec(&self) -> RequestId {
        RequestId {
            node: self.client_thread.node,
            thread: self.client_thread.thread,
            seq: self.next_request_id,
        }
    }

    /// Draws the next request identifier and advances the cycling sequence
    /// number.
    pub fn gen_request_id(&mut self) -> (id: RequestId)
        requires
            old(self).wf(),
        ensures
            final(self).wf(),
            final(self).same_but_seq(old(self)),
            id == old(self).next_id_spec(),
            final(self).next_request_id == (old(self).next_request_id + 1) as int
                % REQUEST_ID_MODULUS as int,
    {
        let id = RequestId {
            node: self.client_thread.node,
            thread: self.client_thread.thread,
            seq: self.next_request_id,
        };
        self.next_request_id = (self.next_request_id + 1) % REQUEST_ID_MODULUS;
        id
    }

    /// Builds an address-resolution request for one key.
    pub fn make_address_request(&mut self, key: ClientKey) -> (r: AddressRequest)
        requires
            old(self).wf(),
        ensures
            final(self).wf(),
            final(self).same_but_seq(old(self)),
            r.request_id == old(self).next_id_spec(),
            r.keys@.len() == 1,
            r.keys@[0]@ == key@,
    {
        let request_id = self.gen_request_id();
        let mut keys: Vec<ClientKey> = Vec::new();
        keys.push(key);
        AddressRequest { request_id, keys }
    }

    /// Builds a key-operation request carrying the given logical timestamp.
    pub fn make_request_at(&mut self, operation: KeyOperation, timestamp: u64) -> (r: ClientRequest)
        requires
            old(self).wf(),
        ensures
            final(self).wf(),
            final(self).same_but_seq(old(self)),
            r.request_id == old(self).next_id_spec(),
            r.operation == operation,
            r.timestamp == timestamp,
    {
        let request_id = self.gen_request_id();
        ClientRequest { request_id, operation, timestamp }
    }

    /// Builds a key-operation request timestamped with the current clock
    /// reading.
    pub fn make_request(&mut self, operation: KeyOperation) -> (r: ClientRequest)
        requires
            old(self).wf(),
        ensures
            final(self).wf(),
            final(self).same_but_seq(old(self)),
            r.request_id == old(self).next_id_spec(),
            r.operation == operation,
    {
        let timestamp = current_commit_timestamp();
        self.make_request_at(operation, timestamp)
    }

    /// Picks a routing thread uniformly at random and names its endpoint:
    /// the configured address, at the base port plus the thread index.
    pub fn get_routing_tcp_address(&self) -> (r: TransportAddr)
        requires
            self.wf(),
        ensures
            r.ip == self.routing_ip,
            self.routing_port_base <= r.port < self.routing_port_base + self.routing_threads,
    {
        let routing_thread_id = pick_index(self.routing_threads as usize);
        TransportAddr { ip: self.routing_ip, port: self.routing_port_base + (
        routing_thread_id as u16) }
    }

    /// Picks one storage thread uniformly at random among those cached for
    /// the key.  `None` exactly when the key has no cached owning thread:
    /// the caller must resolve the key first.
    pub fn get_kvs_thread_from_cache(&self, key: &ClientKey) -> (r: Option<KvsThread>)
        requires
            self.wf(),
        ensures
            match r {
                Some(t) => self.key_address_cache@.dom().contains(key@)
                    && self.key_address_cache@[key@].contains(t@),
                None => !self.key_address_cache@.dom().contains(key@)
                    || self.key_address_cache@[key@] == Set::<KvsThreadModel>::empty(),
            },
    {
        match self.key_address_cache.threads_of(key) {
            Some(set) => {
                let n = set.len();
                if n == 0 {
                    proof {
                        assert(set@ =~= Set::<KvsThreadModel>::empty());
                    }
                    None
                } else {
                    let i = pick_index(n);
                    Some(set.pick(i))
                }
            },
            None => None,
        }
    }

    /// The transport endpoint cached for a storage thread.  `None` exactly
    /// when the thread has no cached endpoint.
    pub fn get_kvs_tcp_address(&self, thread: &KvsThread) -> (r: Option<TransportAddr>)
        requires
            self.wf(),
        ensures
            match r {
                Some(a) => self.kvs_tcp_address_cache@.dom().contains(thread@)
                    && a == self.kvs_tcp_address_cache@[thread@],
                None => !self.kvs_tcp_address_cache@.dom().contains(thread@),
            },
    {
        self.kvs_tcp_address_cache.get(thread)
    }

    /// Registers a completion slot for an address-resolution request.
    pub fn register_address_promise(&mut self, id: RequestId)
        requires
            old(self).wf(),
        ensures
            final(self).wf(),
            final(self).same_but_tables(old(self)),
            final(self).key_address_cache == old(self).key_address_cache,
            final(self).kvs_tcp_address_cache == old(self).kvs_tcp_address_cache,
            final(self).response_promises == old(self).response_promises,
            final(self).address_response_promises@ == old(self).address_response_promises@.insert(
                id,
            ),
    {
        self.address_response_promises.register(id);
    }

    /// Merges everything an address-resolution response carries into the two
    /// caches, whether or not it was asked for: every listed socket binds a
    /// thread to its endpoint, and every listed owning thread is unioned
    /// into its key's replica set.  The key cache only grows (see
    /// [`lemma_address_merge_monotonic`]).
    pub fn handle_address_response(&mut self, response: AddressResponse)
        requires
            old(self).wf(),
        ensures
            final(self).wf(),
            final(self).same_but_tables(old(self)),
            final(self).address_response_promises == old(self).address_response_promises,
            final(self).response_promises == old(self).response_promises,
            final(self).kvs_tcp_address_cache@ == socket_updates(
                old(self).kvs_tcp_address_cache@,
                response.tcp_sockets@,
                response.tcp_sockets@.len() as int,
            ),
            final(self).key_address_cache@ == address_updates(
                old(self).key_address_cache@,
                response.addresses@,
                response.addresses@.len() as int,
            ),
            forall|k: Seq<u8>| #[trigger]
                old(self).key_address_cache@.dom().contains(k) ==> final(self)
                    .key_address_cache@.dom().contains(k) && old(self)
                    .key_address_cache@[k].subset_of(final(self).key_address_cache@[k]),
    {
        proof {
            lemma_address_merge_monotonic(
                self.key_address_cache@,
                response.addresses@,
                response.addresses@.len() as int,
            );
        }
        let mut i: usize = 0;
        while i < response.tcp_sockets.len()
            invariant
                self.wf(),
                old(self).wf(),
                self.same_but_tables(old(self)),
                self.address_response_promises == old(self).address_response_promises,
                self.response_promises == old(self).response_promises,
                self.key_address_cache == old(self).key_address_cache,
                0 <= i <= response.tcp_sockets@.len(),
                self.kvs_tcp_address_cache@ == socket_updates(
                    old(self).kvs_tcp_address_cache@,
                    response.tcp_sockets@,
                    i as int,
                ),
            decreases response.tcp_sockets@.len() - i,
        {
            let (kvs_thread, addr) = (response.tcp_sockets[i].0.clone(), response.tcp_sockets[i].1);
            self.kvs_tcp_address_cache.insert(kvs_thread, addr);
            i += 1;
        }
        let mut j: usize = 0;
        while j < response.addresses.len()
            invariant
                self.wf(),
                old(self).wf(),
                self.same_but_tables(old(self)),
                self.address_response_promises == old(self).address_response_promises,
                self.response_promises == old(self).response_promises,
                self.kvs_tcp_address_cache@ == socket_updates(
                    old(self).kvs_tcp_address_cache@,
                    response.tcp_sockets@,
                    response.tcp_sockets@.len() as int,
                ),
                0 <= j <= response.addresses@.len(),
                self.key_address_cache@ == address_updates(
                    old(self).key_address_cache@,
                    response.addresses@,
                    j as int,
                ),
            decreases response.addresses@.len() - j,
        {
            let key_addr = &response.addresses[j];
            let mut n: usize = 0;
            while n < key_addr.nodes.len()
                invariant
                    self.wf(),
                    old(self).wf(),
                    self.same_but_tables(old(self)),
                    self.address_response_promises == old(self).address_response_promises,
                    self.response_promises == old(self).response_promises,
                    self.kvs_tcp_address_cache@ == socket_updates(
                        old(self).kvs_tcp_address_cache@,
                        response.tcp_sockets@,
                        response.tcp_sockets@.len() as int,
                    ),
                    0 <= j < response.addresses@.len(),
                    key_addr == response.addresses@[j as int],
                    0 <= n <= key_addr.nodes@.len(),
                    self.key_address_cache@ == key_updates(
                        address_updates(
                            old(self).key_address_cache@,
                            response.addresses@,
                            j as int,
                        ),
                        key_addr.key@,
                        key_addr.nodes@,
                        n as int,
                    ),
                decreases key_addr.nodes@.len() - n,
            {
                let node = key_addr.nodes[n].clone();
                self.key_address_cache.add_thread(&key_addr.key, node);
                n += 1;
            }
            j += 1;
        }
    }

    /// Classifies one inbound frame and removes the pending identifier it
    /// fulfills, if any.  An address response or a response whose identifier
    /// is registered is delivered; a response that cannot be correlated is
    /// dropped; an outbound frame kind arriving here is a protocol
    /// violation, fatal to this transport's receive loop.
    pub fn handle_frame(&mut self, frame: TcpMessage) -> (act: DemuxAction)
        requires
            old(self).wf(),
        ensures
            final(self).wf(),
            final(self).same_but_tables(old(self)),
            final(self).key_address_cache == old(self).key_address_cache,
            final(self).kvs_tcp_address_cache == old(self).kvs_tcp_address_cache,
            match frame {
                TcpMessage::AddressResponse(r) => {
                    &&& final(self).response_promises == old(self).response_promises
                    &&& final(self).address_response_promises@ == old(
                        self,
                    ).address_response_promises@.remove(r.response_id)
                    &&& old(self).address_response_promises@.contains(r.response_id) ==> act
                        == DemuxAction::DeliverAddress(r)
                    &&& !old(self).address_response_promises@.contains(r.response_id) ==> act
                        == DemuxAction::DropFrame
                },
                TcpMessage::Response(r) => {
                    &&& final(self).address_response_promises == old(
                        self,
                    ).address_response_promises
                    &&& match r.response_id {
                        Some(id) => {
                            &&& final(self).response_promises@ == old(
                                self,
                            ).response_promises@.remove(id)
                            &&& old(self).response_promises@.contains(id) ==> act
                                == DemuxAction::DeliverResponse(id, r)
                            &&& !old(self).response_promises@.contains(id) ==> act
                                == DemuxAction::DropFrame
                        },
                        None => final(self).response_promises == old(self).response_promises
                            && act == DemuxAction::DropFrame,
                    }
                },
                _ => final(self).address_response_promises == old(
                    self,
                ).address_response_promises && final(self).response_promises == old(
                    self,
                ).response_promises && act == DemuxAction::Fatal,
            },
    {
        match frame {
            TcpMessage::AddressResponse(response) => {
                let was = self.address_response_promises.fulfill(response.response_id);
                if was {
                    DemuxAction::DeliverAddress(response)
                } else {
                    DemuxAction::DropFrame
                }
            },
            TcpMessage::Response(response) => {
                match response.response_id {
                    Some(id) => {
                        let was = self.response_promises.fulfill(id);
                        if was {
                            DemuxAction::DeliverResponse(id, response)
                        } else {
                            DemuxAction::DropFrame
                        }
                    },
                    None => DemuxAction::DropFrame,
                }
            },
            TcpMessage::AddressRequest(_) => DemuxAction::Fatal,
            TcpMessage::Request(_) => DemuxAction::Fatal,
        }
    }

    /// Registers a completion slot for a key-operation request.
    pub fn register_response_promise(&mut self, id: RequestId)
        requires
            old(self).wf(),
        ensures
            final(self).wf(),
            final(self).same_but_tables(old(self)),
            final(self).key_address_cache == old(self).key_address_cache,
            final(self).kvs_tcp_address_cache == old(self).kvs_tcp_address_cache,
            final(self).address_response_promises == old(self).address_response_promises,
            final(self).response_promises@ == old(self).response_promises@.insert(id),
    {
        self.response_promises.register(id);
    }
}

} // verus!
