//! End-to-end scenarios: the client core driven against an in-memory
//! storage model built from the library's own lattice merges.

use anna_client::client::{
    decode_bytes_response, decode_int_response, decode_map_response, decode_set_response,
    put_response_status, Client, ClientConfig, DemuxAction,
};
use anna_client::errors::{AnnaError, ClientError};
use anna_client::lattice::{
    map_payloads, tag_fields, LatticeValue, LwwValue, PlainMapValue, SetValue,
};
use anna_client::messages::{
    ClientKey, ClientRequest, ClientResponseValue, KeyOperation, Response, ResponseTuple,
    TcpMessage,
};
use anna_client::redis_like::{set_nx_decision, Client as RedisClient, Connection};

fn test_config() -> ClientConfig {
    ClientConfig { routing_ip: 0x7f000001, routing_port_base: 12340, routing_threads: 1, timeout_ms: 10000 }
}

/// An in-memory storage node: one lattice value per key, updated with the
/// library's merge operations.
struct Store {
    entries: Vec<(Vec<u8>, LatticeValue)>,
}

impl Store {
    fn new() -> Store {
        Store { entries: Vec::new() }
    }

    fn lookup(&self, key: &[u8]) -> Option<&LatticeValue> {
        self.entries.iter().find(|e| e.0 == key).map(|e| &e.1)
    }

    fn merge_in(&mut self, key: Vec<u8>, v: LatticeValue) {
        match self.entries.iter().position(|e| e.0 == key) {
            Some(i) => {
                let old = self.entries.remove(i);
                let merged = old.1.merge(v).expect("variant mismatch in store");
                self.entries.push((key, merged));
            }
            None => self.entries.push((key, v)),
        }
    }

    fn project(v: &LatticeValue) -> ClientResponseValue {
        match v {
            LatticeValue::Lww(l) => ClientResponseValue::Bytes(l.payload.clone()),
            LatticeValue::ByteSet(s) => {
                ClientResponseValue::ByteSet(SetValue { elems: s.elems.clone() })
            }
            LatticeValue::FieldMap(m) => ClientResponseValue::FieldMap(map_payloads(m)),
            LatticeValue::Int(n) => ClientResponseValue::Int(*n),
        }
    }

    fn ok_empty(req: &ClientRequest) -> Response {
        Response { response_id: Some(req.request_id), tuples: vec![], error: None }
    }

    fn one_tuple(req: &ClientRequest, v: ClientResponseValue) -> Response {
        Response {
            response_id: Some(req.request_id),
            tuples: vec![ResponseTuple { lattice: Some(v), error: None }],
            error: None,
        }
    }

    fn apply(&mut self, req: &ClientRequest) -> Response {
        let key = req.operation.key().bytes.clone();
        let writer = req.request_id.node as u64;
        match &req.operation {
            KeyOperation::Get(_) => match self.lookup(&key) {
                Some(v) => {
                    let projected = Store::project(v);
                    Store::one_tuple(req, projected)
                }
                None => Response {
                    response_id: Some(req.request_id),
                    tuples: vec![ResponseTuple {
                        lattice: None,
                        error: Some(AnnaError::KeyDoesNotExist),
                    }],
                    error: None,
                },
            },
            KeyOperation::Put(_, bytes) => {
                let v = LatticeValue::Lww(LwwValue::new(req.timestamp, writer, bytes.clone()));
                self.merge_in(key, v);
                Store::ok_empty(req)
            }
            KeyOperation::SetAdd(_, s) => {
                self.merge_in(key, LatticeValue::ByteSet(SetValue { elems: s.elems.clone() }));
                Store::ok_empty(req)
            }
            KeyOperation::MapAdd(_, m) => {
                let tagged = tag_fields(m, req.timestamp, writer);
                self.merge_in(key, LatticeValue::FieldMap(tagged));
                Store::ok_empty(req)
            }
            KeyOperation::Inc(_, d) => {
                self.merge_in(key.clone(), LatticeValue::Int(*d));
                let current = match self.lookup(&key) {
                    Some(LatticeValue::Int(n)) => *n,
                    _ => panic!("counter key holds a different variant"),
                };
                Store::one_tuple(req, ClientResponseValue::Int(current))
            }
        }
    }
}

/// Sends one request through the correlator, lets the store answer, and
/// routes the response frame back through the demultiplexer.
fn run_request(client: &mut Client, store: &mut Store, req: ClientRequest) -> Response {
    let id = req.request_id;
    client.register_response_promise(id);
    let resp = store.apply(&req);
    match client.handle_frame(TcpMessage::Response(resp)) {
        DemuxAction::DeliverResponse(got, r) => {
            assert_eq!(got, id);
            r
        }
        _ => panic!("response was not correlated"),
    }
}

fn put_lww(client: &mut Client, store: &mut Store, key: &[u8], value: Vec<u8>) -> Result<(), ClientError> {
    let req = client.make_request(KeyOperation::Put(ClientKey::new(key.to_vec()), value));
    let resp = run_request(client, store, req);
    put_response_status(&resp)
}

fn get_lww(client: &mut Client, store: &mut Store, key: &[u8]) -> Result<Vec<u8>, ClientError> {
    let req = client.make_request(KeyOperation::Get(ClientKey::new(key.to_vec())));
    let resp = run_request(client, store, req);
    decode_bytes_response(resp)
}

fn add_set(client: &mut Client, store: &mut Store, key: &[u8], elems: Vec<Vec<u8>>) -> Result<(), ClientError> {
    let req = client.make_request(KeyOperation::SetAdd(
        ClientKey::new(key.to_vec()),
        SetValue { elems },
    ));
    let resp = run_request(client, store, req);
    put_response_status(&resp)
}

fn get_set(client: &mut Client, store: &mut Store, key: &[u8]) -> Result<SetValue, ClientError> {
    let req = client.make_request(KeyOperation::Get(ClientKey::new(key.to_vec())));
    let resp = run_request(client, store, req);
    decode_set_response(resp)
}

fn add_map(client: &mut Client, store: &mut Store, key: &[u8], entries: Vec<(Vec<u8>, Vec<u8>)>) -> Result<(), ClientError> {
    let req = client.make_request(KeyOperation::MapAdd(
        ClientKey::new(key.to_vec()),
        PlainMapValue { entries },
    ));
    let resp = run_request(client, store, req);
    put_response_status(&resp)
}

fn get_map(client: &mut Client, store: &mut Store, key: &[u8]) -> Result<PlainMapValue, ClientError> {
    let req = client.make_request(KeyOperation::Get(ClientKey::new(key.to_vec())));
    let resp = run_request(client, store, req);
    decode_map_response(resp)
}

fn inc(client: &mut Client, store: &mut Store, key: &[u8], delta: i64) -> Result<i64, ClientError> {
    let req = client.make_request(KeyOperation::Inc(ClientKey::new(key.to_vec()), delta));
    let resp = run_request(client, store, req);
    decode_int_response(resp)
}

#[test]
fn put_then_get_returns_same_bytes() {
    let mut client = Client::new(test_config());
    let mut store = Store::new();
    let value = b"2024-01-01T00:00:00Z".to_vec();
    put_lww(&mut client, &mut store, b"time", value.clone()).unwrap();
    let read = get_lww(&mut client, &mut store, b"time").unwrap();
    assert_eq!(read, value);
}

#[test]
fn get_of_missing_key_reports_absence() {
    let mut client = Client::new(test_config());
    let mut store = Store::new();
    let read = get_lww(&mut client, &mut store, b"nothing");
    assert_eq!(read, Err(ClientError::KeyDoesNotExist));
}

#[test]
fn set_nx_writes_once_and_keeps_original() {
    let mut client = Client::new(test_config());
    let mut store = Store::new();

    // The key does not yet exist: the conditional set proceeds and the key
    // reads back the new value.
    let mut tx = client.begin_transaction();
    let read = match tx.get_lww(&ClientKey::new(b"hello".to_vec())) {
        Some(v) => Ok(v),
        None => get_lww(&mut client, &mut store, b"hello"),
    };
    match set_nx_decision(&read).unwrap() {
        true => {
            tx.put_lww(ClientKey::new(b"hello".to_vec()), b"world".to_vec());
            for req in tx.commit(&mut client) {
                let resp = run_request(&mut client, &mut store, req);
                put_response_status(&resp).unwrap();
            }
        }
        false => panic!("a missing key must be written"),
    }
    assert_eq!(get_lww(&mut client, &mut store, b"hello").unwrap(), b"world".to_vec());

    // The key already exists: the conditional set is a no-op and the key
    // reads back the original value.
    let tx = client.begin_transaction();
    let read = match tx.get_lww(&ClientKey::new(b"hello".to_vec())) {
        Some(v) => Ok(v),
        None => get_lww(&mut client, &mut store, b"hello"),
    };
    match set_nx_decision(&read).unwrap() {
        true => panic!("an existing key must not be overwritten"),
        false => drop(tx),
    }
    assert_eq!(get_lww(&mut client, &mut store, b"hello").unwrap(), b"world".to_vec());
}

#[test]
fn sadd_twice_then_sget_returns_union() {
    let mut client = Client::new(test_config());
    let mut store = Store::new();
    add_set(
        &mut client,
        &mut store,
        b"s",
        vec![b"hello".to_vec(), b"world".to_vec()],
    )
    .unwrap();
    add_set(&mut client, &mut store, b"s", vec![b"anna".to_vec()]).unwrap();
    let got = get_set(&mut client, &mut store, b"s").unwrap();
    assert_eq!(got.len(), 3);
    assert!(got.contains_bytes(&b"hello".to_vec()));
    assert!(got.contains_bytes(&b"world".to_vec()));
    assert!(got.contains_bytes(&b"anna".to_vec()));
}

#[test]
fn hmset_twice_then_hgetall_returns_union() {
    let mut client = Client::new(test_config());
    let mut store = Store::new();
    add_map(
        &mut client,
        &mut store,
        b"h",
        vec![
            (b"key1".to_vec(), b"value1".to_vec()),
            (b"key2".to_vec(), b"value2".to_vec()),
        ],
    )
    .unwrap();
    add_map(
        &mut client,
        &mut store,
        b"h",
        vec![(b"key3".to_vec(), b"value3".to_vec())],
    )
    .unwrap();
    let got = get_map(&mut client, &mut store, b"h").unwrap();
    assert_eq!(got.entries.len(), 3);
    for (field, expected) in [
        (b"key1".to_vec(), b"value1".to_vec()),
        (b"key2".to_vec(), b"value2".to_vec()),
        (b"key3".to_vec(), b"value3".to_vec()),
    ] {
        let i = got.find_field(&field).expect("field missing");
        assert_eq!(got.entries[i].1, expected);
    }
}

#[test]
fn inc_accumulates_signed_deltas() {
    let mut client = Client::new(test_config());
    let mut store = Store::new();
    assert_eq!(inc(&mut client, &mut store, b"n", 10).unwrap(), 10);
    assert_eq!(inc(&mut client, &mut store, b"n", 0).unwrap(), 10);
    assert_eq!(inc(&mut client, &mut store, b"n", -15).unwrap(), -5);
}

#[test]
fn transaction_reads_its_own_write() {
    let mut client = Client::new(test_config());
    let mut store = Store::new();
    put_lww(&mut client, &mut store, b"time", b"before".to_vec()).unwrap();

    let mut tx = client.begin_transaction();
    tx.put_lww(ClientKey::new(b"time".to_vec()), b"buffered".to_vec());

    // A concurrent external write lands in storage; the open transaction
    // still reads its own buffered value.
    put_lww(&mut client, &mut store, b"time", b"external".to_vec()).unwrap();
    let buffered = tx.get_lww(&ClientKey::new(b"time".to_vec()));
    assert_eq!(buffered, Some(b"buffered".to_vec()));
}

#[test]
fn transaction_unwritten_read_sees_latest_committed() {
    let mut client = Client::new(test_config());
    let mut store = Store::new();
    put_lww(&mut client, &mut store, b"k", b"v1".to_vec()).unwrap();

    let mut tx = client.begin_transaction();
    tx.put_lww(ClientKey::new(b"other".to_vec()), b"x".to_vec());

    // The key was never written inside the transaction, so the read is not
    // served from the buffer; it reflects the latest externally committed
    // value at read time, not a snapshot from transaction start.
    put_lww(&mut client, &mut store, b"k", b"v2".to_vec()).unwrap();
    assert_eq!(tx.get_lww(&ClientKey::new(b"k".to_vec())), None);
    let through = get_lww(&mut client, &mut store, b"k").unwrap();
    assert_eq!(through, b"v2".to_vec());
}

#[test]
fn transaction_commit_applies_buffer_and_then_reads_back() {
    let mut client = Client::new(test_config());
    let mut store = Store::new();
    let mut tx = client.begin_transaction();
    tx.put_lww(ClientKey::new(b"time".to_vec()), b"committed".to_vec());
    assert_eq!(
        tx.get_lww(&ClientKey::new(b"time".to_vec())),
        Some(b"committed".to_vec())
    );
    let reqs = tx.commit(&mut client);
    assert_eq!(reqs.len(), 1);
    for req in reqs {
        let resp = run_request(&mut client, &mut store, req);
        put_response_status(&resp).unwrap();
    }
    assert_eq!(
        get_lww(&mut client, &mut store, b"time").unwrap(),
        b"committed".to_vec()
    );
}

#[test]
fn commit_uses_one_shared_timestamp() {
    let mut client = Client::new(test_config());
    let mut tx = client.begin_transaction();
    tx.put_lww(ClientKey::new(b"a".to_vec()), b"1".to_vec());
    tx.put_lww(ClientKey::new(b"b".to_vec()), b"2".to_vec());
    tx.put_lww(ClientKey::new(b"c".to_vec()), b"3".to_vec());
    let reqs = tx.commit(&mut client);
    assert_eq!(reqs.len(), 3);
    assert!(reqs.iter().all(|r| r.timestamp == reqs[0].timestamp));
}

#[test]
fn typed_set_and_get_through_redis_layer() {
    let redis = RedisClient::open(test_config());
    let mut con = redis.get_async_connection();
    let mut store = Store::new();

    let req = con.make_set_request(ClientKey::new(b"my_key".to_vec()), &42i32);
    let resp = run_request(&mut con.client, &mut store, req);
    put_response_status(&resp).unwrap();

    let req = con.make_get_request(ClientKey::new(b"my_key".to_vec()));
    let resp = run_request(&mut con.client, &mut store, req);
    let v: i32 = Connection::decode_get_response(resp).unwrap();
    assert_eq!(v, 42);

    // The stored payload is four bytes, so reading it back as a two-byte
    // integer is rejected.
    let req = con.make_get_request(ClientKey::new(b"my_key".to_vec()));
    let resp = run_request(&mut con.client, &mut store, req);
    let narrow: Result<u16, ClientError> = Connection::decode_get_response(resp);
    assert_eq!(narrow, Err(ClientError::InvalidBytes));
}
