//! The client core: caches, correlation, frame demultiplexing and response
//! interpretation.

use anna_client::client::{
    interpret_response, put_response_status, Client, ClientConfig, DemuxAction,
};
use anna_client::errors::{AnnaError, ClientError};
use anna_client::messages::{
    AddressResponse, ClientKey, ClientResponseValue, KeyAddress, KeyOperation, RequestId, Response,
    ResponseTuple, TcpMessage,
};
use anna_client::topics::{KvsThread, TransportAddr};

fn test_config() -> ClientConfig {
    ClientConfig { routing_ip: 0x7f000001, routing_port_base: 12340, routing_threads: 1, timeout_ms: 10000 }
}

fn thread(name: &[u8], idx: u32) -> KvsThread {
    KvsThread::new(name.to_vec(), idx)
}

fn resolution(
    id: RequestId,
    sockets: Vec<(KvsThread, TransportAddr)>,
    key: &[u8],
    nodes: Vec<KvsThread>,
) -> AddressResponse {
    AddressResponse {
        response_id: id,
        tcp_sockets: sockets,
        addresses: vec![KeyAddress { key: ClientKey::new(key.to_vec()), nodes }],
        error: None,
    }
}

#[test]
fn routing_address_uses_the_configured_port_range() {
    let client = Client::new(test_config());
    let addr = client.get_routing_tcp_address();
    assert_eq!(addr.ip, 0x7f000001);
    assert_eq!(addr.port, 12340);
}

#[test]
fn address_cache_grows_monotonically() {
    let mut client = Client::new(test_config());
    let key = ClientKey::new(b"k".to_vec());
    assert!(client.get_kvs_thread_from_cache(&key).is_none());

    let id1 = client.gen_request_id();
    client.handle_address_response(resolution(
        id1,
        vec![(thread(b"node-a", 0), TransportAddr { ip: 1, port: 7000 })],
        b"k",
        vec![thread(b"node-a", 0), thread(b"node-b", 1)],
    ));
    let first = client.key_address_cache.threads_of(&key).expect("key must be cached");
    assert_eq!(first.elems.len(), 2);

    // A later resolution of the same key only unions more threads in: the
    // previously cached ones are still there.
    let id2 = client.gen_request_id();
    client.handle_address_response(resolution(id2, vec![], b"k", vec![thread(b"node-c", 0)]));
    let after = client.key_address_cache.threads_of(&key).expect("key must stay cached");
    assert_eq!(after.elems.len(), 3);
    assert!(after.contains(&thread(b"node-a", 0)));
    assert!(after.contains(&thread(b"node-b", 1)));
    assert!(after.contains(&thread(b"node-c", 0)));

    // And a chosen thread always comes from the cached set.
    let chosen = client.get_kvs_thread_from_cache(&key).expect("cached key must resolve");
    assert!(after.contains(&chosen));
}

#[test]
fn thread_address_cache_binds_and_overwrites() {
    let mut client = Client::new(test_config());
    let t = thread(b"node-a", 0);
    assert!(client.get_kvs_tcp_address(&t).is_none());

    let id1 = client.gen_request_id();
    client.handle_address_response(resolution(
        id1,
        vec![(thread(b"node-a", 0), TransportAddr { ip: 9, port: 7000 })],
        b"k",
        vec![],
    ));
    assert_eq!(client.get_kvs_tcp_address(&t), Some(TransportAddr { ip: 9, port: 7000 }));

    let id2 = client.gen_request_id();
    client.handle_address_response(resolution(
        id2,
        vec![(thread(b"node-a", 0), TransportAddr { ip: 9, port: 7001 })],
        b"k",
        vec![],
    ));
    assert_eq!(client.get_kvs_tcp_address(&t), Some(TransportAddr { ip: 9, port: 7001 }));
}

#[test]
fn request_ids_cycle_and_differ() {
    let mut client = Client::new(test_config());
    let a = client.gen_request_id();
    let b = client.gen_request_id();
    assert_eq!(a.node, b.node);
    assert_eq!(a.seq + 1, b.seq);
    let req = client.make_request(KeyOperation::Get(ClientKey::new(b"k".to_vec())));
    assert_eq!(req.request_id.seq, b.seq + 1);
}

#[test]
fn fulfilling_an_unregistered_id_is_a_silent_no_op() {
    let mut client = Client::new(test_config());
    let id = client.gen_request_id();
    let resp = Response { response_id: Some(id), tuples: vec![], error: None };
    match client.handle_frame(TcpMessage::Response(resp)) {
        DemuxAction::DropFrame => {}
        _ => panic!("an uncorrelated response must be dropped"),
    }
}

#[test]
fn a_registered_id_is_fulfilled_exactly_once() {
    let mut client = Client::new(test_config());
    let id = client.gen_request_id();
    client.register_response_promise(id);
    let resp = Response { response_id: Some(id), tuples: vec![], error: None };
    match client.handle_frame(TcpMessage::Response(Response {
        response_id: Some(id),
        tuples: vec![],
        error: None,
    })) {
        DemuxAction::DeliverResponse(got, _) => assert_eq!(got, id),
        _ => panic!("a registered response must be delivered"),
    }
    // The slot is gone: delivering the same identifier again is a no-op.
    match client.handle_frame(TcpMessage::Response(resp)) {
        DemuxAction::DropFrame => {}
        _ => panic!("a fulfilled identifier must not be fulfilled again"),
    }
}

#[test]
fn a_response_without_id_is_dropped() {
    let mut client = Client::new(test_config());
    let resp = Response { response_id: None, tuples: vec![], error: None };
    match client.handle_frame(TcpMessage::Response(resp)) {
        DemuxAction::DropFrame => {}
        _ => panic!("a response without an identifier cannot be correlated"),
    }
}

#[test]
fn an_outbound_frame_kind_arriving_inbound_is_fatal() {
    let mut client = Client::new(test_config());
    let req = client.make_request(KeyOperation::Get(ClientKey::new(b"k".to_vec())));
    match client.handle_frame(TcpMessage::Request(req)) {
        DemuxAction::Fatal => {}
        _ => panic!("an unexpected frame kind is a protocol violation"),
    }
}

#[test]
fn an_address_response_fulfills_the_address_table() {
    let mut client = Client::new(test_config());
    let id = client.gen_request_id();
    client.register_address_promise(id);
    let resp = resolution(id, vec![], b"k", vec![thread(b"node-a", 0)]);
    match client.handle_frame(TcpMessage::AddressResponse(resp)) {
        DemuxAction::DeliverAddress(r) => assert_eq!(r.response_id, id),
        _ => panic!("a registered address response must be delivered"),
    }
}

#[test]
fn interpretation_of_an_empty_response_is_malformed() {
    let resp = Response { response_id: None, tuples: vec![], error: None };
    assert_eq!(interpret_response(resp), Err(ClientError::MalformedResponse));
}

#[test]
fn interpretation_passes_tuple_errors_through() {
    let resp = Response {
        response_id: None,
        tuples: vec![ResponseTuple { lattice: None, error: Some(AnnaError::KeyDoesNotExist) }],
        error: None,
    };
    assert_eq!(interpret_response(resp), Err(ClientError::KeyDoesNotExist));

    let resp = Response {
        response_id: None,
        tuples: vec![ResponseTuple { lattice: None, error: Some(AnnaError::Other(42)) }],
        error: None,
    };
    assert_eq!(interpret_response(resp), Err(ClientError::Storage(42)));
}

#[test]
fn interpretation_requires_a_lattice_value() {
    let resp = Response {
        response_id: None,
        tuples: vec![ResponseTuple { lattice: None, error: None }],
        error: None,
    };
    assert_eq!(interpret_response(resp), Err(ClientError::MalformedResponse));
}

#[test]
fn a_response_level_error_aborts_the_operation() {
    let resp = Response {
        response_id: None,
        tuples: vec![ResponseTuple {
            lattice: Some(ClientResponseValue::Int(1)),
            error: None,
        }],
        error: Some(AnnaError::Other(7)),
    };
    assert_eq!(interpret_response(resp), Err(ClientError::Storage(7)));
    let resp = Response { response_id: None, tuples: vec![], error: Some(AnnaError::Other(7)) };
    assert_eq!(put_response_status(&resp), Err(ClientError::Storage(7)));
    let resp = Response { response_id: None, tuples: vec![], error: None };
    assert_eq!(put_response_status(&resp), Ok(()));
}
