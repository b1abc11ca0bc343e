//! The Redis-like convenience layer: familiar single-key verbs as typed
//! conversions over the untyped facade, plus the conditional-set decision.

use vstd::prelude::*;

use crate::client::interpret_model;
use crate::client::decode_bytes_response;
use crate::client::ClientConfig;
use crate::convert::FromAnnaValue;
use crate::convert::ToAnnaValue;
use crate::errors::ClientError;
use crate::messages::ClientKey;
use crate::messages::ClientRequest;
use crate::messages::ClientResponseValue;
use crate::messages::KeyOperation;
use crate::messages::Response;

verus! {

/// Redis-like client: remembers a configuration and opens connections.
pub struct Client {
    /// The configuration every connection is opened with.
    pub config: ClientConfig,
}

impl Client {
    /// Creates a new client with the given configuration.
    pub fn open(config: ClientConfig) -> (r: Client)
        requires
            config.valid(),
        ensures
            r.config == config,
    {
        Client { config }
    }

    /// Opens a connection: a fresh client core for the configured cluster.
    /// The runtime wrapper owning the sockets drives it asynchronously.
    pub fn get_async_connection(&self) -> (r: Connection)
        requires
            self.config.valid(),
        ensures
            r.client.wf(),
    {
        Connection { client: crate::client::Client::new(self.config) }
    }
}

/// Redis-like connection: the typed verbs' request building and response
/// decoding over one client core.
pub struct Connection {
    /// The client core the verbs drive.
    pub client: crate::client::Client,
}

impl Connection {
    /// Builds the request of `SET key value`: a last-writer-wins put of the
    /// value's byte encoding.
    pub fn make_set_request<V: ToAnnaValue>(&mut self, key: ClientKey, value: &V) -> (r:
        ClientRequest)
        requires
            old(self).client.wf(),
        ensures
            final(self).client.wf(),
            final(self).client.same_but_seq(&old(self).client),
            (r.operation matches KeyOperation::Put(k, v) && k@ == key@ && v@ == value.encoded()),
    {
        let bytes = value.to_anna_value();
        self.client.make_request(KeyOperation::Put(key, bytes))
    }

    /// Builds the request of `GET key`.
    pub fn make_get_request(&mut self, key: ClientKey) -> (r: ClientRequest)
        requires
            old(self).client.wf(),
        ensures
            final(self).client.wf(),
            final(self).client.same_but_seq(&old(self).client),
            (r.operation matches KeyOperation::Get(k) && k@ == key@),
    {
        self.client.make_request(KeyOperation::Get(key))
    }

    /// Decodes the response of `GET key` into the requested native type:
    /// the stored bytes must be a last-writer-wins payload that the type
    /// accepts.
    pub fn decode_get_response<V: FromAnnaValue>(response: Response) -> (r: Result<V, ClientError>)
        ensures
            match interpret_model(response) {
                Err(e) => r == Err::<V, ClientError>(e),
                Ok(val) => match val {
                    ClientResponseValue::Bytes(b) => {
                        &&& r is Ok <==> V::decode_ok(b@)
                        &&& r is Ok ==> r->Ok_0.is_decode_of(b@)
                        &&& r is Err ==> r->Err_0 == ClientError::InvalidBytes
                    },
                    _ => r == Err::<V, ClientError>(ClientError::UnexpectedValueType),
                },
            },
    {
        match decode_bytes_response(response) {
            Err(e) => Err(e),
            Ok(b) => V::from_anna_value(b.as_slice()),
        }
    }
}

/// The decision of `SETNX key value`, given what a transactional read of
/// the key returned.  `Ok(true)`: the key does not yet exist, so the write
/// proceeds.  `Ok(false)`: the key already exists, so the conditional set
/// is a no-op and the key keeps its value.  Any other read failure
/// propagates.
pub fn set_nx_decision(read: &Result<Vec<u8>, ClientError>) -> (r: Result<bool, ClientError>)
    ensures
        read is Ok ==> r == Ok::<bool, ClientError>(false),
        read is Err && read->Err_0 == ClientError::KeyDoesNotExist ==> r == Ok::<
            bool,
            ClientError,
        >(true),
        read is Err && read->Err_0 != ClientError::KeyDoesNotExist ==> r == Err::<
            bool,
            ClientError,
        >(read->Err_0),
{
    match read {
        Ok(_) => Ok(false),
        Err(e) => {
            if *e == ClientError::KeyDoesNotExist {
                Ok(true)
            } else {
                Err(*e)
            }
        },
    }
}

} // verus!
