//! Conversions between native values and the untyped byte payloads stored
//! under last-writer-wins keys.
//!
//! Strings travel as their UTF-8 bytes; fixed-width integers travel
//! big-endian.  Each decodable type states exactly which byte strings it
//! accepts and what value they name.

use vstd::prelude::*;

use crate::codec::be_bytes_u16;
use crate::codec::be_bytes_u32;
use crate::codec::be_bytes_u64;
use crate::codec::be_u16_of;
use crate::codec::be_u32_of;
use crate::codec::be_u64_of;
use crate::codec::u16_from_be;
use crate::codec::u16_to_be;
use crate::codec::u32_from_be;
use crate::codec::u32_to_be;
use crate::codec::u64_from_be;
use crate::codec::u64_to_be;
use crate::errors::ClientError;
use vstd::slice::slice_to_vec;
use vstd::utf8::encode_utf8;
use vstd::utf8::valid_utf8;

verus! {

/// A native value that encodes to a byte payload.
pub trait ToAnnaValue: Sized {
    /// The byte payload this value encodes to.
    spec fn encoded(&self) -> Seq<u8>;

    /// Encodes the value to its byte payload.
    fn to_anna_value(&self) -> (r: Vec<u8>)
        ensures
            r@ == self.encoded(),
    ;
}

/// A native value decodable from a byte payload.
pub trait FromAnnaValue: Sized {
    /// Whether the byte string decodes to a value of this type.
    spec fn decode_ok(bytes: Seq<u8>) -> bool;

    /// Whether this value is what the byte string decodes to.
    spec fn is_decode_of(&self, bytes: Seq<u8>) -> bool;

    /// Decodes the byte payload.  Succeeds exactly on the byte strings
    /// [`FromAnnaValue::decode_ok`] accepts.
    fn from_anna_value(value: &[u8]) -> (r: Result<Self, ClientError>)
        ensures
            r is Ok <==> Self::decode_ok(value@),
            r is Ok ==> r->Ok_0.is_decode_of(value@),
            r is Err ==> r->Err_0 == ClientError::InvalidBytes,
    ;
}

/// Relies on std's `String::from_utf8`: it succeeds exactly on valid UTF-8,
/// and the returned string's UTF-8 encoding is the given bytes.
#[verifier::external_body]
fn string_from_utf8(v: Vec<u8>) -> (r: Result<String, ClientError>)
    ensures
        r is Ok <==> valid_utf8(v@),
        r is Ok ==> encode_utf8(r->Ok_0@) == v@,
        r is Err ==> r->Err_0 == ClientError::InvalidBytes,
{
    match String::from_utf8(v) {
        Ok(s) => Ok(s),
        Err(_) => Err(ClientError::InvalidBytes),
    }
}

impl ToAnnaValue for Vec<u8> {
    open spec fn encoded(&self) -> Seq<u8> {
        self@
    }

    fn to_anna_value(&self) -> (r: Vec<u8>) {
        slice_to_vec(self.as_slice())
    }
}

impl FromAnnaValue for Vec<u8> {
    open spec fn decode_ok(bytes: Seq<u8>) -> bool {
        true
    }

    open spec fn is_decode_of(&self, bytes: Seq<u8>) -> bool {
        self@ == bytes
    }

    fn from_anna_value(value: &[u8]) -> (r: Result<Self, ClientError>) {
        Ok(slice_to_vec(value))
    }
}

impl ToAnnaValue for String {
    open spec fn encoded(&self) -> Seq<u8> {
        encode_utf8(self@)
    }

    fn to_anna_value(&self) -> (r: Vec<u8>) {
        slice_to_vec(self.as_str().as_bytes())
    }
}

impl FromAnnaValue for String {
    open spec fn decode_ok(bytes: Seq<u8>) -> bool {
        valid_utf8(bytes)
    }

    open spec fn is_decode_of(&self, bytes: Seq<u8>) -> bool {
        encode_utf8(self@) == bytes
    }

    fn from_anna_value(value: &[u8]) -> (r: Result<Self, ClientError>) {
        string_from_utf8(slice_to_vec(value))
    }
}

impl ToAnnaValue for &str {
    open spec fn encoded(&self) -> Seq<u8> {
        encode_utf8(self@)
    }

    fn to_anna_value(&self) -> (r: Vec<u8>) {
        slice_to_vec(self.as_bytes())
    }
}

impl ToAnnaValue for u8 {
    open spec fn encoded(&self) -> Seq<u8> {
        seq![*self]
    }

    fn to_anna_value(&self) -> (r: Vec<u8>) {
        let mut v: Vec<u8> = Vec::new();
        v.push(*self);
        proof {
            assert(v@ =~= seq![*self]);
        }
        v
    }
}

impl FromAnnaValue for u8 {
    open spec fn decode_ok(bytes: Seq<u8>) -> bool {
        bytes.len() >= 1
    }

    open spec fn is_decode_of(&self, bytes: Seq<u8>) -> bool {
        *self == bytes[0]
    }

    fn from_anna_value(value: &[u8]) -> (r: Result<Self, ClientError>) {
        if value.len() >= 1 {
            Ok(value[0])
        } else {
            Err(ClientError::InvalidBytes)
        }
    }
}

impl ToAnnaValue for i8 {
    open spec fn encoded(&self) -> Seq<u8> {
        seq![*self as u8]
    }

    fn to_anna_value(&self) -> (r: Vec<u8>) {
        let mut v: Vec<u8> = Vec::new();
        v.push(*self as u8);
        proof {
            assert(v@ =~= seq![*self as u8]);
        }
        v
    }
}

impl FromAnnaValue for i8 {
    open spec fn decode_ok(bytes: Seq<u8>) -> bool {
        bytes.len() >= 1
    }

    open spec fn is_decode_of(&self, bytes: Seq<u8>) -> bool {
        *self == bytes[0] as i8
    }

    fn from_anna_value(value: &[u8]) -> (r: Result<Self, ClientError>) {
        if value.len() >= 1 {
            Ok(value[0] as i8)
        } else {
            Err(ClientError::InvalidBytes)
        }
    }
}

impl ToAnnaValue for u16 {
    open spec fn encoded(&self) -> Seq<u8> {
        be_bytes_u16(*self)
    }

    fn to_anna_value(&self) -> (r: Vec<u8>) {
        u16_to_be(*self)
    }
}

impl FromAnnaValue for u16 {
    open spec fn decode_ok(bytes: Seq<u8>) -> bool {
        bytes.len() == 2
    }

    open spec fn is_decode_of(&self, bytes: Seq<u8>) -> bool {
        *self == be_u16_of(bytes)
    }

    fn from_anna_value(value: &[u8]) -> (r: Result<Self, ClientError>) {
        if value.len() == 2 {
            Ok(u16_from_be(value))
        } else {
            Err(ClientError::InvalidBytes)
        }
    }
}

impl ToAnnaValue for i16 {
    open spec fn encoded(&self) -> Seq<u8> {
        be_bytes_u16(*self as u16)
    }

    fn to_anna_value(&self) -> (r: Vec<u8>) {
        u16_to_be(*self as u16)
    }
}

impl FromAnnaValue for i16 {
    open spec fn decode_ok(bytes: Seq<u8>) -> bool {
        bytes.len() == 2
    }

    open spec fn is_decode_of(&self, bytes: Seq<u8>) -> bool {
        *self == be_u16_of(bytes) as i16
    }

    fn from_anna_value(value: &[u8]) -> (r: Result<Self, ClientError>) {
        if value.len() == 2 {
            Ok(u16_from_be(value) as i16)
        } else {
            Err(ClientError::InvalidBytes)
        }
    }
}

impl ToAnnaValue for u32 {
    open spec fn encoded(&self) -> Seq<u8> {
        be_bytes_u32(*self)
    }

    fn to_anna_value(&self) -> (r: Vec<u8>) {
        u32_to_be(*self)
    }
}

impl FromAnnaValue for u32 {
    open spec fn decode_ok(bytes: Seq<u8>) -> bool {
        bytes.len() == 4
    }

    open spec fn is_decode_of(&self, bytes: Seq<u8>) -> bool {
        *self == be_u32_of(bytes)
    }

    fn from_anna_value(value: &[u8]) -> (r: Result<Self, ClientError>) {
        if value.len() == 4 {
            Ok(u32_from_be(value))
        } else {
            Err(ClientError::InvalidBytes)
        }
    }
}

impl ToAnnaValue for i32 {
    open spec fn encoded(&self) -> Seq<u8> {
        be_bytes_u32(*self as u32)
    }

    fn to_anna_value(&self) -> (r: Vec<u8>) {
        u32_to_be(*self as u32)
    }
}

impl FromAnnaValue for i32 {
    open spec fn decode_ok(bytes: Seq<u8>) -> bool {
        bytes.len() == 4
    }

    open spec fn is_decode_of(&self, bytes: Seq<u8>) -> bool {
        *self == be_u32_of(bytes) as i32
    }

    fn from_anna_value(value: &[u8]) -> (r: Result<Self, ClientError>) {
        if value.len() == 4 {
            Ok(u32_from_be(value) as i32)
        } else {
            Err(ClientError::InvalidBytes)
        }
    }
}

impl ToAnnaValue for u64 {
    open spec fn encoded(&self) -> Seq<u8> {
        be_bytes_u64(*self)
    }

    fn to_anna_value(&self) -> (r: Vec<u8>) {
        u64_to_be(*self)
    }
}

impl FromAnnaValue for u64 {
    open spec fn decode_ok(bytes: Seq<u8>) -> bool {
        bytes.len() == 8
    }

    open spec fn is_decode_of(&self, bytes: Seq<u8>) -> bool {
        *self == be_u64_of(bytes)
    }

    fn from_anna_value(value: &[u8]) -> (r: Result<Self, ClientError>) {
        if value.len() == 8 {
            Ok(u64_from_be(value))
        } else {
            Err(ClientError::InvalidBytes)
        }
    }
}

impl ToAnnaValue for i64 {
    open spec fn encoded(&self) -> Seq<u8> {
        be_bytes_u64(*self as u64)
    }

    fn to_anna_value(&self) -> (r: Vec<u8>) {
        u64_to_be(*self as u64)
    }
}

impl FromAnnaValue for i64 {
    open spec fn decode_ok(bytes: Seq<u8>) -> bool {
        bytes.len() == 8
    }

    open spec fn is_decode_of(&self, bytes: Seq<u8>) -> bool {
        *self == be_u64_of(bytes) as i64
    }

    fn from_anna_value(value: &[u8]) -> (r: Result<Self, ClientError>) {
        if value.len() == 8 {
            Ok(u64_from_be(value) as i64)
        } else {
            Err(ClientError::InvalidBytes)
        }
    }
}

impl ToAnnaValue for usize {
    open spec fn encoded(&self) -> Seq<u8> {
        be_bytes_u64(*self as u64)
    }

    fn to_anna_value(&self) -> (r: Vec<u8>) {
        u64_to_be(*self as u64)
    }
}

impl FromAnnaValue for usize {
    open spec fn decode_ok(bytes: Seq<u8>) -> bool {
        bytes.len() == 8 && be_u64_of(bytes) <= usize::MAX as u64
    }

    open spec fn is_decode_of(&self, bytes: Seq<u8>) -> bool {
        *self as u64 == be_u64_of(bytes)
    }

    fn from_anna_value(value: &[u8]) -> (r: Result<Self, ClientError>) {
        if value.len() == 8 {
            let v = u64_from_be(value);
            if v <= usize::MAX as u64 {
                Ok(v as usize)
            } else {
                Err(ClientError::InvalidBytes)
            }
        } else {
            Err(ClientError::InvalidBytes)
        }
    }
}

impl ToAnnaValue for isize {
    open spec fn encoded(&self) -> Seq<u8> {
        be_bytes_u64(*self as u64)
    }

    fn to_anna_value(&self) -> (r: Vec<u8>) {
        u64_to_be(*self as u64)
    }
}

impl FromAnnaValue for isize {
    open spec fn decode_ok(bytes: Seq<u8>) -> bool {
        &&& bytes.len() == 8
        &&& isize::MIN as int <= (be_u64_of(bytes) as i64) as int
        &&& (be_u64_of(bytes) as i64) as int <= isize::MAX as int
    }

    open spec fn is_decode_of(&self, bytes: Seq<u8>) -> bool {
        *self as i64 == be_u64_of(bytes) as i64
    }

    fn from_anna_value(value: &[u8]) -> (r: Result<Self, ClientError>) {
        if value.len() == 8 {
            let v = u64_from_be(value) as i64;
            if isize::MIN as i64 <= v && v <= isize::MAX as i64 {
                Ok(v as isize)
            } else {
                Err(ClientError::InvalidBytes)
            }
        } else {
            Err(ClientError::InvalidBytes)
        }
    }
}

} // verus!
