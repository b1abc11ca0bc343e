//! Conversions between native values and byte payloads.

use anna_client::client::decode_bytes_response;
use anna_client::convert::{FromAnnaValue, ToAnnaValue};
use anna_client::errors::ClientError;
use anna_client::messages::{ClientResponseValue, Response, ResponseTuple};

fn round_trip<V: ToAnnaValue + FromAnnaValue + PartialEq + std::fmt::Debug>(v: V) {
    let bytes = v.to_anna_value();
    let back = V::from_anna_value(&bytes).expect("own encoding must decode");
    assert_eq!(back, v);
}

#[test]
fn integers_round_trip_through_their_encodings() {
    round_trip(42u8);
    round_trip(-7i8);
    round_trip(4660u16);
    round_trip(-12345i16);
    round_trip(305419896u32);
    round_trip(-19088744i32);
    round_trip(1311768467463790320u64);
    round_trip(-1311768467463790320i64);
    round_trip(987654321usize);
    round_trip(-987654321isize);
}

#[test]
fn strings_and_bytes_round_trip() {
    round_trip(String::from("hello world"));
    round_trip(b"\x00\xff\x10raw".to_vec());
    let encoded = "smoke".to_anna_value();
    assert_eq!(encoded, b"smoke".to_vec());
}

#[test]
fn integer_encodings_are_big_endian() {
    assert_eq!(42u32.to_anna_value(), vec![0, 0, 0, 42]);
    assert_eq!(0x1234u16.to_anna_value(), vec![0x12, 0x34]);
    assert_eq!(1u64.to_anna_value(), vec![0, 0, 0, 0, 0, 0, 0, 1]);
    assert_eq!((-1i32).to_anna_value(), vec![0xff, 0xff, 0xff, 0xff]);
    assert_eq!(u32::from_anna_value(&[0, 0, 0, 42]).unwrap(), 42);
}

#[test]
fn decoding_rejects_wrong_lengths() {
    assert_eq!(u32::from_anna_value(&[1, 2, 3]), Err(ClientError::InvalidBytes));
    assert_eq!(u16::from_anna_value(&[1, 2, 3]), Err(ClientError::InvalidBytes));
    assert_eq!(i64::from_anna_value(&[]), Err(ClientError::InvalidBytes));
    assert_eq!(u8::from_anna_value(&[]), Err(ClientError::InvalidBytes));
}

#[test]
fn decoding_rejects_invalid_utf8() {
    assert_eq!(String::from_anna_value(&[0xff, 0xfe]), Err(ClientError::InvalidBytes));
    assert_eq!(String::from_anna_value(b"ok").unwrap(), "ok");
}

#[test]
fn a_non_bytes_value_is_a_type_mismatch() {
    let resp = Response {
        response_id: None,
        tuples: vec![ResponseTuple {
            lattice: Some(ClientResponseValue::Int(5)),
            error: None,
        }],
        error: None,
    };
    assert_eq!(decode_bytes_response(resp), Err(ClientError::UnexpectedValueType));
}
