//! Concrete checks of the lattice merge laws.

use anna_client::errors::ClientError;
use anna_client::lattice::{
    int_merge, lww_merge, map_merge, set_merge, LatticeValue, LwwValue, MapValue, PlainMapValue,
    SetValue,
};

fn lww(ts: u64, writer: u64, payload: &[u8]) -> LwwValue {
    LwwValue::new(ts, writer, payload.to_vec())
}

#[test]
fn lww_merge_keeps_later_timestamp() {
    let a = lww(5, 1, b"old");
    let b = lww(9, 0, b"new");
    let r = lww_merge(a, b);
    assert_eq!(r.timestamp, 9);
    assert_eq!(r.payload, b"new".to_vec());
}

#[test]
fn lww_merge_is_commutative_on_equal_timestamps() {
    let one = lww_merge(lww(7, 1, b"x"), lww(7, 2, b"y"));
    let two = lww_merge(lww(7, 2, b"y"), lww(7, 1, b"x"));
    assert_eq!(one.timestamp, two.timestamp);
    assert_eq!(one.writer, two.writer);
    assert_eq!(one.payload, two.payload);
    assert_eq!(one.writer, 2);
    assert_eq!(one.payload, b"y".to_vec());
}

#[test]
fn lww_merge_is_associative() {
    let vals = [(3u64, 7u64, b"a" as &[u8]), (3, 7, b"b"), (9, 1, b"c")];
    let m = |x: (u64, u64, &[u8]), y: (u64, u64, &[u8])| {
        let r = lww_merge(lww(x.0, x.1, x.2), lww(y.0, y.1, y.2));
        (r.timestamp, r.writer, r.payload)
    };
    let left = {
        let ab = m(vals[0], vals[1]);
        let r = lww_merge(lww(ab.0, ab.1, &ab.2), lww(vals[2].0, vals[2].1, vals[2].2));
        (r.timestamp, r.writer, r.payload)
    };
    let right = {
        let bc = m(vals[1], vals[2]);
        let r = lww_merge(lww(vals[0].0, vals[0].1, vals[0].2), lww(bc.0, bc.1, &bc.2));
        (r.timestamp, r.writer, r.payload)
    };
    assert_eq!(left, right);
}

#[test]
fn set_merge_is_union_in_both_orders() {
    let a = SetValue { elems: vec![b"hello".to_vec(), b"world".to_vec()] };
    let b = SetValue { elems: vec![b"world".to_vec(), b"anna".to_vec()] };
    let ab = set_merge(
        SetValue { elems: a.elems.clone() },
        SetValue { elems: b.elems.clone() },
    );
    let ba = set_merge(b, a);
    for s in [&ab, &ba] {
        assert_eq!(s.elems.len(), 3);
        assert!(s.contains_bytes(&b"hello".to_vec()));
        assert!(s.contains_bytes(&b"world".to_vec()));
        assert!(s.contains_bytes(&b"anna".to_vec()));
    }
}

#[test]
fn map_merge_is_keywise_union_with_later_timestamp_winning() {
    let a = MapValue {
        entries: vec![
            (b"f1".to_vec(), lww(5, 0, b"a1")),
            (b"f2".to_vec(), lww(5, 0, b"a2")),
        ],
    };
    let b = MapValue {
        entries: vec![
            (b"f2".to_vec(), lww(9, 0, b"b2")),
            (b"f3".to_vec(), lww(5, 0, b"b3")),
        ],
    };
    let r = map_merge(a, b);
    assert_eq!(r.entries.len(), 3);
    let at = |field: &[u8]| {
        let i = r.find_field(&field.to_vec()).expect("field missing");
        r.entries[i].1.payload.clone()
    };
    assert_eq!(at(b"f1"), b"a1".to_vec());
    assert_eq!(at(b"f2"), b"b2".to_vec());
    assert_eq!(at(b"f3"), b"b3".to_vec());
}

#[test]
fn counter_increments_fold_into_their_sum() {
    let a: i64 = 31;
    let b: i64 = -44;
    let s: i64 = 100;
    assert_eq!(int_merge(int_merge(s, a), b), int_merge(s, a + b));
    assert_eq!(int_merge(a, b), int_merge(b, a));
}

#[test]
fn merging_mismatched_variants_is_an_error() {
    let a = LatticeValue::Lww(lww(1, 1, b"x"));
    let b = LatticeValue::Int(4);
    match a.merge(b) {
        Err(e) => assert_eq!(e, ClientError::UnexpectedValueType),
        Ok(_) => panic!("cross-variant merge must fail"),
    }
}

#[test]
fn building_collections_from_empty() {
    let mut s = SetValue::empty();
    s.insert(b"a".to_vec());
    s.insert(b"a".to_vec());
    assert_eq!(s.elems.len(), 1);

    let mut m = MapValue::empty();
    m.upsert(b"f".to_vec(), LwwValue::new(1, 0, b"v1".to_vec()));
    m.upsert(b"f".to_vec(), LwwValue::new(2, 0, b"v2".to_vec()));
    assert_eq!(m.entries.len(), 1);
    assert_eq!(m.entries[0].1.payload, b"v2".to_vec());

    let e = PlainMapValue::empty();
    assert_eq!(e.entries.len(), 0);
}
