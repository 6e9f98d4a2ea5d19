//! Tests of the serialization helpers: canonical big-endian integer
//! forms, slices, ordered maps and sets, and the buffer abstraction.

use std::collections::{BTreeMap, BTreeSet};

use g2hash::serialize::{
    safe_with_capacity, serial_iter, serial_map_no_length, serial_set_no_length, serial_string,
    serial_vector_no_length, to_bytes, Buffer, Put, Serial,
};

#[test]
fn integers_serialize_big_endian() {
    assert_eq!(to_bytes(&0x01u8), vec![0x01]);
    assert_eq!(to_bytes(&0x0102u16), vec![0x01, 0x02]);
    assert_eq!(to_bytes(&0x01020304u32), vec![0x01, 0x02, 0x03, 0x04]);
    assert_eq!(
        to_bytes(&0x0102030405060708u64),
        vec![0x01, 0x02, 0x03, 0x04, 0x05, 0x06, 0x07, 0x08]
    );
    assert_eq!(to_bytes(&0u64), vec![0; 8]);
}

#[test]
fn vectors_carry_a_length_prefix() {
    let v: Vec<u16> = vec![0x0102, 0x0304];
    assert_eq!(to_bytes(&v), vec![0, 0, 0, 0, 0, 0, 0, 2, 0x01, 0x02, 0x03, 0x04]);
}

#[test]
fn slices_serialize_without_length() {
    let v: Vec<u16> = vec![0x0102, 0x0304];
    let mut out: Vec<u8> = Vec::new();
    serial_vector_no_length(v.as_slice(), &mut out);
    assert_eq!(out, vec![0x01, 0x02, 0x03, 0x04]);
    let mut out2: Vec<u8> = Vec::new();
    serial_iter(v.as_slice(), &mut out2);
    assert_eq!(out2, out);
}

#[test]
fn strings_serialize_as_raw_bytes() {
    let mut out: Vec<u8> = Vec::new();
    serial_string("serialize", &mut out);
    assert_eq!(out, b"serialize".to_vec());
}

#[test]
fn maps_serialize_in_key_order() {
    let mut m: BTreeMap<u8, u16> = BTreeMap::new();
    m.insert(3, 0x0405);
    m.insert(1, 0x0203);
    let mut out: Vec<u8> = Vec::new();
    serial_map_no_length(&m, &mut out);
    assert_eq!(out, vec![1, 0x02, 0x03, 3, 0x04, 0x05]);
}

#[test]
fn sets_serialize_in_key_order() {
    let mut s: BTreeSet<u32> = BTreeSet::new();
    s.insert(7);
    s.insert(2);
    let mut out: Vec<u8> = Vec::new();
    serial_set_no_length(&s, &mut out);
    assert_eq!(out, vec![0, 0, 0, 2, 0, 0, 0, 7]);
}

#[test]
fn capped_preallocation_starts_empty() {
    let v: Vec<u8> = safe_with_capacity(10);
    assert!(v.is_empty());
    let w: Vec<u64> = safe_with_capacity(usize::MAX);
    assert!(w.is_empty());
}

#[test]
fn buffers_collect_what_is_put() {
    let mut buf: Vec<u8> = <Vec<u8> as Buffer>::start_hint(4);
    buf.put(&0x0605u16);
    buf.write_all(&[0xff]);
    let out = <Vec<u8> as Buffer>::result(buf);
    assert_eq!(out, vec![0x06, 0x05, 0xff]);
}
