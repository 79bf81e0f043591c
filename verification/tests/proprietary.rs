use psbt_core::encoding::{read_compact_size_at, write_compact_size};
use psbt_core::{
    Error, ErrorKind, ProprietaryKey, ProprietaryMap, PSBT_GLOBAL_LNPBP4_PROTOCOL_INFO,
    PSBT_IN_P2C_TWEAK, PSBT_IN_TAPRET_TWEAK, PSBT_LNPBP4_PREFIX, PSBT_OUT_LNPBP4_ENTROPY,
    PSBT_OUT_LNPBP4_MESSAGE, PSBT_OUT_LNPBP4_MIN_TREE_DEPTH, PSBT_OUT_TAPRET_COMMITMENT,
    PSBT_OUT_TAPRET_HOST, PSBT_OUT_TAPRET_PROOF, PSBT_P2C_PREFIX, PSBT_TAPRET_PREFIX,
};

fn compact(n: u64) -> Vec<u8> {
    let mut out = Vec::new();
    write_compact_size(&mut out, n);
    out
}

#[test]
fn compact_size_forms() {
    assert_eq!(compact(0), vec![0x00]);
    assert_eq!(compact(0xfc), vec![0xfc]);
    assert_eq!(compact(0xfd), vec![0xfd, 0xfd, 0x00]);
    assert_eq!(compact(0xffff), vec![0xfd, 0xff, 0xff]);
    assert_eq!(compact(0x1_0000), vec![0xfe, 0x00, 0x00, 0x01, 0x00]);
    assert_eq!(compact(0xffff_ffff), vec![0xfe, 0xff, 0xff, 0xff, 0xff]);
    assert_eq!(compact(0x1_0000_0000), vec![0xff, 0, 0, 0, 0, 1, 0, 0, 0]);
    assert_eq!(compact(u64::MAX), vec![0xff, 0xff, 0xff, 0xff, 0xff, 0xff, 0xff, 0xff, 0xff]);
}

#[test]
fn compact_size_reads_back() {
    for n in [0u64, 1, 0xfc, 0xfd, 0xfe, 0xffff, 0x1_0000, 0xffff_ffff, 0x1_0000_0000, u64::MAX] {
        let mut bytes = vec![0xaa, 0xbb];
        write_compact_size(&mut bytes, n);
        let end = bytes.len();
        bytes.push(0xcc);
        assert_eq!(read_compact_size_at(&bytes, 2), Some((n, end)));
    }
}

#[test]
fn compact_size_refuses_long_forms_and_short_input() {
    assert_eq!(read_compact_size_at(&[], 0), None);
    assert_eq!(read_compact_size_at(&[0x01], 1), None);
    assert_eq!(read_compact_size_at(&[0xfd, 0xfc, 0x00], 0), None);
    assert_eq!(read_compact_size_at(&[0xfd, 0xfd], 0), None);
    assert_eq!(read_compact_size_at(&[0xfe, 0xff, 0xff, 0x00, 0x00], 0), None);
    assert_eq!(read_compact_size_at(&[0xfe, 0x00, 0x00, 0x01], 0), None);
    assert_eq!(read_compact_size_at(&[0xff, 0xff, 0xff, 0xff, 0xff, 0, 0, 0, 0], 0), None);
    assert_eq!(read_compact_size_at(&[0xff, 0, 0, 0, 0, 1, 0, 0], 0), None);
}

#[test]
fn key_wire_form_is_exact() {
    let key = ProprietaryKey::new(b"P2C", 0x00, &[0x02, 0x03]);
    assert_eq!(key.encode(), vec![0xfc, 0x03, b'P', b'2', b'C', 0x00, 0x02, 0x03]);
    let key = ProprietaryKey::new(b"LNPBP4", 0x04, &[]);
    assert_eq!(key.encode(), vec![0xfc, 0x06, b'L', b'N', b'P', b'B', b'P', b'4', 0x04]);
    let key = ProprietaryKey::new(&[], 0x1234, &[9]);
    assert_eq!(key.encode(), vec![0xfc, 0x00, 0xfd, 0x34, 0x12, 9]);
}

#[test]
fn key_round_trip() {
    let long_prefix = vec![7u8; 300];
    let cases = [
        ProprietaryKey::new(b"TAPRET", 0, &[]),
        ProprietaryKey::new(b"LNPBP4", 0, &[0xab; 32]),
        ProprietaryKey::new(&[], 0, &[]),
        ProprietaryKey::new(&long_prefix, u64::MAX, &[1, 2, 3]),
        ProprietaryKey::new(b"x", 0xfd, &[0xfc]),
    ];
    for key in cases {
        let wire = key.encode();
        assert_eq!(ProprietaryKey::decode(&wire), Ok(key));
    }
}

#[test]
fn truncated_key_without_key_data_is_malformed() {
    let long_prefix = vec![7u8; 300];
    let cases = [
        ProprietaryKey::new(b"TAPRET", 0, &[]),
        ProprietaryKey::new(&[], 0, &[]),
        ProprietaryKey::new(&long_prefix, 0x1_0000, &[]),
        ProprietaryKey::new(b"x", u64::MAX, &[]),
    ];
    for key in cases {
        let mut wire = key.encode();
        wire.pop();
        assert_eq!(ProprietaryKey::decode(&wire), Err(Error::MalformedProprietaryKey));
        assert_eq!(Error::MalformedProprietaryKey.kind(), ErrorKind::Format);
    }
}

#[test]
fn truncated_key_with_key_data_loses_its_last_byte() {
    let key = ProprietaryKey::new(b"a", 0, &[1, 2]);
    let mut wire = key.encode();
    wire.pop();
    assert_eq!(ProprietaryKey::decode(&wire), Ok(ProprietaryKey::new(b"a", 0, &[1])));
}

#[test]
fn malformed_keys() {
    let bad: [&[u8]; 8] = [
        &[],
        &[0xfb, 0x00, 0x00],
        &[0xfc],
        &[0xfc, 0x02, b'a'],
        &[0xfc, 0x01, b'a'],
        &[0xfc, 0xfd, 0x01, 0x00, b'a', 0x00],
        &[0xfc, 0x01, b'a', 0xfd, 0x01, 0x00],
        &[0xfc, 0xff, 0xff, 0xff, 0xff, 0xff, 0xff, 0xff, 0xff, 0xff],
    ];
    for wire in bad {
        assert_eq!(ProprietaryKey::decode(wire), Err(Error::MalformedProprietaryKey), "{:?}", wire);
    }
}

#[test]
fn key_parts_are_told_apart() {
    let key = ProprietaryKey::new(b"P2C", 1, &[5]);
    assert!(key.is_of(b"P2C", 1));
    assert!(!key.is_of(b"P2C", 2));
    assert!(!key.is_of(b"P2D", 1));
    assert!(key.same_as(&ProprietaryKey::new(b"P2C", 1, &[5])));
    assert!(!key.same_as(&ProprietaryKey::new(b"P2C", 1, &[6])));
}

#[test]
fn map_lookup_and_insert() {
    let mut map = ProprietaryMap::new();
    assert_eq!(map.len(), 0);
    assert_eq!(map.get(b"P2C", 0, &[1]), None);
    assert!(!map.contains(b"P2C", 0, &[1]));
    map.insert(ProprietaryKey::new(b"P2C", 0, &[1]), vec![10]);
    map.insert(ProprietaryKey::new(b"P2C", 0, &[2]), vec![20]);
    map.insert(ProprietaryKey::new(b"P2C", 1, &[1]), vec![30]);
    assert_eq!(map.len(), 3);
    assert_eq!(map.get(b"P2C", 0, &[1]), Some(&vec![10]));
    assert_eq!(map.get(b"P2C", 0, &[2]), Some(&vec![20]));
    assert_eq!(map.get(b"P2C", 1, &[1]), Some(&vec![30]));
    assert_eq!(map.get(b"P2C", 1, &[2]), None);
    assert_eq!(map.get(b"TAPRET", 0, &[1]), None);
    assert_eq!(map.find(b"P2C", 1, &[1]), Some(2));
    assert_eq!(map.find(b"P2C", 2, &[1]), None);
    assert!(map.contains(b"P2C", 0, &[2]));
    assert_eq!(map.entry_at(1).key, ProprietaryKey::new(b"P2C", 0, &[2]));
    assert_eq!(map.entry_at(1).value, vec![20]);
}

#[test]
fn registry_of_prefixes_and_subtypes() {
    assert_eq!(&PSBT_LNPBP4_PREFIX, b"LNPBP4");
    assert_eq!(&PSBT_TAPRET_PREFIX, b"TAPRET");
    assert_eq!(&PSBT_P2C_PREFIX, b"P2C");
    assert_eq!(PSBT_GLOBAL_LNPBP4_PROTOCOL_INFO, 0x00);
    assert_eq!(PSBT_OUT_LNPBP4_MESSAGE, 0x00);
    assert_eq!(PSBT_OUT_LNPBP4_ENTROPY, 0x01);
    assert_eq!(PSBT_OUT_LNPBP4_MIN_TREE_DEPTH, 0x04);
    assert_eq!(PSBT_IN_TAPRET_TWEAK, 0x00);
    assert_eq!(PSBT_OUT_TAPRET_HOST, 0x00);
    assert_eq!(PSBT_OUT_TAPRET_COMMITMENT, 0x01);
    assert_eq!(PSBT_OUT_TAPRET_PROOF, 0x02);
    assert_eq!(PSBT_IN_P2C_TWEAK, 0x00);
}

#[test]
fn entries_of_a_prefix_and_subtype() {
    let mut map = ProprietaryMap::new();
    assert_eq!(map.select(b"LNPBP4", 0), Vec::<usize>::new());
    map.insert(ProprietaryKey::new(b"LNPBP4", 0, &[1; 32]), vec![10; 32]);
    map.insert(ProprietaryKey::new(b"LNPBP4", 1, &[]), vec![7; 32]);
    map.insert(ProprietaryKey::new(b"LNPBP4", 0, &[2; 32]), vec![20; 32]);
    map.insert(ProprietaryKey::new(b"TAPRET", 0, &[]), vec![]);
    assert_eq!(map.select(b"LNPBP4", 0), vec![0, 2]);
    assert_eq!(map.select(b"LNPBP4", 1), vec![1]);
    assert_eq!(map.select(b"TAPRET", 0), vec![3]);
    assert_eq!(map.select(b"TAPRET", 1), Vec::<usize>::new());
    assert_eq!(map.select(b"P2C", 0), Vec::<usize>::new());
}
