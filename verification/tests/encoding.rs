use storage_hasher::bits::{bits_to_bytes, bytes_into_bits, collect_witness};
use storage_hasher::encoding::{push_le, read_le};

#[test]
fn push_le_appends_low_bytes_first() {
    let mut out = vec![0xEEu8];
    push_le(&mut out, 0x0102_0304, 4);
    assert_eq!(out, vec![0xEE, 4, 3, 2, 1]);
    push_le(&mut out, 0x0102_0304, 2);
    assert_eq!(out, vec![0xEE, 4, 3, 2, 1, 4, 3]);
    push_le(&mut out, 7, 0);
    assert_eq!(out.len(), 7);
    let mut wide = Vec::new();
    push_le(&mut wide, 1, 10);
    assert_eq!(wide, vec![1, 0, 0, 0, 0, 0, 0, 0, 0, 0]);
}

#[test]
fn read_le_reads_low_bytes_first() {
    assert_eq!(read_le(&[]), 0);
    assert_eq!(read_le(&[7]), 7);
    assert_eq!(read_le(&[4, 3, 2, 1]), 0x0102_0304);
    assert_eq!(read_le(&[255; 8]), u64::MAX);
    assert_eq!(read_le(&[0, 0, 0, 0, 0, 0, 0, 128]), 1 << 63);
}

#[test]
fn read_le_undoes_push_le() {
    for v in [0u64, 1, 255, 256, 0xDEAD_BEEF, u64::MAX] {
        let mut out = Vec::new();
        push_le(&mut out, v, 8);
        assert_eq!(read_le(&out), v);
    }
}

#[test]
fn bits_are_packed_low_bit_first() {
    assert_eq!(bits_to_bytes(&[]), Vec::<u8>::new());
    assert_eq!(bits_to_bytes(&[true]), vec![1]);
    assert_eq!(bits_to_bytes(&[false, true]), vec![2]);
    assert_eq!(bits_to_bytes(&[true, false, true]), vec![5]);
    assert_eq!(bits_to_bytes(&[false; 8]), vec![0]);
    assert_eq!(bits_to_bytes(&[true; 8]), vec![255]);
    assert_eq!(bits_to_bytes(&[false, false, false, false, false, false, false, true]), vec![128]);
    assert_eq!(
        bits_to_bytes(&[true, true, false, false, true, false, true, false, true]),
        vec![83, 1]
    );
}

#[test]
fn bytes_are_unpacked_low_bit_first() {
    assert_eq!(bytes_into_bits(&[]), Vec::<bool>::new());
    assert_eq!(
        bytes_into_bits(&[97]),
        vec![true, false, false, false, false, true, true, false]
    );
    assert_eq!(bytes_into_bits(&[1, 128]).len(), 16);
    assert_eq!(bytes_into_bits(&[1, 128])[0], true);
    assert_eq!(bytes_into_bits(&[1, 128])[15], true);
    assert_eq!(bytes_into_bits(&[1, 128])[8], false);
}

#[test]
fn packing_undoes_unpacking() {
    let all: Vec<u8> = (0..=255).collect();
    assert_eq!(bits_to_bytes(&bytes_into_bits(&all)), all);
    assert_eq!(bits_to_bytes(&bytes_into_bits(b"abc")), b"abc".to_vec());
}

#[test]
fn witness_is_collected_when_every_bit_has_a_value() {
    let mut into = vec![true];
    assert!(collect_witness(&[Some(false), Some(true)], &mut into));
    assert_eq!(into, vec![true, false, true]);
    assert!(collect_witness(&[], &mut into));
    assert_eq!(into, vec![true, false, true]);
}

#[test]
fn witness_is_refused_when_a_bit_has_no_value() {
    let mut into = Vec::new();
    assert!(!collect_witness(&[Some(true), None, Some(true)], &mut into));
    assert!(!collect_witness(&[None], &mut into));
}
