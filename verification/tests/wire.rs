use slkrd::wire::{decode_u64_le, encode_u64_le, same_bytes, TransferHeader, HEADER_PREFIX};

#[test]
fn integers_are_eight_little_endian_bytes() {
    assert_eq!(encode_u64_le(0), vec![0, 0, 0, 0, 0, 0, 0, 0]);
    assert_eq!(encode_u64_le(1), vec![1, 0, 0, 0, 0, 0, 0, 0]);
    assert_eq!(encode_u64_le(256), vec![0, 1, 0, 0, 0, 0, 0, 0]);
    assert_eq!(encode_u64_le(150000), vec![0xf0, 0x49, 0x02, 0, 0, 0, 0, 0]);
    assert_eq!(encode_u64_le(0x0102030405060708), vec![8, 7, 6, 5, 4, 3, 2, 1]);
    assert_eq!(encode_u64_le(u64::MAX), vec![255; 8]);
}

#[test]
fn integers_agree_with_the_machine() {
    let mut value: u64 = 1;
    for _ in 0..200 {
        value = value.wrapping_mul(6364136223846793005).wrapping_add(1442695040888963407);
        assert_eq!(encode_u64_le(value), value.to_le_bytes().to_vec());
        assert_eq!(decode_u64_le(&value.to_le_bytes()), Some(value));
    }
}

#[test]
fn integers_round_trip() {
    for value in [0u64, 1, 255, 256, 65535, 65536, 150000, 1 << 32, (1 << 53) + 1, u64::MAX - 1, u64::MAX] {
        assert_eq!(decode_u64_le(&encode_u64_le(value)), Some(value));
    }
}

#[test]
fn decode_needs_exactly_eight_bytes() {
    assert_eq!(decode_u64_le(&[]), None);
    assert_eq!(decode_u64_le(&[1, 2, 3, 4, 5, 6, 7]), None);
    assert_eq!(decode_u64_le(&[1, 2, 3, 4, 5, 6, 7, 8, 9]), None);
    assert_eq!(decode_u64_le(&[1, 2, 3, 4, 5, 6, 7, 8]), Some(0x0807060504030201));
}

#[test]
fn header_is_size_then_name_length_then_name() {
    let header = TransferHeader::new(150000, "report.pdf");
    assert_eq!(header.file_size, 150000);
    assert_eq!(header.filename, b"report.pdf".to_vec());
    let mut expected = 150000u64.to_le_bytes().to_vec();
    expected.extend_from_slice(&10u64.to_le_bytes());
    expected.extend_from_slice(b"report.pdf");
    assert_eq!(header.encode(), expected);
    assert_eq!(header.encode().len(), HEADER_PREFIX + 10);
}

#[test]
fn header_name_travels_as_utf8() {
    let header = TransferHeader::new(7, "né.txt");
    assert_eq!(header.filename, "né.txt".as_bytes().to_vec());
    assert_eq!(header.filename.len(), 7);
    let wire = header.encode();
    assert_eq!(&wire[8..16], &7u64.to_le_bytes());
}

#[test]
fn header_round_trips() {
    for (size, name) in [(0u64, ""), (1, "a"), (150000, "report.pdf"), (u64::MAX, "a name with spaces.tar.gz")] {
        let header = TransferHeader::new(size, name);
        let wire = header.encode();
        let (decoded, consumed) = TransferHeader::decode(&wire).unwrap();
        assert_eq!(decoded.file_size, size);
        assert_eq!(decoded.filename, name.as_bytes().to_vec());
        assert_eq!(consumed, wire.len());
    }
}

#[test]
fn header_decode_leaves_the_payload() {
    let mut wire = TransferHeader::new(3, "x.bin").encode();
    wire.extend_from_slice(&[9, 8, 7]);
    let (decoded, consumed) = TransferHeader::decode(&wire).unwrap();
    assert_eq!(decoded.file_size, 3);
    assert_eq!(decoded.filename, b"x.bin".to_vec());
    assert_eq!(consumed, 21);
    assert_eq!(&wire[consumed..], &[9, 8, 7]);
}

#[test]
fn header_decode_refuses_a_short_row() {
    let wire = TransferHeader::new(3, "x.bin").encode();
    for cut in 0..wire.len() {
        assert!(TransferHeader::decode(&wire[..cut].to_vec()).is_none(), "cut at {}", cut);
    }
    assert!(TransferHeader::decode(&wire).is_some());
}

#[test]
fn header_decode_refuses_a_name_longer_than_the_row() {
    let mut wire = 5u64.to_le_bytes().to_vec();
    wire.extend_from_slice(&u64::MAX.to_le_bytes());
    wire.extend_from_slice(b"abc");
    assert!(TransferHeader::decode(&wire).is_none());
}

#[test]
fn same_bytes_compares_rows() {
    assert!(same_bytes(&vec![1, 2, 3], &vec![1, 2, 3]));
    assert!(!same_bytes(&vec![1, 2, 3], &vec![1, 2, 4]));
    assert!(!same_bytes(&vec![1, 2, 3], &vec![1, 2]));
    assert!(same_bytes(&vec![], &vec![]));
}
