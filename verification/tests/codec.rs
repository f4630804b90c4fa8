use counter_program::{decode_record, derive_address, encode_record, Counter, Identity};

#[test]
fn encode_layout_is_exact() {
    let c = Counter {
        count: 0x0102_0304_0506_0708,
        authority: Identity::new(1, 2, 3, u64::MAX),
    };
    let bytes = encode_record(&c);
    let mut expected = vec![0x43, 0x4f, 0x55, 0x4e, 0x54, 0x45, 0x52, 0x01];
    expected.extend_from_slice(&[0x08, 0x07, 0x06, 0x05, 0x04, 0x03, 0x02, 0x01]);
    expected.extend_from_slice(&[1, 0, 0, 0, 0, 0, 0, 0]);
    expected.extend_from_slice(&[2, 0, 0, 0, 0, 0, 0, 0]);
    expected.extend_from_slice(&[3, 0, 0, 0, 0, 0, 0, 0]);
    expected.extend_from_slice(&[0xff; 8]);
    assert_eq!(bytes, expected);
}

#[test]
fn decode_returns_what_was_encoded() {
    let c = Counter {
        count: 12345,
        authority: Identity::new(0xaaaa_bbbb_cccc_dddd, 7, 0, 42),
    };
    let bytes = encode_record(&c);
    assert_eq!(decode_record(&bytes), Some(c));
}

#[test]
fn decode_rejects_wrong_length() {
    let c = Counter { count: 1, authority: Identity::new(1, 1, 1, 1) };
    let mut bytes = encode_record(&c);
    bytes.push(0);
    assert_eq!(decode_record(&bytes), None);
    assert_eq!(decode_record(&Vec::new()), None);
    assert_eq!(decode_record(&vec![0u8; 47]), None);
}

#[test]
fn decode_rejects_wrong_discriminator() {
    let c = Counter { count: 1, authority: Identity::new(1, 1, 1, 1) };
    let mut bytes = encode_record(&c);
    bytes[0] = 0x44;
    assert_eq!(decode_record(&bytes), None);
}

#[test]
fn derived_addresses_are_stable_and_distinct() {
    let a = Identity::new(1, 2, 3, 4);
    let b = Identity::new(1, 2, 3, 5);
    let addr_a = derive_address(&a);
    assert_eq!(addr_a, derive_address(&a));
    assert_ne!(addr_a, derive_address(&b));
    // the domain-separator seed, the ASCII bytes of "counter"
    assert_eq!(&addr_a[..7], &[0x63, 0x6f, 0x75, 0x6e, 0x74, 0x65, 0x72]);
    assert_eq!(addr_a.len(), 39);
}
