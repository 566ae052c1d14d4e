use diamond_drops::header::Header;
use diamond_drops::word::Word256;
use tiny_keccak::Hasher;

#[test]
fn it_produces_correct_hash() {
    // Build the args for collation header creation
    let sid = Word256::from_u64(1);
    let sid_bytes = sid.to_bytes();

    let ph_bytes: [u8; 32] = [
        0x50, 0xa1, 0xb3, 0xd5, 0x14, 0xd4, 0x99, 0x63, 0x54, 0x14, 0x7a, 0xd2, 0x89, 0x61, 0x75,
        0xb0, 0x7d, 0x43, 0x7f, 0x9e, 0x58, 0xfa, 0x3c, 0x44, 0x86, 0xc0, 0x42, 0xf4, 0xc3, 0xd5,
        0x05, 0x9b,
    ];
    let ph = Word256::from_bytes(ph_bytes);

    let cr_bytes: [u8; 32] = [
        0x50, 0xce, 0xc0, 0x49, 0x54, 0x77, 0xfb, 0x7e, 0x65, 0x25, 0xc2, 0xa0, 0x39, 0xa3, 0xa9,
        0x95, 0x34, 0x90, 0x35, 0xb2, 0xa8, 0x23, 0xa4, 0x99, 0x0b, 0x27, 0xf6, 0xd7, 0xd5, 0x5e,
        0xec, 0x6b,
    ];
    let cr = Word256::from_bytes(cr_bytes);

    let period = Word256::from_u64(1);
    let period_bytes = period.to_bytes();

    // Create the header
    let header = Header::new(sid, ph, cr, period);

    // Calculate its generated hash
    let header_hash = header.hash();

    // Calculate the expected hash
    let mut sha3 = tiny_keccak::Sha3::v256();
    sha3.update(&sid_bytes[..]);
    sha3.update(&ph_bytes[..]);
    sha3.update(&cr_bytes[..]);
    sha3.update(&period_bytes[..]);

    let mut expected_bytes: [u8; 32] = [0; 32];
    sha3.finalize(&mut expected_bytes);

    let expected = Word256::from_bytes(expected_bytes);

    // Ensure manually calculated hash matches the generated hash
    assert_eq!(expected, header_hash);
}

#[test]
fn hash_is_idempotent() {
    let header = Header::new(
        Word256::from_u64(5),
        Word256::from_u64(1234),
        Word256::from_u64(99),
        Word256::from_u64(7),
    );
    assert_eq!(header.hash(), header.hash());
    let same_fields = Header::new(
        Word256::from_u64(5),
        Word256::from_u64(1234),
        Word256::from_u64(99),
        Word256::from_u64(7),
    );
    assert_eq!(header.hash(), same_fields.hash());
}

#[test]
fn hash_digests_rather_than_copies_its_input() {
    // A header of all-zero fields feeds 128 zero bytes to the digest; the
    // digest of zeros is not zeros, so a hash that handed bytes through
    // unchanged would fail here.
    let header = Header::new(Word256::zero(), Word256::zero(), Word256::zero(), Word256::zero());
    assert_ne!(header.hash(), Word256::zero());
}

#[test]
fn hash_changes_when_a_field_changes() {
    let base = Header::new(
        Word256::from_u64(1),
        Word256::zero(),
        Word256::zero(),
        Word256::from_u64(1),
    );
    let other_shard = Header::new(
        Word256::from_u64(2),
        Word256::zero(),
        Word256::zero(),
        Word256::from_u64(1),
    );
    let other_period = Header::new(
        Word256::from_u64(1),
        Word256::zero(),
        Word256::zero(),
        Word256::from_u64(2),
    );
    assert_ne!(base.hash(), other_shard.hash());
    assert_ne!(base.hash(), other_period.hash());
}

#[test]
fn word_from_u64_is_big_endian() {
    let w = Word256::from_u64(0x0102030405060708);
    let bytes = w.to_bytes();
    for i in 0..24 {
        assert_eq!(bytes[i], 0);
    }
    assert_eq!(&bytes[24..], &[1, 2, 3, 4, 5, 6, 7, 8]);
    assert_eq!(Word256::from_u64(0), Word256::zero());
}

#[test]
fn word_equality_is_byte_for_byte() {
    let a = Word256::from_u64(42);
    let b = Word256::from_u64(42);
    let c = Word256::from_u64(43);
    assert!(a.eq_word(&b));
    assert!(!a.eq_word(&c));
}
