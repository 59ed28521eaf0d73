use cobweb::cipher::{Key, Opener, OpenError, SealError, Sealer, KEY_LEN, TAG_LEN};

fn test_key(fill: u8) -> Key {
    let bytes: Vec<u8> = (0..KEY_LEN as u8).map(|i| i.wrapping_add(fill)).collect();
    Key::from_bytes(bytes).expect("a 32-byte key is accepted")
}

#[test]
fn round_trip_returns_the_sealed_plaintext() {
    let key = Key::generate();
    let mut sealer = Sealer::new(&key);
    let mut opener = Opener::new(&key);
    let packets: Vec<Vec<u8>> = vec![vec![], vec![0u8], vec![1, 3, 3, 7], vec![0xff; 1500]];
    for p in &packets {
        let c = sealer.seal_next(p).expect("sealing must succeed below exhaustion");
        let q = opener.open_next(&c).expect("the in-order packet must open");
        assert_eq!(&q, p);
    }
    assert_eq!(sealer.current_counter(), packets.len() as u64);
    assert_eq!(opener.current_counter(), packets.len() as u64);
}

#[test]
fn sealing_twice_yields_different_ciphertext() {
    let key = Key::generate();
    let mut sealer = Sealer::new(&key);
    let p = vec![42u8; 64];
    let c0 = sealer.seal_next(&p).unwrap();
    assert_eq!(sealer.current_counter(), 1);
    let c1 = sealer.seal_next(&p).unwrap();
    assert_eq!(sealer.current_counter(), 2);
    assert_ne!(c0, c1);
}

#[test]
fn sealed_packet_is_not_the_plaintext() {
    let key = test_key(0);
    let mut sealer = Sealer::new(&key);
    let p = vec![9u8, 8, 7, 6, 5];
    let c = sealer.seal_next(&p).unwrap();
    assert_eq!(c.len(), p.len() + TAG_LEN);
    assert_ne!(&c[TAG_LEN..], p.as_slice());
}

#[test]
fn every_single_bit_flip_fails_authentication() {
    let key = Key::generate();
    let mut sealer = Sealer::new(&key);
    let p = vec![0xa5u8, 0x00, 0xff, 0x10];
    let c = sealer.seal_next(&p).unwrap();
    for byte in 0..c.len() {
        for bit in 0..8 {
            let mut tampered = c.clone();
            tampered[byte] ^= 1u8 << bit;
            let mut opener = Opener::new(&key);
            match opener.open_next(&tampered) {
                Err(OpenError::AuthenticationFailed) => {}
                Err(OpenError::SequenceMismatch) => {
                    panic!("a tampered packet must not look out of order")
                }
                Ok(_) => panic!("a tampered packet must never yield a plaintext"),
            }
            assert_eq!(opener.current_counter(), 0);
        }
    }
}

#[test]
fn skipped_sequence_is_a_mismatch_and_freezes_the_counter() {
    let key = Key::generate();
    let mut sealer = Sealer::new(&key);
    let p0 = vec![0u8; 8];
    let p1 = vec![1u8; 8];
    let p2 = vec![2u8; 8];
    let c0 = sealer.seal_next(&p0).unwrap();
    let c1 = sealer.seal_next(&p1).unwrap();
    let c2 = sealer.seal_next(&p2).unwrap();

    let mut opener = Opener::new(&key);
    assert_eq!(opener.open_next(&c0).unwrap(), p0);
    assert_eq!(opener.current_counter(), 1);

    // sequence 2 arrives while 1 is expected: rejected, counter unchanged
    assert_eq!(opener.open_next(&c2).unwrap_err(), OpenError::SequenceMismatch);
    assert_eq!(opener.current_counter(), 1);

    // the session recovers once the missing packet arrives
    assert_eq!(opener.open_next(&c1).unwrap(), p1);
    assert_eq!(opener.open_next(&c2).unwrap(), p2);
    assert_eq!(opener.current_counter(), 3);
}

#[test]
fn replayed_packet_is_a_mismatch() {
    let key = Key::generate();
    let mut sealer = Sealer::new(&key);
    let p0 = vec![5u8; 16];
    let c0 = sealer.seal_next(&p0).unwrap();
    let mut opener = Opener::new(&key);
    assert_eq!(opener.open_next(&c0).unwrap(), p0);
    assert_eq!(opener.open_next(&c0).unwrap_err(), OpenError::SequenceMismatch);
    assert_eq!(opener.current_counter(), 1);
}

#[test]
fn wrong_key_fails_authentication() {
    let k1 = test_key(1);
    let k2 = test_key(2);
    let mut sealer = Sealer::new(&k1);
    let mut opener = Opener::new(&k2);
    let c = sealer.seal_next(&vec![1u8, 2, 3]).unwrap();
    assert_eq!(opener.open_next(&c).unwrap_err(), OpenError::AuthenticationFailed);
    assert_eq!(opener.current_counter(), 0);
}

#[test]
fn counter_at_maximum_exhausts_instead_of_wrapping() {
    let key = Key::generate();
    let mut sealer = Sealer::with_counter(&key, u64::MAX);
    let r = sealer.seal_next(&vec![1u8, 2, 3]);
    assert_eq!(r.unwrap_err(), SealError::CounterExhaustion);
    assert_eq!(sealer.current_counter(), u64::MAX);
    // and it stays exhausted
    assert_eq!(sealer.seal_next(&vec![]).unwrap_err(), SealError::CounterExhaustion);
}

#[test]
fn last_sequence_number_still_seals() {
    let key = Key::generate();
    let mut sealer = Sealer::with_counter(&key, u64::MAX - 1);
    let mut opener = Opener::with_counter(&key, u64::MAX - 1);
    let p = vec![7u8; 5];
    let c = sealer.seal_next(&p).unwrap();
    assert_eq!(sealer.current_counter(), u64::MAX);
    assert_eq!(opener.open_next(&c).unwrap(), p);
    assert_eq!(opener.current_counter(), u64::MAX);
}

#[test]
fn key_material_must_be_exactly_key_len_bytes() {
    assert!(Key::from_bytes(vec![0u8; KEY_LEN]).is_some());
    assert!(Key::from_bytes(vec![0u8; KEY_LEN - 1]).is_none());
    assert!(Key::from_bytes(vec![0u8; KEY_LEN + 1]).is_none());
    assert!(Key::from_bytes(vec![]).is_none());
}

#[test]
fn same_key_bytes_give_interoperable_ciphers() {
    // a key is pure value: two ciphers built from equal bytes interoperate
    let ka = test_key(9);
    let kb = test_key(9);
    let mut sealer = Sealer::new(&ka);
    let mut opener = Opener::new(&kb);
    let p = vec![3u8, 1, 4, 1, 5];
    let c = sealer.seal_next(&p).unwrap();
    assert_eq!(opener.open_next(&c).unwrap(), p);
}

#[test]
fn cleared_key_can_no_longer_open_the_session() {
    let mut key = test_key(4);
    let mut sealer = Sealer::new(&key);
    let c = sealer.seal_next(&vec![1u8]).unwrap();
    key.clear();
    // the zeroed key is a different key: the old traffic no longer opens
    let mut opener = Opener::new(&key);
    assert!(opener.open_next(&c).is_err());
}
