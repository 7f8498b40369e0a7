use random_rs::message::{EntropyMessage, EntropySourceType, MessageError};
use random_rs::wire::{decode, encode, WireError};

fn sample(source: EntropySourceType, bytes: Vec<u8>, bits: u32) -> EntropyMessage {
    match EntropyMessage::new(source, bytes, bits) {
        Ok(m) => m,
        Err(e) => panic!("sample refused: {:?}", e),
    }
}

#[test]
fn encode_small_sample_exact_bytes() {
    let m = sample(EntropySourceType::Rdseed, vec![1, 2, 3], 24);
    assert_eq!(encode(&m), vec![2, 3, 1, 2, 3, 24]);
}

#[test]
fn encode_uses_wide_integers_for_large_values() {
    let m = sample(EntropySourceType::Pkcs11, vec![7u8; 300], 2400);
    let e = encode(&m);
    assert_eq!(&e[0..4], &[0, 251, 44, 1]);
    assert_eq!(&e[304..], &[251, 96, 9]);
    assert_eq!(e.len(), 307);
}

#[test]
fn round_trip_every_source() {
    let sources = [
        EntropySourceType::Pkcs11,
        EntropySourceType::Gpg,
        EntropySourceType::Rdseed,
        EntropySourceType::Hwrng,
        EntropySourceType::Jitterentropy,
        EntropySourceType::Sound,
    ];
    for (i, s) in sources.iter().enumerate() {
        let bytes: Vec<u8> = (0..32u8).map(|b| b.wrapping_mul(37).wrapping_add(i as u8)).collect();
        let m = sample(*s, bytes.clone(), (i as u32) * 40);
        let e = encode(&m);
        let (d, n) = decode(&e).unwrap();
        assert_eq!(n, e.len());
        assert_eq!(d.source(), *s);
        assert_eq!(d.random_bytes(), &bytes);
        assert_eq!(d.entropy_bits(), (i as u32) * 40);
    }
}

#[test]
fn decode_ignores_trailing_bytes() {
    let m = sample(EntropySourceType::Gpg, vec![9; 32], 0);
    let mut e = encode(&m);
    let len = e.len();
    e.extend_from_slice(&[0xff, 0xff]);
    let (d, n) = decode(&e).unwrap();
    assert_eq!(n, len);
    assert_eq!(d.random_bytes(), &vec![9u8; 32]);
}

#[test]
fn decode_empty_is_malformed() {
    assert!(matches!(decode(&[]), Err(WireError::Malformed)));
}

#[test]
fn decode_unknown_tag() {
    assert!(matches!(decode(&[6, 1, 0, 0]), Err(WireError::UnknownSource)));
}

#[test]
fn decode_truncated_is_malformed() {
    let m = sample(EntropySourceType::Hwrng, vec![5; 32], 0);
    let e = encode(&m);
    for cut in 0..e.len() {
        assert!(matches!(decode(&e[..cut]), Err(WireError::Malformed)));
    }
}

#[test]
fn decode_length_beyond_datagram_is_malformed() {
    assert!(matches!(decode(&[2, 253, 0, 0, 0, 0, 0, 0, 0, 1, 0]), Err(WireError::Malformed)));
}

#[test]
fn decode_overclaim_is_invalid() {
    assert!(matches!(decode(&[2, 1, 0xaa, 9]), Err(WireError::InvalidSample)));
}

#[test]
fn decode_empty_sample_is_invalid() {
    assert!(matches!(decode(&[2, 0, 0]), Err(WireError::InvalidSample)));
}

#[test]
fn decode_garbage_does_not_panic() {
    let mut state: u32 = 0x1234_5678;
    for _ in 0..2000 {
        let mut d = Vec::new();
        for _ in 0..64 {
            state ^= state << 13;
            state ^= state >> 17;
            state ^= state << 5;
            d.push((state & 0xff) as u8);
        }
        let _ = decode(&d);
    }
}

#[test]
fn new_rejects_overclaim() {
    assert!(matches!(
        EntropyMessage::new(EntropySourceType::Rdseed, vec![0; 32], 257),
        Err(MessageError::ClaimExceedsLength)
    ));
}

#[test]
fn new_accepts_full_claim() {
    let m = EntropyMessage::new(EntropySourceType::Rdseed, vec![0; 32], 256).unwrap();
    assert_eq!(m.entropy_bits(), 256);
}

#[test]
fn new_rejects_empty() {
    assert!(matches!(
        EntropyMessage::new(EntropySourceType::Gpg, vec![], 0),
        Err(MessageError::EmptySample)
    ));
}

#[test]
fn source_tags_round_trip() {
    for t in 0..6u32 {
        assert_eq!(EntropySourceType::from_tag(t).unwrap().tag(), t);
    }
    assert!(EntropySourceType::from_tag(6).is_none());
}

#[test]
fn full_claim_values() {
    assert_eq!(random_rs::message::full_claim(32), Some(256));
    assert_eq!(random_rs::message::full_claim(536870911), Some(4294967288));
    assert_eq!(random_rs::message::full_claim(536870912), None);
}
