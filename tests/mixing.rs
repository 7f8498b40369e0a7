use random_rs::message::{EntropyMessage, EntropySourceType};
use random_rs::mixer::{Mixer, INJECTION_LEN};
use random_rs::wire::{encode, WireError};

fn sample(source: EntropySourceType, bytes: Vec<u8>, bits: u32) -> EntropyMessage {
    EntropyMessage::new(source, bytes, bits).unwrap()
}

#[test]
fn received_cpu_sample_credits_its_claim() {
    let m = sample(EntropySourceType::Rdseed, (0..32u8).collect(), 256);
    let datagram = encode(&m);
    let mut mixer = Mixer::new();
    assert_eq!(mixer.credit(), 0);
    assert_eq!(mixer.receive(&datagram), Ok(256));
    assert_eq!(mixer.credit(), 256);
}

#[test]
fn malformed_datagram_changes_nothing() {
    let mut mixer = Mixer::new();
    mixer.absorb(&sample(EntropySourceType::Pkcs11, vec![3; 128], 1024));
    let before = mixer.injection(false).bytes;
    let mut garbage = vec![0xffu8; 64];
    for (i, b) in garbage.iter_mut().enumerate().skip(1) {
        *b = (i as u8).wrapping_mul(97).wrapping_add(13);
    }
    assert_eq!(mixer.receive(&garbage), Err(WireError::Malformed));
    assert_eq!(mixer.credit(), 1024);
    assert_eq!(mixer.injection(false).bytes, before);
}

#[test]
fn unaccounted_samples_are_mixed_without_credit() {
    let mut mixer = Mixer::new();
    let before = mixer.injection(false).bytes;
    mixer.absorb(&sample(EntropySourceType::Jitterentropy, vec![1; 32], 0));
    assert_eq!(mixer.credit(), 0);
    assert_ne!(mixer.injection(false).bytes, before);
}

#[test]
fn credit_does_not_depend_on_order() {
    let a = sample(EntropySourceType::Pkcs11, vec![1; 128], 1024);
    let b = sample(EntropySourceType::Gpg, vec![2; 32], 0);
    let c = sample(EntropySourceType::Rdseed, vec![3; 32], 256);
    let mut m1 = Mixer::new();
    m1.absorb(&a);
    m1.absorb(&b);
    m1.absorb(&c);
    let mut m2 = Mixer::new();
    m2.absorb(&c);
    m2.absorb(&a);
    m2.absorb(&b);
    assert_eq!(m1.credit(), 1280);
    assert_eq!(m2.credit(), 1280);
    assert_ne!(m1.injection(false).bytes, m2.injection(false).bytes);
}

#[test]
fn unaccounted_injection_keeps_credit() {
    let mut mixer = Mixer::new();
    mixer.absorb(&sample(EntropySourceType::Rdseed, vec![4; 32], 256));
    let inj = mixer.injection(false);
    assert_eq!(inj.credited_bits, 0);
    assert_eq!(inj.bytes.len(), INJECTION_LEN);
    mixer.injection_done(&inj, true);
    assert_eq!(mixer.credit(), 256);
}

#[test]
fn accounted_injection_resets_credit() {
    let mut mixer = Mixer::new();
    mixer.absorb(&sample(EntropySourceType::Rdseed, vec![4; 32], 256));
    let inj = mixer.injection(true);
    assert_eq!(inj.credited_bits, 256);
    mixer.injection_done(&inj, false);
    assert_eq!(mixer.credit(), 256);
    mixer.injection_done(&inj, true);
    assert_eq!(mixer.credit(), 0);
}

#[test]
fn accounted_injection_carries_whole_credit() {
    let mut mixer = Mixer::new();
    for _ in 0..3 {
        mixer.absorb(&sample(EntropySourceType::Pkcs11, vec![5; 128], 1024));
    }
    assert!(mixer.ready());
    let inj = mixer.injection(true);
    assert_eq!(inj.credited_bits, 3072);
    assert_eq!(inj.bytes.len(), 384);
    mixer.injection_done(&inj, true);
    assert_eq!(mixer.credit(), 0);
}

#[test]
fn garbage_between_samples_keeps_full_credit_for_injection() {
    let mut mixer = Mixer::new();
    mixer.absorb(&sample(EntropySourceType::Pkcs11, vec![5; 128], 1024));
    mixer.absorb(&sample(EntropySourceType::Pkcs11, vec![6; 128], 1024));
    let reference = mixer.injection(true).bytes;
    assert!(mixer.receive(&[0xff; 64]).is_err());
    mixer.absorb(&sample(EntropySourceType::Pkcs11, vec![7; 128], 1024));
    let mut clean = Mixer::new();
    clean.absorb(&sample(EntropySourceType::Pkcs11, vec![5; 128], 1024));
    clean.absorb(&sample(EntropySourceType::Pkcs11, vec![6; 128], 1024));
    assert_eq!(clean.injection(true).bytes, reference);
    clean.absorb(&sample(EntropySourceType::Pkcs11, vec![7; 128], 1024));
    let inj = mixer.injection(true);
    assert_eq!(inj.credited_bits, 3072);
    assert_eq!(inj.bytes, clean.injection(true).bytes);
}

#[test]
fn small_accounted_injection_has_minimum_payload() {
    let mut mixer = Mixer::new();
    mixer.absorb(&sample(EntropySourceType::Rdseed, vec![4; 32], 256));
    let inj = mixer.injection(true);
    assert_eq!(inj.credited_bits, 256);
    assert_eq!(inj.bytes.len(), INJECTION_LEN);
}

#[test]
fn ready_threshold() {
    let mut mixer = Mixer::new();
    mixer.absorb(&sample(EntropySourceType::Pkcs11, vec![5; 128], 1024));
    assert!(!mixer.ready());
    mixer.absorb(&sample(EntropySourceType::Pkcs11, vec![6; 128], 1024));
    assert!(mixer.ready());
}

#[test]
fn injection_leaves_digest_state() {
    let mut mixer = Mixer::new();
    mixer.absorb(&sample(EntropySourceType::Hwrng, vec![8; 32], 0));
    let first = mixer.injection(true);
    mixer.injection_done(&first, true);
    assert_eq!(mixer.injection(true).bytes, first.bytes);
}

#[test]
fn injection_due_by_credit_or_batch() {
    let mut mixer = Mixer::new();
    assert_eq!(mixer.due(), None);
    for i in 0..63u8 {
        mixer.absorb(&sample(EntropySourceType::Jitterentropy, vec![i; 32], 0));
    }
    assert_eq!(mixer.due(), None);
    mixer.absorb(&sample(EntropySourceType::Jitterentropy, vec![99; 32], 0));
    assert_eq!(mixer.due(), Some(false));
    let inj = mixer.injection(false);
    mixer.injection_done(&inj, true);
    assert_eq!(mixer.due(), None);
    mixer.absorb(&sample(EntropySourceType::Pkcs11, vec![1; 128], 1024));
    mixer.absorb(&sample(EntropySourceType::Pkcs11, vec![2; 128], 1024));
    assert_eq!(mixer.due(), Some(true));
}
