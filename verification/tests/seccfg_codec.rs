use penumbra::error::MtkError;
use penumbra::seccfg::{LockFlag, SealAlgo, SecCfgV4};
use sha2::Digest;

fn s5_blob() -> Vec<u8> {
    let mut b = Vec::new();
    b.extend_from_slice(&0x4D4D4D4Du32.to_le_bytes());
    b.extend_from_slice(&4u32.to_le_bytes());
    b.extend_from_slice(&0x14u32.to_le_bytes());
    b.extend_from_slice(&1u32.to_le_bytes());
    b.extend_from_slice(&1u32.to_le_bytes());
    b.extend_from_slice(&0u32.to_le_bytes());
    b.extend_from_slice(&0x45454545u32.to_le_bytes());
    b.extend_from_slice(&[0u8; 32]);
    b
}

#[test]
fn s5_seccfg_parse() {
    let cfg = SecCfgV4::parse(&s5_blob()).unwrap();
    assert_eq!(cfg.seccfg_ver, 4);
    assert_eq!(cfg.seccfg_size, 0x14);
    assert_eq!(cfg.lock_state, 1);
    assert_eq!(cfg.critical_lock_state, 1);
    assert_eq!(cfg.sboot_runtime, 0);
    // An all-zero seal matches no algorithm without the device's SEJ.
    assert!(cfg.algo.is_none());
}

#[test]
fn parse_rejects_bad_magic() {
    let mut blob = s5_blob();
    blob[0] = 0;
    assert_eq!(SecCfgV4::parse(&blob), Err(MtkError::Parse));
}

#[test]
fn parse_rejects_short_input() {
    assert_eq!(SecCfgV4::parse(&s5_blob()[0..40]), Err(MtkError::Parse));
}

#[test]
fn create_then_parse_round_trip() {
    let mut cfg = SecCfgV4::new();
    let blob = cfg.create(LockFlag::Unlock).unwrap();
    assert_eq!(blob.len(), 0x200);
    let parsed = SecCfgV4::parse(&blob).unwrap();
    assert_eq!(parsed.lock_state, 3);
    assert_eq!(parsed.critical_lock_state, 0);
    assert_eq!(parsed.seccfg_ver, 4);
    assert_eq!(parsed.seccfg_size, 20);
    // The plain seal is recognised on re-parse.
    assert_eq!(parsed.algo, Some(SealAlgo::Raw));
    // Re-creating under the same flag reproduces the sealed prefix.
    let mut again = parsed;
    let blob2 = again.create(LockFlag::Unlock).unwrap();
    assert_eq!(blob2, blob);
}

#[test]
fn create_lock_sets_lock_words() {
    let mut cfg = SecCfgV4::new();
    let blob = cfg.create(LockFlag::Lock).unwrap();
    let parsed = SecCfgV4::parse(&blob).unwrap();
    assert_eq!(parsed.lock_state, 1);
    assert_eq!(parsed.critical_lock_state, 1);
}

#[test]
fn create_seals_with_real_sha256() {
    // The sealed trailer must be the actual SHA-256 of the 28-byte
    // header, not any echo of the input.
    let mut cfg = SecCfgV4::new();
    let blob = cfg.create(LockFlag::Unlock).unwrap();
    let digest = sha2::Sha256::digest(&blob[0..28]);
    assert_eq!(&blob[28..60], digest.as_slice());
}

#[test]
fn resolve_algo_latches_only_on_match() {
    let mut cfg = SecCfgV4::parse(&s5_blob()).unwrap();
    let reference = cfg.reference_hash();
    assert!(!cfg.resolve_algo(SealAlgo::Sw, &[0u8; 32]));
    assert!(cfg.algo.is_none());
    assert!(cfg.resolve_algo(SealAlgo::Sw, &reference));
    assert_eq!(cfg.algo, Some(SealAlgo::Sw));
}

#[test]
fn create_refuses_sej_sealed_records() {
    let mut cfg = SecCfgV4::parse(&s5_blob()).unwrap();
    let reference = cfg.reference_hash();
    assert!(cfg.resolve_algo(SealAlgo::HwV3, &reference));
    assert_eq!(cfg.create(LockFlag::Unlock), Err(MtkError::Unsupported));
}

#[test]
fn create_with_sealed_layout() {
    let mut cfg = SecCfgV4::new();
    let sealed = [0xABu8; 32];
    let blob = cfg.create_with_sealed(LockFlag::Lock, &sealed);
    assert_eq!(blob.len(), 0x200);
    assert_eq!(&blob[0..4], &0x4D4D4D4Du32.to_le_bytes());
    assert_eq!(&blob[12..16], &1u32.to_le_bytes());
    assert_eq!(&blob[16..20], &1u32.to_le_bytes());
    assert_eq!(&blob[24..28], &0x45454545u32.to_le_bytes());
    assert_eq!(&blob[28..60], &sealed);
    assert!(blob[60..].iter().all(|&b| b == 0));
}

#[test]
fn header_bytes_layout() {
    let cfg = SecCfgV4::new();
    let hdr = cfg.header_bytes();
    assert_eq!(hdr.len(), 28);
    assert_eq!(&hdr[0..4], &0x4D4D4D4Du32.to_le_bytes());
    assert_eq!(&hdr[4..8], &4u32.to_le_bytes());
    assert_eq!(&hdr[8..12], &20u32.to_le_bytes());
    assert_eq!(&hdr[24..28], &0x45454545u32.to_le_bytes());
}
