use penumbra::exts::prepare_extensions;

fn blob_with_all_sentinels() -> Vec<u8> {
    let mut blob = vec![0u8; 4];
    for b in [0x11u8, 0x22, 0x33, 0x44, 0x55, 0x66, 0x77] {
        blob.extend_from_slice(&[b; 4]);
        blob.push(0);
    }
    blob
}

fn slot_of(blob: &[u8], b: u8) -> usize {
    blob.windows(4).position(|w| w == [b; 4]).unwrap()
}

#[test]
fn prepare_needs_mandatory_sentinels() {
    let da2 = [0u8; 64];
    assert!(prepare_extensions(&da2, 0x40000000, &[0u8; 32]).is_none());
    // Only the register slot present: still refused.
    let mut blob = vec![0u8; 4];
    blob.extend_from_slice(&[0x11; 4]);
    assert!(prepare_extensions(&da2, 0x40000000, &blob).is_none());
}

#[test]
fn prepare_writes_rebased_thumb_addresses() {
    // register_devctrl at offset 6, mmc_get_card primary at 17
    // (recorded one byte back at 16).
    let mut da2 = vec![0u8; 6];
    da2.extend_from_slice(&[0x38, 0xB5, 0x05, 0x46, 0x0C, 0x20]);
    da2.extend_from_slice(&[0, 0, 0, 0, 0]);
    da2.extend_from_slice(&[0x4B, 0x4F, 0xF4, 0x3C, 0x72]);
    let addr = 0x40000000u32;
    let blob = blob_with_all_sentinels();
    let out = prepare_extensions(&da2, addr, &blob).unwrap();
    assert_eq!(out.len(), blob.len());
    let reg_slot = slot_of(&blob, 0x11);
    let card_slot = slot_of(&blob, 0x22);
    let expected_reg = (6u32 + addr) | 1;
    let expected_card = (16u32 + addr) | 1;
    assert_eq!(&out[reg_slot..reg_slot + 4], &expected_reg.to_le_bytes());
    assert_eq!(&out[card_slot..card_slot + 4], &expected_card.to_le_bytes());
}

#[test]
fn prepare_zeroes_unresolved_symbols() {
    let da2 = [0u8; 64];
    let blob = blob_with_all_sentinels();
    let out = prepare_extensions(&da2, 0x40000000, &blob).unwrap();
    for b in [0x11u8, 0x22, 0x33, 0x44, 0x55, 0x66, 0x77] {
        let slot = slot_of(&blob, b);
        assert_eq!(&out[slot..slot + 4], &[0, 0, 0, 0], "slot {:#x}", b);
    }
}

#[test]
fn prepare_uses_get_card_fallback() {
    // Only the ten-byte fallback signature, at offset 12; recorded
    // ten bytes back.
    let mut da2 = vec![0u8; 12];
    da2.extend_from_slice(&[0xA3, 0xEB, 0x00, 0x13, 0x18, 0x1A, 0x02, 0xEB, 0x00, 0x10]);
    let addr = 0x200u32;
    let blob = blob_with_all_sentinels();
    let out = prepare_extensions(&da2, addr, &blob).unwrap();
    let card_slot = slot_of(&blob, 0x22);
    let expected = (2u32 + addr) | 1;
    assert_eq!(&out[card_slot..card_slot + 4], &expected.to_le_bytes());
}

#[test]
fn prepare_part_config_needs_confirmation_bytes() {
    // A candidate without B3 21 at +20 is skipped; a later one with
    // the confirmation is taken.
    let mut da2 = vec![0u8; 2];
    da2.extend_from_slice(&[0xC3, 0x69, 0x0A, 0x46, 0x10, 0xB5]); // at 2, unconfirmed
    da2.extend_from_slice(&[0u8; 24]);
    da2.extend_from_slice(&[0xC3, 0x69, 0x0A, 0x46, 0x10, 0xB5]); // at 32
    da2.extend_from_slice(&[0u8; 14]);
    da2.extend_from_slice(&[0xB3, 0x21]); // confirmation at 32 + 20
    da2.extend_from_slice(&[0u8; 8]);
    let addr = 0x1000u32;
    let blob = blob_with_all_sentinels();
    let out = prepare_extensions(&da2, addr, &blob).unwrap();
    let slot = slot_of(&blob, 0x33);
    let expected = (32u32 + addr) | 1;
    assert_eq!(&out[slot..slot + 4], &expected.to_le_bytes());
}

#[test]
fn prepare_reads_ufs_hba_pointer() {
    // Primary g_ufs_hba signature at 0; the pointer literal at +10.
    let mut da2 = Vec::new();
    da2.extend_from_slice(&[0x20, 0x46, 0x0B, 0xB0, 0xBD, 0xE8, 0xF0, 0x83, 0x00, 0xBF]);
    da2.extend_from_slice(&0x11223344u32.to_le_bytes());
    da2.extend_from_slice(&[0u8; 8]);
    let blob = blob_with_all_sentinels();
    let out = prepare_extensions(&da2, 0, &blob).unwrap();
    let slot = slot_of(&blob, 0x77);
    assert_eq!(&out[slot..slot + 4], &0x11223344u32.to_le_bytes());
}
