use penumbra::error::MtkError;
use penumbra::storage::{parse_gpt, EmmcPartition, Partition, PartitionKind, StorageType, UfsPartition};

fn gpt_image(entries: &[(&str, u64, u64)]) -> Vec<u8> {
    // 512 bytes of protective MBR, one header sector, then the entry
    // table at LBA 2 with eight 128-byte slots.
    let mut data = vec![0u8; 512 * 2 + 8 * 128];
    data[512..520].copy_from_slice(b"EFI PART");
    data[512 + 72..512 + 80].copy_from_slice(&2u64.to_le_bytes());
    data[512 + 80..512 + 84].copy_from_slice(&8u32.to_le_bytes());
    data[512 + 84..512 + 88].copy_from_slice(&128u32.to_le_bytes());
    for (i, (name, first, last)) in entries.iter().enumerate() {
        let off = 1024 + i * 128;
        data[off] = 0x42; // non-zero type GUID marks the entry as used
        data[off + 32..off + 40].copy_from_slice(&first.to_le_bytes());
        data[off + 40..off + 48].copy_from_slice(&last.to_le_bytes());
        for (k, u) in name.encode_utf16().enumerate() {
            data[off + 56 + 2 * k..off + 58 + 2 * k].copy_from_slice(&u.to_le_bytes());
        }
    }
    data
}

#[test]
fn s6_gpt_boot_partition() {
    let data = gpt_image(&[("boot", 0x40, 0x4F)]);
    let parts = parse_gpt(&data, StorageType::Emmc).unwrap();
    assert_eq!(parts.len(), 1);
    assert_eq!(parts[0].name, "boot");
    assert_eq!(parts[0].address, 0x8000);
    assert_eq!(parts[0].size, 0x2000);
    assert!(matches!(parts[0].kind, PartitionKind::Emmc(EmmcPartition::User)));
}

#[test]
fn gpt_skips_empty_entries_and_keeps_order() {
    let data = gpt_image(&[("boot", 0x40, 0x4F), ("seccfg", 0x50, 0x53)]);
    let parts = parse_gpt(&data, StorageType::Emmc).unwrap();
    assert_eq!(parts.len(), 2);
    assert_eq!(parts[0].name, "boot");
    assert_eq!(parts[1].name, "seccfg");
    assert_eq!(parts[1].address, 0x50 * 512);
    assert_eq!(parts[1].size, 4 * 512);
}

#[test]
fn gpt_size_law_on_entries() {
    // size == (last - first + 1) * 512 for every non-empty entry.
    let data = gpt_image(&[("a", 7, 7), ("b", 10, 29)]);
    let parts = parse_gpt(&data, StorageType::Emmc).unwrap();
    assert_eq!(parts[0].size, 512);
    assert_eq!(parts[0].address, 7 * 512);
    assert_eq!(parts[1].size, 20 * 512);
}

#[test]
fn gpt_rejects_reversed_lba_range() {
    let data = gpt_image(&[("bad", 0x50, 0x4F)]);
    assert_eq!(parse_gpt(&data, StorageType::Emmc).unwrap_err(), MtkError::Parse);
}

#[test]
fn gpt_rejects_missing_magic() {
    let data = vec![0u8; 4096];
    assert_eq!(parse_gpt(&data, StorageType::Emmc).unwrap_err(), MtkError::Parse);
}

#[test]
fn gpt_rejects_odd_entry_size() {
    let mut data = gpt_image(&[("boot", 0x40, 0x4F)]);
    data[512 + 84..512 + 88].copy_from_slice(&96u32.to_le_bytes());
    assert_eq!(parse_gpt(&data, StorageType::Emmc).unwrap_err(), MtkError::Unsupported);
}

#[test]
fn gpt_magic_found_at_4096_still_uses_512() {
    // The magic may sit at a larger candidate sector size; the
    // working sector size stays 512, so the header is read from
    // offset 512 and rejected there if empty.
    let mut data = vec![0u8; 8192];
    data[4096..4104].copy_from_slice(b"EFI PART");
    // Header at 512 is all zero: entry size 0 != 128.
    assert_eq!(parse_gpt(&data, StorageType::Emmc).unwrap_err(), MtkError::Unsupported);
}

#[test]
fn gpt_ufs_kind_attribution() {
    let data = gpt_image(&[("boot", 0x40, 0x4F)]);
    let parts = parse_gpt(&data, StorageType::Ufs).unwrap();
    assert!(matches!(parts[0].kind, PartitionKind::Ufs(UfsPartition::Lu2)));
}

#[test]
fn storage_codes() {
    assert_eq!(StorageType::Unknown.code(), 0);
    assert_eq!(StorageType::Emmc.code(), 1);
    assert_eq!(StorageType::Ufs.code(), 0x30);
    assert_eq!(EmmcPartition::Boot1.code(), 1);
    assert_eq!(EmmcPartition::User.code(), 8);
    assert_eq!(EmmcPartition::Boot1Boot2.code(), 10);
    assert_eq!(UfsPartition::Lu0.code(), 0);
    assert_eq!(UfsPartition::Lu8.code(), 8);
}

#[test]
fn partition_new_fields() {
    let p = Partition::new("lk", 0x2000, 0x8000, PartitionKind::Unknown);
    assert_eq!(p.name, "lk");
    assert_eq!(p.size, 0x2000);
    assert_eq!(p.address, 0x8000);
    assert!(matches!(p.kind, PartitionKind::Unknown));
}
