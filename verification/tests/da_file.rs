use penumbra::da::{DAFile, DAType};
use penumbra::error::MtkError;

fn v5_da_file() -> Vec<u8> {
    // Header 0x6C bytes, one 0xDC-byte entry, then three 4-byte
    // regions at the end of the file.
    let entry_base = 0x6C;
    let data_base = entry_base + 0xDC;
    let mut f = vec![0u8; data_base + 12];
    f[0x68..0x6C].copy_from_slice(&1u32.to_le_bytes());
    f[entry_base..entry_base + 2].copy_from_slice(&0xDADAu16.to_le_bytes());
    f[entry_base + 2..entry_base + 4].copy_from_slice(&0x0673u16.to_le_bytes());
    f[entry_base + 4..entry_base + 6].copy_from_slice(&0x8A00u16.to_le_bytes());
    f[entry_base + 6..entry_base + 8].copy_from_slice(&0xCA00u16.to_le_bytes());
    f[entry_base + 0x12..entry_base + 0x14].copy_from_slice(&3u16.to_le_bytes());
    for k in 0..3usize {
        let rb = entry_base + 0x14 + 20 * k;
        let off = (data_base + 4 * k) as u32;
        f[rb..rb + 4].copy_from_slice(&off.to_le_bytes());
        f[rb + 4..rb + 8].copy_from_slice(&4u32.to_le_bytes());
        f[rb + 8..rb + 12].copy_from_slice(&(0x200000u32 + k as u32).to_le_bytes());
        f[rb + 16..rb + 20].copy_from_slice(&0u32.to_le_bytes());
    }
    for (i, b) in [0x10u8, 0x11, 0x12, 0x13, 0x20, 0x21, 0x22, 0x23, 0x30, 0x31, 0x32, 0x33]
        .iter()
        .enumerate()
    {
        f[data_base + i] = *b;
    }
    f
}

#[test]
fn parse_da_v5_entry() {
    let f = v5_da_file();
    let parsed = DAFile::parse_da(&f).unwrap();
    assert!(matches!(parsed.da_type, DAType::V5));
    assert_eq!(parsed.das.len(), 1);
    let da = &parsed.das[0];
    assert_eq!(da.magic, 0xDADA);
    assert_eq!(da.hw_code, 0x0673);
    assert_eq!(da.hw_sub_code, 0x8A00);
    assert_eq!(da.hw_version, 0xCA00);
    assert_eq!(da.regions.len(), 3);
    assert_eq!(da.regions[1].addr, 0x200001);
    assert_eq!(da.regions[1].data, vec![0x20, 0x21, 0x22, 0x23]);
    assert_eq!(da.regions[2].data, vec![0x30, 0x31, 0x32, 0x33]);
}

#[test]
fn da_lookup_by_hw_codes() {
    let f = v5_da_file();
    let parsed = DAFile::parse_da(&f).unwrap();
    assert!(parsed.get_da_from_hw_code(0x0673, 0x8A00).is_some());
    assert!(parsed.get_da_from_hw_code(0x0673, 0x0000).is_none());
    assert!(parsed.get_da_from_hw_code(0x0788, 0x8A00).is_none());
}

#[test]
fn da1_da2_are_second_and_third_regions() {
    let f = v5_da_file();
    let parsed = DAFile::parse_da(&f).unwrap();
    let da = parsed.get_da_from_hw_code(0x0673, 0x8A00).unwrap();
    let da1 = da.get_da1().unwrap();
    let da2 = da.get_da2().unwrap();
    assert_eq!(da1.addr, 0x200001);
    assert_eq!(da2.addr, 0x200002);
    assert_eq!(da1.data, vec![0x20, 0x21, 0x22, 0x23]);
}

#[test]
fn da_with_too_few_regions_has_no_stages() {
    let mut f = v5_da_file();
    let entry_base = 0x6C;
    f[entry_base + 0x12..entry_base + 0x14].copy_from_slice(&2u16.to_le_bytes());
    let parsed = DAFile::parse_da(&f).unwrap();
    let da = &parsed.das[0];
    assert!(da.get_da1().is_none());
    assert!(da.get_da2().is_none());
}

#[test]
fn legacy_prefix_detection() {
    let mut f = vec![0u8; 0x6C];
    f[0] = 0xDA;
    f[1] = 0xDA;
    f[0x68..0x6C].copy_from_slice(&0u32.to_le_bytes());
    let parsed = DAFile::parse_da(&f).unwrap();
    assert!(matches!(parsed.da_type, DAType::Legacy));
}

#[test]
fn v6_marker_detection() {
    let mut f = vec![0u8; 0x6C];
    f[0x20..0x29].copy_from_slice(b"MTK_DA_v6");
    f[0x68..0x6C].copy_from_slice(&0u32.to_le_bytes());
    let parsed = DAFile::parse_da(&f).unwrap();
    assert!(matches!(parsed.da_type, DAType::V6));
}

#[test]
fn parse_da_rejects_short_header() {
    assert_eq!(DAFile::parse_da(&[0u8; 0x20]), Err(MtkError::Parse));
}

#[test]
fn parse_da_rejects_region_out_of_bounds() {
    let mut f = v5_da_file();
    let rb = 0x6C + 0x14;
    f[rb + 4..rb + 8].copy_from_slice(&0xFFFFu32.to_le_bytes());
    assert_eq!(DAFile::parse_da(&f), Err(MtkError::Parse));
}
