use penumbra::connection::{Connection, ConnectionType};
use penumbra::device::Device;
use penumbra::frame::encode_frame;
use penumbra::seccfg::{LockFlag, SecCfgV4};
use penumbra::storage::StorageType;
use penumbra::wire::Channel;
use penumbra::xflash::Cmd;

fn status_frame(v: u32) -> Vec<u8> {
    encode_frame(1, &v.to_le_bytes())
}

/// A V5 DA file with one entry for hw_code 0x0673 / sub 0x8A00 and
/// three 4-byte regions.
fn da_file_bytes() -> Vec<u8> {
    let entry_base = 0x6C;
    let data_base = entry_base + 0xDC;
    let mut f = vec![0u8; data_base + 12];
    f[0x68..0x6C].copy_from_slice(&1u32.to_le_bytes());
    f[entry_base..entry_base + 2].copy_from_slice(&0xDADAu16.to_le_bytes());
    f[entry_base + 2..entry_base + 4].copy_from_slice(&0x0673u16.to_le_bytes());
    f[entry_base + 4..entry_base + 6].copy_from_slice(&0x8A00u16.to_le_bytes());
    f[entry_base + 0x12..entry_base + 0x14].copy_from_slice(&3u16.to_le_bytes());
    let addrs = [0u32, 0x200000, 0x40000000];
    for k in 0..3usize {
        let rb = entry_base + 0x14 + 20 * k;
        f[rb..rb + 4].copy_from_slice(&((data_base + 4 * k) as u32).to_le_bytes());
        f[rb + 4..rb + 8].copy_from_slice(&4u32.to_le_bytes());
        f[rb + 8..rb + 12].copy_from_slice(&addrs[k].to_le_bytes());
    }
    f
}

/// The GPT read back in DA mode: one "seccfg" partition, 512 bytes at
/// byte address 0x2000.
fn gpt_bytes() -> Vec<u8> {
    let mut data = vec![0u8; 512 * 2 + 8 * 128];
    data[512..520].copy_from_slice(b"EFI PART");
    data[512 + 72..512 + 80].copy_from_slice(&2u64.to_le_bytes());
    data[512 + 80..512 + 84].copy_from_slice(&8u32.to_le_bytes());
    data[512 + 84..512 + 88].copy_from_slice(&128u32.to_le_bytes());
    let off = 1024;
    data[off] = 0x42;
    data[off + 32..off + 40].copy_from_slice(&0x10u64.to_le_bytes());
    data[off + 40..off + 48].copy_from_slice(&0x10u64.to_le_bytes());
    for (k, u) in "seccfg".encode_utf16().enumerate() {
        data[off + 56 + 2 * k..off + 58 + 2 * k].copy_from_slice(&u.to_le_bytes());
    }
    data
}

fn stage1_reply(addr: u32, len: u32) -> Vec<u8> {
    let mut incoming = vec![0xD7];
    incoming.extend_from_slice(&addr.to_be_bytes());
    incoming.extend_from_slice(&len.to_be_bytes());
    incoming.extend_from_slice(&0u32.to_be_bytes());
    incoming.extend_from_slice(&[0x00, 0x00, 0x12, 0x34, 0x00, 0x00]);
    incoming.push(0xD5);
    incoming.extend_from_slice(&addr.to_le_bytes());
    incoming.extend_from_slice(&[0x00, 0x00]);
    incoming.push(0xC0);
    incoming.extend_from_slice(&status_frame(0));
    incoming.extend_from_slice(&status_frame(0));
    incoming.extend_from_slice(&status_frame(Cmd::SyncSignal.code()));
    incoming
}

#[test]
fn full_session_to_lock_state_update() {
    let old_seccfg = SecCfgV4::new().create(LockFlag::Unlock).unwrap();

    let mut incoming = vec![0x5F, 0xF5, 0xAF, 0xFA]; // handshake
    incoming.push(0xE7); // GetSocId
    incoming.extend_from_slice(&4u32.to_be_bytes());
    incoming.extend_from_slice(&[0x11, 0x22, 0x33, 0x44]);
    incoming.extend_from_slice(&[0x00, 0x00]);
    incoming.push(0xE1); // GetMeId
    incoming.extend_from_slice(&2u32.to_be_bytes());
    incoming.extend_from_slice(&[0xAA, 0xBB]);
    incoming.extend_from_slice(&[0x00, 0x00]);
    incoming.push(0xFD); // GetHwCode
    incoming.extend_from_slice(&[0x73, 0x06, 0x00, 0x00]);
    incoming.push(0xFC); // GetHwSwVer
    incoming.extend_from_slice(&[0x00, 0x8A, 0x00, 0x00, 0x00, 0x00, 0x00, 0x00]);

    // enter_da_mode: DA1 bring-up, DA2 boot, GPT read.
    incoming.extend_from_slice(&stage1_reply(0x200000, 4));
    incoming.extend_from_slice(&status_frame(0)); // BootTo ack
    incoming.extend_from_slice(&status_frame(0)); // post-image status
    incoming.extend_from_slice(&status_frame(Cmd::SyncSignal.code()));
    incoming.extend_from_slice(&status_frame(0)); // ReadData ack
    incoming.extend_from_slice(&status_frame(0)); // params ack
    incoming.extend_from_slice(&encode_frame(1, &gpt_bytes()));
    incoming.extend_from_slice(&status_frame(0)); // after-chunk status
    incoming.extend_from_slice(&encode_frame(1, &[])); // end of data

    // set_seccfg_lock_state: read the partition, write it back.
    incoming.extend_from_slice(&status_frame(0)); // ReadData ack
    incoming.extend_from_slice(&status_frame(0)); // params ack
    incoming.extend_from_slice(&encode_frame(1, &old_seccfg));
    incoming.extend_from_slice(&status_frame(0)); // after-chunk status
    incoming.extend_from_slice(&status_frame(0)); // WriteData ack
    incoming.extend_from_slice(&status_frame(0)); // params ack
    incoming.extend_from_slice(&status_frame(0)); // chunk status
    incoming.extend_from_slice(&status_frame(0)); // final status

    let conn = Connection::new(Channel::new(incoming), ConnectionType::Brom);
    let mut dev = Device::init(conn, &da_file_bytes()).unwrap();
    assert!(dev.protocol.is_some());
    assert_eq!(dev.dev_info.hw_code, 0x0673);

    dev.enter_da_mode().unwrap();
    assert!(matches!(dev.dev_info.storage, StorageType::Emmc));
    assert_eq!(dev.dev_info.partitions.len(), 1);
    assert_eq!(dev.dev_info.partitions[0].name, "seccfg");
    assert_eq!(dev.dev_info.partitions[0].address, 0x2000);
    assert_eq!(dev.dev_info.partitions[0].size, 512);

    let written = dev.set_seccfg_lock_state(LockFlag::Lock).unwrap();
    assert_eq!(written.len(), 512);
    let parsed = SecCfgV4::parse(&written).unwrap();
    assert_eq!(parsed.lock_state, 1);
    assert_eq!(parsed.critical_lock_state, 1);
}

#[test]
fn read_partition_enters_da_mode_on_demand() {
    // Same bring-up as the full session, but read_partition is called
    // straight from the preloader state and must run the DA bring-up
    // itself before resolving the name.
    let payload = [0x5Au8; 512];

    let mut incoming = vec![0x5F, 0xF5, 0xAF, 0xFA];
    incoming.push(0xE7);
    incoming.extend_from_slice(&4u32.to_be_bytes());
    incoming.extend_from_slice(&[0x11, 0x22, 0x33, 0x44]);
    incoming.extend_from_slice(&[0x00, 0x00]);
    incoming.push(0xE1);
    incoming.extend_from_slice(&2u32.to_be_bytes());
    incoming.extend_from_slice(&[0xAA, 0xBB]);
    incoming.extend_from_slice(&[0x00, 0x00]);
    incoming.push(0xFD);
    incoming.extend_from_slice(&[0x73, 0x06, 0x00, 0x00]);
    incoming.push(0xFC);
    incoming.extend_from_slice(&[0x00, 0x8A, 0x00, 0x00, 0x00, 0x00, 0x00, 0x00]);
    incoming.extend_from_slice(&stage1_reply(0x200000, 4));
    incoming.extend_from_slice(&status_frame(0));
    incoming.extend_from_slice(&status_frame(0));
    incoming.extend_from_slice(&status_frame(Cmd::SyncSignal.code()));
    incoming.extend_from_slice(&status_frame(0));
    incoming.extend_from_slice(&status_frame(0));
    incoming.extend_from_slice(&encode_frame(1, &gpt_bytes()));
    incoming.extend_from_slice(&status_frame(0));
    incoming.extend_from_slice(&encode_frame(1, &[]));
    // The read of the partition itself.
    incoming.extend_from_slice(&status_frame(0));
    incoming.extend_from_slice(&status_frame(0));
    incoming.extend_from_slice(&encode_frame(1, &payload));
    incoming.extend_from_slice(&status_frame(0));

    let conn = Connection::new(Channel::new(incoming), ConnectionType::Brom);
    let mut dev = Device::init(conn, &da_file_bytes()).unwrap();
    let read = dev.read_partition("seccfg").unwrap();
    assert_eq!(read, payload.to_vec());
    assert!(matches!(dev.dev_info.storage, StorageType::Emmc));
    assert!(dev.read_partition("missing").is_err());
}
