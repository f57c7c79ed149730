use penumbra::connection::{Connection, ConnectionType};
use penumbra::crypto::{CryptoConfig, CryptoIO};
use penumbra::device::Device;
use penumbra::error::MtkError;
use penumbra::storage::StorageType;
use penumbra::wire::Channel;

fn init_incoming() -> Vec<u8> {
    let mut incoming = vec![0x5F, 0xF5, 0xAF, 0xFA]; // handshake
    incoming.push(0xE7); // GetSocId echo
    incoming.extend_from_slice(&4u32.to_be_bytes());
    incoming.extend_from_slice(&[0x11, 0x22, 0x33, 0x44]);
    incoming.extend_from_slice(&[0x00, 0x00]);
    incoming.push(0xE1); // GetMeId echo
    incoming.extend_from_slice(&2u32.to_be_bytes());
    incoming.extend_from_slice(&[0xAA, 0xBB]);
    incoming.extend_from_slice(&[0x00, 0x00]);
    incoming.push(0xFD); // GetHwCode echo
    incoming.extend_from_slice(&[0x73, 0x06, 0x00, 0x00]);
    incoming
}

#[test]
fn init_without_da_keeps_preloader_connection() {
    let conn = Connection::new(Channel::new(init_incoming()), ConnectionType::Brom);
    let dev = Device::init(conn, &[]).unwrap();
    assert!(dev.connected);
    assert!(dev.protocol.is_none());
    assert!(dev.connection.is_some());
    assert_eq!(dev.dev_info.hw_code, 0x0673);
    assert_eq!(dev.dev_info.soc_id, vec![0x11, 0x22, 0x33, 0x44]);
    assert_eq!(dev.dev_info.meid, vec![0xAA, 0xBB]);
    assert!(matches!(dev.dev_info.storage, StorageType::Unknown));
    assert!(dev.dev_info.partitions.is_empty());
    assert_eq!(dev.get_connection().unwrap().baudrate, 115_200);
}

#[test]
fn init_fails_without_matching_da_entry() {
    // A well-formed V5 DA file with no entry for hw_code 0x0673.
    let mut incoming = init_incoming();
    incoming.push(0xFC); // GetHwSwVer echo
    incoming.extend_from_slice(&[0x00, 0x8A, 0x00, 0x00, 0x00, 0x00, 0x00, 0x00]);
    let mut da_file = vec![0u8; 0x6C + 0xDC];
    da_file[0x68..0x6C].copy_from_slice(&1u32.to_le_bytes());
    da_file[0x6C + 2..0x6C + 4].copy_from_slice(&0x0788u16.to_le_bytes());
    let conn = Connection::new(Channel::new(incoming), ConnectionType::Brom);
    assert!(matches!(
        Device::init(conn, &da_file),
        Err(MtkError::NotFound)
    ));
}

#[test]
fn init_fails_on_malformed_da() {
    let conn = Connection::new(Channel::new(init_incoming()), ConnectionType::Brom);
    assert!(matches!(
        Device::init(conn, &[0xAA; 8]),
        Err(MtkError::Parse)
    ));
}

#[test]
fn read_partition_requires_protocol() {
    let conn = Connection::new(Channel::new(init_incoming()), ConnectionType::Brom);
    let mut dev = Device::init(conn, &[]).unwrap();
    assert!(dev.read_partition("boot").is_err());
    assert!(dev.write_partition("boot", &[1]).is_err());
    assert!(dev.set_seccfg_lock_state(penumbra::seccfg::LockFlag::Unlock).is_none());
    assert!(dev.get_protocol().is_none());
}

#[test]
fn crypto_config_carries_base() {
    let cfg = CryptoConfig::new(0x1000A000);
    assert_eq!(cfg.sej_base, 0x1000A000);

    struct FakeRegs {
        last: u32,
    }

    impl CryptoIO for FakeRegs {
        fn read32(&mut self, addr: u32) -> u32 {
            addr.wrapping_add(1)
        }

        fn write32(&mut self, _addr: u32, val: u32) {
            self.last = val;
        }
    }

    let mut regs = FakeRegs { last: 0 };
    assert_eq!(cfg.read32(&mut regs, 4), 5);
    cfg.write32(&mut regs, 4, 9);
    assert_eq!(regs.last, 9);
}
