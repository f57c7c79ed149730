use penumbra::connection::{Connection, ConnectionType};
use penumbra::da::{DA, DAEntryRegion, DAType};
use penumbra::error::MtkError;
use penumbra::flash::{read_flash, write_flash};
use penumbra::frame::encode_frame;
use penumbra::wire::Channel;
use penumbra::xflash::{Cmd, XFlash};

fn status_frame(v: u32) -> Vec<u8> {
    encode_frame(1, &v.to_le_bytes())
}

fn cmd_frame(c: Cmd) -> Vec<u8> {
    encode_frame(1, &c.code().to_le_bytes())
}

fn empty_da() -> DA {
    DA {
        da_type: DAType::V5,
        regions: Vec::new(),
        magic: 0,
        hw_code: 0,
        hw_sub_code: 0,
        hw_version: 0,
    }
}

fn xflash_with(incoming: Vec<u8>) -> XFlash {
    XFlash::new(
        Connection::new(Channel::new(incoming), ConnectionType::Preloader),
        empty_da(),
    )
}

fn region(addr: u32, data: &[u8]) -> DAEntryRegion {
    DAEntryRegion {
        data: data.to_vec(),
        offset: 0,
        length: data.len() as u32,
        addr,
        sig_len: 0,
    }
}

#[test]
fn cmd_codes() {
    assert_eq!(Cmd::SyncSignal.code(), 0x434E5953);
    assert_eq!(Cmd::BootTo.code(), 0x010008);
    assert_eq!(Cmd::ReadData.code(), 0x010005);
    assert_eq!(Cmd::WriteData.code(), 0x010004);
    assert_eq!(Cmd::DeviceCtrl.code(), 0x010009);
}

#[test]
fn get_status_reads_one_frame() {
    let mut xf = xflash_with(status_frame(0x1234));
    assert_eq!(xf.get_status(), Ok(0x1234));
    // The magic as a 4-byte payload counts as success.
    let mut xf = xflash_with(status_frame(0xFEEEEEFE));
    assert_eq!(xf.get_status(), Ok(0));
}

#[test]
fn send_data_frames_and_checks_status() {
    let mut xf = xflash_with(status_frame(0));
    let payload = [0xAAu8; 100];
    assert!(xf.send_data(&payload).is_ok());
    assert_eq!(xf.conn.channel.outgoing, encode_frame(1, &payload));

    let mut xf = xflash_with(status_frame(7));
    assert_eq!(xf.send_data(&payload), Err(MtkError::Protocol(7)));
}

#[test]
fn devctrl_reads_response_without_param() {
    let mut incoming = status_frame(0);
    incoming.extend_from_slice(&status_frame(0));
    incoming.extend_from_slice(&encode_frame(1, &[9, 8, 7]));
    let mut xf = xflash_with(incoming);
    assert_eq!(xf.devctrl(Cmd::GetUsbSpeed, None), Ok(vec![9, 8, 7]));
    let mut expected = cmd_frame(Cmd::DeviceCtrl);
    expected.extend_from_slice(&cmd_frame(Cmd::GetUsbSpeed));
    assert_eq!(xf.conn.channel.outgoing, expected);
}

#[test]
fn boot_to_emits_params_and_image() {
    let mut incoming = status_frame(0);
    incoming.extend_from_slice(&status_frame(0));
    incoming.extend_from_slice(&status_frame(Cmd::SyncSignal.code()));
    let mut xf = xflash_with(incoming);
    let image = [1u8, 2, 3, 4, 5];
    assert_eq!(xf.boot_to(0x40000000, &image), Ok(true));

    let mut expected = cmd_frame(Cmd::BootTo);
    let mut param = Vec::new();
    param.extend_from_slice(&0x40000000u32.to_le_bytes());
    param.extend_from_slice(&[0; 4]);
    param.extend_from_slice(&5u32.to_le_bytes());
    param.extend_from_slice(&[0; 4]);
    expected.extend_from_slice(&encode_frame(1, &param));
    expected.extend_from_slice(&encode_frame(1, &image));
    assert_eq!(xf.conn.channel.outgoing, expected);
}

#[test]
fn boot_to_tolerates_zero_second_status() {
    let mut incoming = status_frame(0);
    incoming.extend_from_slice(&status_frame(0));
    incoming.extend_from_slice(&status_frame(0));
    let mut xf = xflash_with(incoming);
    assert_eq!(xf.boot_to(0x40000000, &[1]), Ok(true));
}

#[test]
fn upload_stage1_bring_up() {
    let mut incoming = vec![0xD7];
    incoming.extend_from_slice(&[0x00, 0x20, 0x00, 0x00]); // BE addr echo
    incoming.extend_from_slice(&[0x00, 0x00, 0x00, 0x04]); // BE len echo
    incoming.extend_from_slice(&[0x00, 0x00, 0x00, 0x00]); // BE sig echo
    incoming.extend_from_slice(&[0x00, 0x00, 0xAB, 0xCD, 0x00, 0x00]);
    incoming.push(0xD5); // JumpDa echo
    incoming.extend_from_slice(&0x00200000u32.to_le_bytes());
    incoming.extend_from_slice(&[0x00, 0x00]); // LE status
    incoming.push(0xC0); // DA1 sync byte
    incoming.extend_from_slice(&status_frame(0)); // env params ack
    incoming.extend_from_slice(&status_frame(0)); // hw init ack
    incoming.extend_from_slice(&status_frame(Cmd::SyncSignal.code()));
    let mut xf = xflash_with(incoming);
    let da1 = [0xDEu8, 0xAD, 0xBE, 0xEF];
    assert_eq!(xf.upload_stage1(0x200000, 4, &da1, 0), Ok(true));

    let mut expected = vec![0xD7];
    expected.extend_from_slice(&[0x00, 0x20, 0x00, 0x00]);
    expected.extend_from_slice(&[0x00, 0x00, 0x00, 0x04]);
    expected.extend_from_slice(&[0x00, 0x00, 0x00, 0x00]);
    expected.extend_from_slice(&da1);
    expected.push(0xD5);
    expected.extend_from_slice(&0x00200000u32.to_le_bytes());
    expected.extend_from_slice(&cmd_frame(Cmd::SyncSignal));
    expected.extend_from_slice(&cmd_frame(Cmd::SetupEnvironment));
    let mut env = Vec::new();
    for v in [2u32, 1, 1, 0, 0] {
        env.extend_from_slice(&v.to_le_bytes());
    }
    expected.extend_from_slice(&encode_frame(1, &env));
    expected.extend_from_slice(&cmd_frame(Cmd::SetupHwInitParams));
    expected.extend_from_slice(&encode_frame(1, &[0, 0, 0, 0]));
    assert_eq!(xf.conn.channel.outgoing, expected);
}

#[test]
fn upload_stage1_wrong_sync_byte() {
    let mut incoming = vec![0xD7];
    incoming.extend_from_slice(&[0x00, 0x20, 0x00, 0x00]);
    incoming.extend_from_slice(&[0x00, 0x00, 0x00, 0x04]);
    incoming.extend_from_slice(&[0x00, 0x00, 0x00, 0x00]);
    incoming.extend_from_slice(&[0x00, 0x00, 0xAB, 0xCD, 0x00, 0x00]);
    incoming.push(0xD5);
    incoming.extend_from_slice(&0x00200000u32.to_le_bytes());
    incoming.extend_from_slice(&[0x00, 0x00]);
    incoming.push(0x99); // not the sync byte
    let mut xf = xflash_with(incoming);
    assert_eq!(
        xf.upload_stage1(0x200000, 4, &[0xDE, 0xAD, 0xBE, 0xEF], 0),
        Err(MtkError::Framing)
    );
}

#[test]
fn upload_stage1_missing_sync_byte_times_out() {
    let mut incoming = vec![0xD7];
    incoming.extend_from_slice(&[0x00, 0x20, 0x00, 0x00]);
    incoming.extend_from_slice(&[0x00, 0x00, 0x00, 0x04]);
    incoming.extend_from_slice(&[0x00, 0x00, 0x00, 0x00]);
    incoming.extend_from_slice(&[0x00, 0x00, 0xAB, 0xCD, 0x00, 0x00]);
    incoming.push(0xD5);
    incoming.extend_from_slice(&0x00200000u32.to_le_bytes());
    incoming.extend_from_slice(&[0x00, 0x00]);
    let mut xf = xflash_with(incoming);
    assert_eq!(
        xf.upload_stage1(0x200000, 4, &[0xDE, 0xAD, 0xBE, 0xEF], 0),
        Err(MtkError::TimedOut)
    );
}

#[test]
fn upload_da_needs_three_regions() {
    let mut xf = xflash_with(Vec::new());
    assert_eq!(xf.upload_da(), Err(MtkError::NotFound));
}

#[test]
fn s4_read_flash_params_and_ack() {
    // addr=0, size=0x44, eMMC USER.
    let chunk = [0x5Au8; 0x44];
    let mut incoming = status_frame(0); // ReadData ack
    incoming.extend_from_slice(&status_frame(0)); // params ack
    incoming.extend_from_slice(&encode_frame(1, &chunk));
    incoming.extend_from_slice(&status_frame(0)); // after-chunk status
    let mut xf = xflash_with(incoming);
    let buf = read_flash(&mut xf, 0, 0x44).unwrap();
    assert_eq!(buf, chunk.to_vec());

    let mut params = Vec::new();
    params.extend_from_slice(&[0x01, 0x00, 0x00, 0x00]); // storage: eMMC
    params.extend_from_slice(&[0x08, 0x00, 0x00, 0x00]); // partition: USER
    params.extend_from_slice(&0u64.to_le_bytes());
    params.extend_from_slice(&0x44u64.to_le_bytes());
    params.extend_from_slice(&[0u8; 32]);
    let mut expected = cmd_frame(Cmd::ReadData);
    expected.extend_from_slice(&encode_frame(1, &params));
    // The per-chunk acknowledgement frame.
    expected.extend_from_slice(&[
        0xFE, 0xEE, 0xEE, 0xFE, 0x01, 0x00, 0x00, 0x00, 0x04, 0x00, 0x00, 0x00, 0x00, 0x00,
        0x00, 0x00,
    ]);
    assert_eq!(xf.conn.channel.outgoing, expected);
}

#[test]
fn read_flash_collects_chunks_until_empty() {
    let mut incoming = status_frame(0);
    incoming.extend_from_slice(&status_frame(0));
    incoming.extend_from_slice(&encode_frame(1, &[1, 2]));
    incoming.extend_from_slice(&status_frame(0));
    incoming.extend_from_slice(&encode_frame(1, &[3, 4]));
    incoming.extend_from_slice(&status_frame(0));
    incoming.extend_from_slice(&encode_frame(1, &[]));
    let mut xf = xflash_with(incoming);
    assert_eq!(read_flash(&mut xf, 0, 100), Ok(vec![1, 2, 3, 4]));
}

#[test]
fn write_flash_sends_checksummed_chunks() {
    let data = [1u8, 2, 3, 4];
    let mut incoming = status_frame(0); // WriteData ack
    incoming.extend_from_slice(&status_frame(0)); // params ack
    incoming.extend_from_slice(&status_frame(0)); // chunk ack
    incoming.extend_from_slice(&status_frame(0)); // final status
    let mut xf = xflash_with(incoming);
    assert!(write_flash(&mut xf, 0x1000, 4, &data).is_ok());

    let mut params = Vec::new();
    params.extend_from_slice(&[0x01, 0x00, 0x00, 0x00]);
    params.extend_from_slice(&[0x08, 0x00, 0x00, 0x00]);
    params.extend_from_slice(&0x1000u64.to_le_bytes());
    params.extend_from_slice(&4u64.to_le_bytes());
    params.extend_from_slice(&[0u8; 32]);
    let mut expected = cmd_frame(Cmd::WriteData);
    expected.extend_from_slice(&encode_frame(1, &params));
    expected.extend_from_slice(&status_frame(0)); // the zero word
    expected.extend_from_slice(&encode_frame(1, &10u32.to_le_bytes())); // checksum 1+2+3+4
    expected.extend_from_slice(&encode_frame(1, &data));
    assert_eq!(xf.conn.channel.outgoing, expected);
}

#[test]
fn write_flash_pads_short_payload() {
    let mut incoming = status_frame(0);
    incoming.extend_from_slice(&status_frame(0));
    incoming.extend_from_slice(&status_frame(0));
    incoming.extend_from_slice(&status_frame(0));
    let mut xf = xflash_with(incoming);
    assert!(write_flash(&mut xf, 0, 6, &[5, 5]).is_ok());
    let out = xf.conn.channel.outgoing.clone();
    // The framed chunk at the tail carries the padded payload.
    assert_eq!(&out[out.len() - 6..], &[5, 5, 0, 0, 0, 0]);
}

#[test]
fn read32_without_extensions_fails() {
    let mut incoming = status_frame(0);
    incoming.extend_from_slice(&status_frame(0));
    incoming.extend_from_slice(&status_frame(0));
    let mut xf = xflash_with(incoming);
    assert!(xf.read32(0x1000A000).is_err());
}

#[test]
fn write32_through_devctrl() {
    let mut incoming = status_frame(0);
    incoming.extend_from_slice(&status_frame(0));
    incoming.extend_from_slice(&status_frame(0));
    let mut xf = xflash_with(incoming);
    assert!(xf.write32(0x1000A000, 0x1234).is_ok());
    let mut expected = cmd_frame(Cmd::DeviceCtrl);
    expected.extend_from_slice(&cmd_frame(Cmd::SetRegisterValue));
    let mut param = Vec::new();
    param.extend_from_slice(&0x1000A000u32.to_le_bytes());
    param.extend_from_slice(&0x1234u32.to_le_bytes());
    expected.extend_from_slice(&encode_frame(1, &param));
    assert_eq!(xf.conn.channel.outgoing, expected);
}

#[test]
fn read32_through_extensions() {
    let mut incoming = status_frame(0);
    incoming.extend_from_slice(&status_frame(0));
    incoming.extend_from_slice(&encode_frame(1, &0xCAFEBABEu32.to_le_bytes()));
    incoming.extend_from_slice(&status_frame(0));
    let mut xf = XFlash {
        conn: Connection::new(Channel::new(incoming), ConnectionType::Da),
        da: empty_da(),
        using_exts: true,
    };
    assert_eq!(xf.read32(0x1000A000), Ok(0xCAFEBABE));
    let mut expected = cmd_frame(Cmd::DeviceCtrl);
    expected.extend_from_slice(&cmd_frame(Cmd::ExtReadRegister));
    expected.extend_from_slice(&encode_frame(1, &0x1000A000u32.to_le_bytes()));
    assert_eq!(xf.conn.channel.outgoing, expected);
}

#[test]
fn write32_through_extensions() {
    let mut incoming = status_frame(0);
    incoming.extend_from_slice(&status_frame(0));
    incoming.extend_from_slice(&status_frame(0));
    let mut xf = XFlash {
        conn: Connection::new(Channel::new(incoming), ConnectionType::Da),
        da: empty_da(),
        using_exts: true,
    };
    assert!(xf.write32(0x1000A000, 7).is_ok());
    let mut expected = cmd_frame(Cmd::DeviceCtrl);
    expected.extend_from_slice(&cmd_frame(Cmd::ExtWriteRegister));
    expected.extend_from_slice(&encode_frame(1, &0x1000A000u32.to_le_bytes()));
    expected.extend_from_slice(&encode_frame(1, &7u32.to_le_bytes()));
    assert_eq!(xf.conn.channel.outgoing, expected);
}

#[test]
fn boot_extensions_acks_and_latches() {
    // DA2 carrying the register_devctrl signature at offset 2.
    let mut da2_bytes = vec![0u8, 0];
    da2_bytes.extend_from_slice(&[0x38, 0xB5, 0x05, 0x46, 0x0C, 0x20]);
    let da = DA {
        da_type: DAType::V5,
        regions: vec![
            region(0, &[0]),
            region(0x200000, &[0]),
            region(0x40000000, &da2_bytes),
        ],
        magic: 0,
        hw_code: 0,
        hw_sub_code: 0,
        hw_version: 0,
    };
    // Payload with the two mandatory sentinels.
    let mut blob = vec![0u8; 4];
    blob.extend_from_slice(&[0x11; 4]);
    blob.extend_from_slice(&[0x22; 4]);
    let mut incoming = status_frame(0); // BootTo ack
    incoming.extend_from_slice(&status_frame(0)); // post-image status
    incoming.extend_from_slice(&status_frame(Cmd::SyncSignal.code()));
    incoming.extend_from_slice(&status_frame(0)); // DeviceCtrl ack
    incoming.extend_from_slice(&status_frame(0)); // ExtAck ack
    incoming.extend_from_slice(&encode_frame(1, &[0xA4, 0xA3, 0xA2, 0xA1]));
    incoming.extend_from_slice(&status_frame(0));
    let mut xf = XFlash::new(
        Connection::new(Channel::new(incoming), ConnectionType::Da),
        da,
    );
    assert_eq!(xf.boot_extensions(&blob), Ok(true));
    assert!(xf.using_exts);
}
