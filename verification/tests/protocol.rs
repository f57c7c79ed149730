use penumbra::command::Command;
use penumbra::connection::{connection_type_of_vid_pid, is_mtk_vid_pid, Connection, ConnectionType};
use penumbra::error::MtkError;
use penumbra::wire::Channel;

fn conn_with(incoming: Vec<u8>) -> Connection {
    Connection::new(Channel::new(incoming), ConnectionType::Brom)
}

#[test]
fn s1_handshake_clean() {
    let mut conn = conn_with(vec![0x5F, 0xF5, 0xAF, 0xFA]);
    assert!(conn.handshake().is_ok());
    assert_eq!(conn.channel.outgoing, vec![0xA0, 0x0A, 0x50, 0x05]);
    assert_eq!(conn.channel.pos, 4);
    assert!(matches!(conn.connection_type, ConnectionType::Preloader));
}

#[test]
fn handshake_retries_first_byte() {
    // Garbage before the 0x5F: the host keeps sending 0xA0.
    let mut conn = conn_with(vec![0x00, 0x11, 0x5F, 0xF5, 0xAF, 0xFA]);
    assert!(conn.handshake().is_ok());
    assert_eq!(conn.channel.outgoing, vec![0xA0, 0xA0, 0xA0, 0x0A, 0x50, 0x05]);
    assert!(matches!(conn.connection_type, ConnectionType::Preloader));
}

#[test]
fn handshake_retries_later_stage() {
    // A mismatch mid-way restarts that stage's byte, not the whole
    // handshake.
    let mut conn = conn_with(vec![0x5F, 0x00, 0xF5, 0xAF, 0xFA]);
    assert!(conn.handshake().is_ok());
    assert_eq!(conn.channel.outgoing, vec![0xA0, 0x0A, 0x0A, 0x50, 0x05]);
}

#[test]
fn handshake_exhausted_is_io() {
    let mut conn = conn_with(vec![0x5F, 0xF5]);
    assert_eq!(conn.handshake(), Err(MtkError::Io));
}

#[test]
fn s2_get_hw_code() {
    let mut conn = conn_with(vec![0xFD, 0x73, 0x06, 0x00, 0x00]);
    assert_eq!(conn.get_hw_code(), Ok(0x0673));
    assert_eq!(conn.channel.outgoing, vec![0xFD]);
}

#[test]
fn get_hw_code_bad_echo() {
    let mut conn = conn_with(vec![0xFC, 0x73, 0x06, 0x00, 0x00]);
    assert_eq!(conn.get_hw_code(), Err(MtkError::Framing));
}

#[test]
fn get_hw_code_bad_status() {
    let mut conn = conn_with(vec![0xFD, 0x73, 0x06, 0x01, 0x10]);
    assert_eq!(conn.get_hw_code(), Err(MtkError::Protocol(0x1001)));
}

#[test]
fn s3_send_da_framing() {
    // addr=0x200000, da_len=4, sig_len=0, data=DE AD BE EF.
    let mut incoming = vec![0xD7];
    incoming.extend_from_slice(&[0x00, 0x20, 0x00, 0x00]); // BE addr echo
    incoming.extend_from_slice(&[0x00, 0x00, 0x00, 0x04]); // BE len echo
    incoming.extend_from_slice(&[0x00, 0x00, 0x00, 0x00]); // BE sig echo
    incoming.extend_from_slice(&[0x00, 0x00]); // BE status
    incoming.extend_from_slice(&[0xAB, 0xCD]); // device checksum (any)
    incoming.extend_from_slice(&[0x00, 0x00]); // BE final status
    let mut conn = conn_with(incoming);
    let data = [0xDE, 0xAD, 0xBE, 0xEF];
    assert!(conn.send_da(&data, 4, 0x200000, 0).is_ok());
    let mut expected_tx = vec![0xD7];
    expected_tx.extend_from_slice(&[0x00, 0x20, 0x00, 0x00]);
    expected_tx.extend_from_slice(&[0x00, 0x00, 0x00, 0x04]);
    expected_tx.extend_from_slice(&[0x00, 0x00, 0x00, 0x00]);
    expected_tx.extend_from_slice(&data);
    assert_eq!(conn.channel.outgoing, expected_tx);
    assert_eq!(conn.channel.pos, 19);
}

#[test]
fn send_da_nonzero_status_is_protocol() {
    let mut incoming = vec![0xD7];
    incoming.extend_from_slice(&[0x00, 0x20, 0x00, 0x00]);
    incoming.extend_from_slice(&[0x00, 0x00, 0x00, 0x04]);
    incoming.extend_from_slice(&[0x00, 0x00, 0x00, 0x00]);
    incoming.extend_from_slice(&[0x10, 0x01]); // BE status 0x1001
    let mut conn = conn_with(incoming);
    assert_eq!(
        conn.send_da(&[0xDE, 0xAD, 0xBE, 0xEF], 4, 0x200000, 0),
        Err(MtkError::Protocol(0x1001))
    );
}

#[test]
fn jump_da_exchange() {
    let mut incoming = vec![0xD5];
    incoming.extend_from_slice(&0x00200000u32.to_le_bytes());
    incoming.extend_from_slice(&[0x00, 0x00]); // LE status
    let mut conn = conn_with(incoming);
    assert!(conn.jump_da(0x200000).is_ok());
    let mut expected_tx = vec![0xD5];
    expected_tx.extend_from_slice(&0x00200000u32.to_le_bytes());
    assert_eq!(conn.channel.outgoing, expected_tx);
}

#[test]
fn get_hw_sw_ver_exchange() {
    let mut incoming = vec![0xFC];
    incoming.extend_from_slice(&[0x00, 0x8A]); // hw_sub_code LE
    incoming.extend_from_slice(&[0xA0, 0xCA]); // hw_ver LE
    incoming.extend_from_slice(&[0x01, 0x00]); // sw_ver LE
    incoming.extend_from_slice(&[0x00, 0x00]); // status
    let mut conn = conn_with(incoming);
    assert_eq!(conn.get_hw_sw_ver(), Ok((0x8A00, 0xCAA0, 0x0001)));
}

#[test]
fn get_soc_id_exchange() {
    let mut incoming = vec![0xE7];
    incoming.extend_from_slice(&4u32.to_be_bytes()); // BE length
    incoming.extend_from_slice(&[0x11, 0x22, 0x33, 0x44]);
    incoming.extend_from_slice(&[0x00, 0x00]); // LE status
    let mut conn = conn_with(incoming);
    assert_eq!(conn.get_soc_id(), Ok(vec![0x11, 0x22, 0x33, 0x44]));
    assert_eq!(conn.channel.outgoing, vec![0xE7]);
}

#[test]
fn get_meid_exchange() {
    let mut incoming = vec![0xE1];
    incoming.extend_from_slice(&2u32.to_be_bytes());
    incoming.extend_from_slice(&[0xAA, 0xBB]);
    incoming.extend_from_slice(&[0x00, 0x00]);
    let mut conn = conn_with(incoming);
    assert_eq!(conn.get_meid(), Ok(vec![0xAA, 0xBB]));
}

#[test]
fn echo_mismatch_is_framing() {
    let mut conn = conn_with(vec![0x01, 0x02]);
    assert_eq!(conn.echo(&[0x01, 0x03], 2), Err(MtkError::Framing));
}

#[test]
fn baudrates_follow_connection_type() {
    assert_eq!(ConnectionType::Brom.baudrate(), 115_200);
    assert_eq!(ConnectionType::Preloader.baudrate(), 921_600);
    assert_eq!(ConnectionType::Da.baudrate(), 921_600);
}

#[test]
fn mtk_vid_pid_filter() {
    assert!(is_mtk_vid_pid(0x0E8D, 0x0003));
    assert!(is_mtk_vid_pid(0x0E8D, 0x2000));
    assert!(is_mtk_vid_pid(0x0E8D, 0x2001));
    assert!(!is_mtk_vid_pid(0x0E8D, 0x2002));
    assert!(!is_mtk_vid_pid(0x1234, 0x0003));
    assert!(matches!(
        connection_type_of_vid_pid(0x0E8D, 0x0003),
        Some(ConnectionType::Brom)
    ));
    assert!(matches!(
        connection_type_of_vid_pid(0x0E8D, 0x2000),
        Some(ConnectionType::Preloader)
    ));
    assert!(matches!(
        connection_type_of_vid_pid(0x0E8D, 0x2001),
        Some(ConnectionType::Da)
    ));
    assert!(connection_type_of_vid_pid(0x0E8D, 0x1234).is_none());
}

#[test]
fn command_opcodes() {
    assert_eq!(Command::GetHwCode.code(), 0xFD);
    assert_eq!(Command::GetHwSwVer.code(), 0xFC);
    assert_eq!(Command::JumpDa.code(), 0xD5);
    assert_eq!(Command::SendDa.code(), 0xD7);
    assert_eq!(Command::GetSocId.code(), 0xE7);
    assert_eq!(Command::GetMeId.code(), 0xE1);
}
