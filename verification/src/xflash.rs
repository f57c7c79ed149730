//! XFlash (DA v5) protocol driver.
//!
//! After DA1 is running, all traffic is framed (see [`crate::frame`]).
//! The driver sends command words as 4-byte protocol-flow frames,
//! reads status frames back, and runs the DA1 bring-up and DA2 boot
//! sequences.  Register access routes through the device-control
//! command, or through the DA extension commands once the extension
//! payload has been booted.

use vstd::prelude::*;
use vstd::bytes::*;

use crate::bigend::spec_u16_from_be_bytes;
use crate::bigend::spec_u32_to_be_bytes;
use crate::command::Command;
use crate::connection::Connection;
use crate::connection::ConnectionType;
use crate::da::DA;
use crate::error::MtkError;
use crate::frame::{
    encode_frame_header, read_frame, spec_frame, spec_frame_at, spec_frame_header,
    spec_status_of, status_of, DT_PROTOCOL_FLOW, FRAME_MAGIC,
};
use crate::wire::Channel;
use vstd::slice::slice_to_vec;

verus! {

/// Command words of the XFlash protocol, sent as 4-byte little-endian
/// protocol-flow frames.
#[derive(Debug, Clone, Copy, PartialEq, Eq, Structural)]
pub enum Cmd {
    SyncSignal,
    WriteData,
    ReadData,
    BootTo,
    DeviceCtrl,
    SetupEnvironment,
    SetupHwInitParams,
    SetRegisterValue,
    GetUsbSpeed,
    DeviceCtrlReadRegister,
    ExtAck,
    ExtReadRegister,
    ExtWriteRegister,
}

impl Cmd {
    /// The 32-bit command word.
    pub open spec fn spec_code(self) -> u32 {
        match self {
            Cmd::SyncSignal => 0x434E5953,
            Cmd::WriteData => 0x010004,
            Cmd::ReadData => 0x010005,
            Cmd::BootTo => 0x010008,
            Cmd::DeviceCtrl => 0x010009,
            Cmd::SetupEnvironment => 0x010100,
            Cmd::SetupHwInitParams => 0x010101,
            Cmd::SetRegisterValue => 0x020009,
            Cmd::GetUsbSpeed => 0x04000B,
            Cmd::DeviceCtrlReadRegister => 0x040013,
            Cmd::ExtAck => 0x0F0000,
            Cmd::ExtReadRegister => 0x0F0002,
            Cmd::ExtWriteRegister => 0x0F0004,
        }
    }

    /// The 32-bit command word.
    pub fn code(self) -> (r: u32)
        ensures
            r == self.spec_code(),
    {
        match self {
            Cmd::SyncSignal => 0x434E5953,
            Cmd::WriteData => 0x010004,
            Cmd::ReadData => 0x010005,
            Cmd::BootTo => 0x010008,
            Cmd::DeviceCtrl => 0x010009,
            Cmd::SetupEnvironment => 0x010100,
            Cmd::SetupHwInitParams => 0x010101,
            Cmd::SetRegisterValue => 0x020009,
            Cmd::GetUsbSpeed => 0x04000B,
            Cmd::DeviceCtrlReadRegister => 0x040013,
            Cmd::ExtAck => 0x0F0000,
            Cmd::ExtReadRegister => 0x0F0002,
            Cmd::ExtWriteRegister => 0x0F0004,
        }
    }
}

/// The frame a 32-bit value is sent as: a 4-byte payload under the
/// given data type.
pub open spec fn spec_send_bytes(val: u32, dtype: u32) -> Seq<u8> {
    spec_frame(dtype, spec_u32_to_le_bytes(val))
}

/// The next status on the incoming stream: the status word of the
/// next frame and the cursor past it.
pub open spec fn spec_status_at(s: Seq<u8>, pos: int) -> Option<(u32, int)> {
    match spec_frame_at(s, pos) {
        Some((dtype, payload, new_pos)) => Some((spec_status_of(payload), new_pos)),
        None => None,
    }
}

/// Cursor past the device-control preamble: two zero statuses, one
/// acknowledging `DeviceCtrl`, one the sub-command.
pub open spec fn spec_devctrl_ack(s: Seq<u8>, pos: int) -> Option<int> {
    match spec_status_at(s, pos) {
        Some((st1, p1)) => if st1 == 0 {
            match spec_status_at(s, p1) {
                Some((st2, p2)) => if st2 == 0 {
                    Some(p2)
                } else {
                    None
                },
                None => None,
            }
        } else {
            None
        },
        None => None,
    }
}

/// The 16-byte `BootTo` parameter block: address and length as
/// little-endian u32s, each followed by four bytes of padding.
pub open spec fn spec_boot_param(addr: u32, len: u32) -> Seq<u8> {
    spec_u32_to_le_bytes(addr) + seq![0u8, 0u8, 0u8, 0u8] + spec_u32_to_le_bytes(len) + seq![
        0u8,
        0u8,
        0u8,
        0u8,
    ]
}

/// Everything `BootTo` writes: the command frame, the parameter
/// frame, and the image under its own header.
pub open spec fn spec_boot_to_tx(addr: u32, data: Seq<u8>) -> Seq<u8> {
    spec_send_bytes(Cmd::BootTo.spec_code(), 1) + spec_frame(
        1,
        spec_boot_param(addr, data.len() as u32),
    ) + spec_frame_header(FRAME_MAGIC, 1, data.len() as u32) + data
}

/// Cursor past a successful `BootTo` reply: a zero status before the
/// parameters, a zero status after the image, then the sync signal
/// (a zero is tolerated as a benign early return).
pub open spec fn spec_boot_to_accepts(s: Seq<u8>, pos: int) -> Option<int> {
    match spec_status_at(s, pos) {
        Some((st1, p1)) => if st1 != 0 {
            None
        } else {
            match spec_status_at(s, p1) {
                Some((st2, p2)) => if st2 != 0 {
                    None
                } else {
                    match spec_status_at(s, p2) {
                        Some((st3, p3)) => if st3 == Cmd::SyncSignal.spec_code() || st3 == 0 {
                            Some(p3)
                        } else {
                            None
                        },
                        None => None,
                    }
                },
                None => None,
            }
        },
        None => None,
    }
}

/// The environment parameters DA1 is configured with: log level 2
/// (UART), log channel 1, Linux as the host system, no UFS
/// provisioning, and a reserved zero.
pub open spec fn spec_env_param() -> Seq<u8> {
    spec_u32_to_le_bytes(2) + spec_u32_to_le_bytes(1) + spec_u32_to_le_bytes(1)
        + spec_u32_to_le_bytes(0) + spec_u32_to_le_bytes(0)
}

/// The four zero bytes of the hardware-init parameters.
pub open spec fn spec_hw_init_param() -> Seq<u8> {
    seq![0u8, 0u8, 0u8, 0u8]
}

/// The device accepts a `SendDa` exchange at `pos`: it echoes the
/// opcode and the three big-endian fields, then sends a zero status,
/// a checksum (any value) and a zero final status.
pub open spec fn spec_send_da_accepts(s: Seq<u8>, pos: int, addr: u32, len: u32, sig: u32) -> bool {
    let rest = s.skip(pos);
    &&& rest.len() >= 19
    &&& rest[0] == Command::SendDa.spec_code()
    &&& rest.subrange(1, 5) == spec_u32_to_be_bytes(addr)
    &&& rest.subrange(5, 9) == spec_u32_to_be_bytes(len)
    &&& rest.subrange(9, 13) == spec_u32_to_be_bytes(sig)
    &&& spec_u16_from_be_bytes(rest.subrange(13, 15)) == 0
    &&& spec_u16_from_be_bytes(rest.subrange(17, 19)) == 0
}

/// The device accepts a `JumpDa` exchange at `pos`: opcode and
/// little-endian address echoed, then a zero status.
pub open spec fn spec_jump_da_accepts(s: Seq<u8>, pos: int, addr: u32) -> bool {
    let rest = s.skip(pos);
    &&& rest.len() >= 7
    &&& rest[0] == Command::JumpDa.spec_code()
    &&& rest.subrange(1, 5) == spec_u32_to_le_bytes(addr)
    &&& spec_u16_from_le_bytes(rest.subrange(5, 7)) == 0
}

/// Cursor past an accepted DA1 bring-up: `SendDa` and `JumpDa`
/// accepted, the `0xC0` sync byte, zero statuses for the environment
/// and hardware-init parameters, then a protocol-flow frame carrying
/// the sync signal.
pub open spec fn spec_stage1_accepts(
    s: Seq<u8>,
    pos: int,
    addr: u32,
    length: u32,
    sig_len: u32,
) -> Option<int> {
    if !spec_send_da_accepts(s, pos, addr, length, sig_len) {
        None
    } else if !spec_jump_da_accepts(s, pos + 19, addr) {
        None
    } else if !(pos + 27 <= s.len() && s[pos + 26] == 0xC0) {
        None
    } else {
        match spec_status_at(s, pos + 27) {
            Some((st1, p4)) => if st1 != 0 {
                None
            } else {
                match spec_status_at(s, p4) {
                    Some((st2, p5)) => if st2 != 0 {
                        None
                    } else {
                        match spec_frame_at(s, p5) {
                            Some((dtype, payload, p6)) => if dtype == 1 && payload.len() == 4
                                && spec_u32_from_le_bytes(payload)
                                == Cmd::SyncSignal.spec_code() {
                                Some(p6)
                            } else {
                                None
                            },
                            None => None,
                        }
                    },
                    None => None,
                }
            },
            None => None,
        }
    }
}

/// Everything the DA1 bring-up writes: the `SendDa` exchange with the
/// DA1 bytes, the `JumpDa` exchange, the sync signal, and the two
/// setup commands with their parameter frames.
pub open spec fn spec_stage1_tx(addr: u32, length: u32, data: Seq<u8>, sig_len: u32) -> Seq<u8> {
    seq![Command::SendDa.spec_code()] + spec_u32_to_be_bytes(addr) + spec_u32_to_be_bytes(length)
        + spec_u32_to_be_bytes(sig_len) + data + seq![Command::JumpDa.spec_code()]
        + spec_u32_to_le_bytes(addr) + spec_send_bytes(Cmd::SyncSignal.spec_code(), 1)
        + spec_send_bytes(Cmd::SetupEnvironment.spec_code(), 1) + spec_frame(1, spec_env_param())
        + spec_send_bytes(Cmd::SetupHwInitParams.spec_code(), 1) + spec_frame(
        1,
        spec_hw_init_param(),
    )
}

/// The XFlash driver: the connection it owns, the DA entry it was
/// built for, and whether the DA extensions are active.
pub struct XFlash {
    pub conn: Connection,
    pub da: DA,
    pub using_exts: bool,
}

impl XFlash {
    /// The underlying transcript is well formed.
    pub open spec fn wf(self) -> bool {
        self.conn.wf()
    }

    /// Incoming bytes of the transcript.
    pub open spec fn inc(self) -> Seq<u8> {
        self.conn.channel.incoming@
    }

    /// Current read cursor.
    pub open spec fn pos(self) -> int {
        self.conn.channel.pos as int
    }

    /// Outgoing bytes of the transcript.
    pub open spec fn out(self) -> Seq<u8> {
        self.conn.channel.outgoing@
    }

    /// Parts of the driver state that no exchange changes.
    pub open spec fn same_config(self, other: XFlash) -> bool {
        &&& self.inc() == other.inc()
        &&& self.da == other.da
        &&& self.conn.connection_type == other.conn.connection_type
        &&& self.conn.baudrate == other.conn.baudrate
        &&& self.using_exts == other.using_exts
    }

    /// Wraps a connection and the DA entry selected for the chip.
    pub fn new(conn: Connection, da: DA) -> (r: XFlash)
        requires
            conn.wf(),
        ensures
            r.wf(),
            r.conn == conn,
            r.da == da,
            r.using_exts == false,
    {
        XFlash { conn, da, using_exts: false }
    }

    /// The connection the driver holds.
    pub fn get_connection(&self) -> (r: &Connection)
        ensures
            r == &self.conn,
    {
        &self.conn
    }

    /// Records the connection kind.
    pub fn set_connection_type(&mut self, conn_type: ConnectionType) -> (r: Result<(), MtkError>)
        requires
            old(self).wf(),
        ensures
            final(self).wf(),
            r is Ok,
            *final(self) == (XFlash {
                conn: Connection { connection_type: conn_type, ..old(self).conn },
                ..*old(self)
            }),
    {
        self.conn.connection_type = conn_type;
        Ok(())
    }

    /// Writes a 32-bit value as one frame under the given data type.
    pub fn send(&mut self, data: u32, datatype: u32) -> (r: Result<bool, MtkError>)
        requires
            old(self).wf(),
        ensures
            final(self).wf(),
            old(self).same_config(*final(self)),
            final(self).pos() == old(self).pos(),
            final(self).out() == old(self).out() + spec_send_bytes(data, datatype),
            r == Result::<bool, MtkError>::Ok(true),
    {
        let mut hdr = encode_frame_header(FRAME_MAGIC, datatype, 4);
        let mut payload = u32_to_le_bytes(data);
        hdr.append(&mut payload);
        proof {
            lemma_auto_spec_u32_to_from_le_bytes();
            assert(hdr@ =~= spec_send_bytes(data, datatype));
        }
        self.conn.channel.write_all(hdr.as_slice());
        Ok(true)
    }

    /// Sends a command word as a protocol-flow frame.
    pub fn send_cmd(&mut self, cmd: Cmd) -> (r: Result<bool, MtkError>)
        requires
            old(self).wf(),
        ensures
            final(self).wf(),
            old(self).same_config(*final(self)),
            final(self).pos() == old(self).pos(),
            final(self).out() == old(self).out() + spec_send_bytes(cmd.spec_code(), 1),
            r == Result::<bool, MtkError>::Ok(true),
    {
        self.send(cmd.code(), DT_PROTOCOL_FLOW)
    }

    /// Reads one frame and interprets its payload as a status word.
    pub fn get_status(&mut self) -> (r: Result<u32, MtkError>)
        requires
            old(self).wf(),
        ensures
            final(self).wf(),
            old(self).same_config(*final(self)),
            final(self).out() == old(self).out(),
            match spec_status_at(old(self).inc(), old(self).pos()) {
                Some((st, new_pos)) => r == Result::<u32, MtkError>::Ok(st) && final(self).pos()
                    == new_pos,
                None => r is Err,
            },
    {
        let (_dtype, payload) = match read_frame(&mut self.conn.channel) {
            Ok(f) => f,
            Err(e) => {
                return Err(e);
            },
        };
        Ok(status_of(&payload))
    }

    /// Reads one frame and returns its payload.
    pub fn read_data(&mut self) -> (r: Result<Vec<u8>, MtkError>)
        requires
            old(self).wf(),
        ensures
            final(self).wf(),
            old(self).same_config(*final(self)),
            final(self).out() == old(self).out(),
            match spec_frame_at(old(self).inc(), old(self).pos()) {
                Some((dtype, payload, new_pos)) => {
                    &&& r is Ok
                    &&& r->Ok_0@ == payload
                    &&& final(self).pos() == new_pos
                },
                None => r is Err,
            },
    {
        let (_dtype, payload) = match read_frame(&mut self.conn.channel) {
            Ok(f) => f,
            Err(e) => {
                return Err(e);
            },
        };
        Ok(payload)
    }

    /// Frames the payload as a protocol-flow message, writes it in
    /// 64-byte sub-chunks, then requires a zero status back.
    pub fn send_data(&mut self, data: &[u8]) -> (r: Result<bool, MtkError>)
        requires
            old(self).wf(),
            data@.len() <= u32::MAX,
        ensures
            final(self).wf(),
            old(self).same_config(*final(self)),
            final(self).out() == old(self).out() + spec_frame(1, data@),
            match spec_status_at(old(self).inc(), old(self).pos()) {
                Some((st, new_pos)) => {
                    &&& final(self).pos() == new_pos
                    &&& st == 0 ==> r == Result::<bool, MtkError>::Ok(true)
                    &&& st != 0 ==> r == Result::<bool, MtkError>::Err(MtkError::Protocol(st))
                },
                None => r is Err,
            },
    {
        let hdr = encode_frame_header(FRAME_MAGIC, DT_PROTOCOL_FLOW, data.len() as u32);
        self.conn.channel.write_all(hdr.as_slice());
        let mut pos: usize = 0;
        while pos < data.len()
            invariant
                self.wf(),
                old(self).same_config(*self),
                self.pos() == old(self).pos(),
                pos <= data@.len(),
                data@.len() <= u32::MAX,
                self.out() == old(self).out() + spec_frame_header(
                    FRAME_MAGIC,
                    1,
                    data@.len() as u32,
                ) + data@.take(pos as int),
            decreases data@.len() - pos,
        {
            let end = if data.len() - pos > 64 {
                pos + 64
            } else {
                data.len()
            };
            self.conn.channel.write_all(&data[pos..end]);
            proof {
                assert(data@.take(pos as int) + data@.subrange(pos as int, end as int) =~= data@
                    .take(end as int));
                assert(old(self).out() + spec_frame_header(FRAME_MAGIC, 1, data@.len() as u32)
                    + data@.take(pos as int) + data@.subrange(pos as int, end as int) =~= old(
                    self,
                ).out() + spec_frame_header(FRAME_MAGIC, 1, data@.len() as u32) + data@.take(
                    end as int,
                ));
            }
            pos = end;
        }
        proof {
            assert(data@.take(data@.len() as int) =~= data@);
            assert(old(self).out() + spec_frame_header(FRAME_MAGIC, 1, data@.len() as u32) + data@
                =~= old(self).out() + spec_frame(1, data@));
        }
        let status = match self.get_status() {
            Ok(st) => st,
            Err(e) => {
                return Err(e);
            },
        };
        if status != 0 {
            return Err(MtkError::Protocol(status));
        }
        Ok(true)
    }

    /// Runs a device-control exchange: `DeviceCtrl`, then the
    /// sub-command, each acknowledged by a zero status; a parameter is
    /// then sent as one framed payload (with empty result), otherwise
    /// one framed response is read back.
    pub fn devctrl(&mut self, cmd: Cmd, param: Option<&Vec<u8>>) -> (r: Result<Vec<u8>, MtkError>)
        requires
            old(self).wf(),
            param matches Some(p) ==> p@.len() <= u32::MAX,
        ensures
            final(self).wf(),
            old(self).same_config(*final(self)),
            match spec_devctrl_ack(old(self).inc(), old(self).pos()) {
                None => r is Err,
                Some(p2) => match param {
                    Some(p) => match spec_status_at(old(self).inc(), p2) {
                        Some((st, p3)) => {
                            &&& final(self).pos() == p3
                            &&& final(self).out() == old(self).out() + spec_send_bytes(
                                Cmd::DeviceCtrl.spec_code(),
                                1,
                            ) + spec_send_bytes(cmd.spec_code(), 1) + spec_frame(1, p@)
                            &&& st == 0 ==> r is Ok && r->Ok_0@ == Seq::<u8>::empty()
                            &&& st != 0 ==> r == Result::<Vec<u8>, MtkError>::Err(
                                MtkError::Protocol(st),
                            )
                        },
                        None => r is Err,
                    },
                    None => match spec_frame_at(old(self).inc(), p2) {
                        Some((dtype, payload, p3)) => {
                            &&& r is Ok
                            &&& r->Ok_0@ == payload
                            &&& final(self).pos() == p3
                            &&& final(self).out() == old(self).out() + spec_send_bytes(
                                Cmd::DeviceCtrl.spec_code(),
                                1,
                            ) + spec_send_bytes(cmd.spec_code(), 1)
                        },
                        None => r is Err,
                    },
                },
            },
    {
        if let Err(e) = self.send_cmd(Cmd::DeviceCtrl) {
            return Err(e);
        }
        let status = match self.get_status() {
            Ok(st) => st,
            Err(e) => {
                return Err(e);
            },
        };
        if status != 0 {
            return Err(MtkError::Protocol(status));
        }
        if let Err(e) = self.send_cmd(cmd) {
            return Err(e);
        }
        let status = match self.get_status() {
            Ok(st) => st,
            Err(e) => {
                return Err(e);
            },
        };
        if status != 0 {
            return Err(MtkError::Protocol(status));
        }
        match param {
            Some(p) => {
                match self.send_data(p.as_slice()) {
                    Ok(_) => Ok(Vec::new()),
                    Err(e) => Err(e),
                }
            },
            None => self.read_data(),
        }
    }

    /// `BootTo`: after a zero status, announces the load address and
    /// length in a 16-byte parameter frame, streams the image under a
    /// header of its own, and waits for a zero status followed by the
    /// sync signal (or a benign zero).
    pub fn boot_to(&mut self, addr: u32, data: &[u8]) -> (r: Result<bool, MtkError>)
        requires
            old(self).wf(),
            data@.len() <= u32::MAX,
        ensures
            final(self).wf(),
            old(self).same_config(*final(self)),
            r is Ok <==> spec_boot_to_accepts(old(self).inc(), old(self).pos()) is Some,
            r is Ok ==> {
                &&& r == Result::<bool, MtkError>::Ok(true)
                &&& final(self).pos() == spec_boot_to_accepts(
                    old(self).inc(),
                    old(self).pos(),
                )->Some_0
                &&& final(self).out() == old(self).out() + spec_boot_to_tx(addr, data@)
            },
    {
        if let Err(e) = self.send_cmd(Cmd::BootTo) {
            return Err(e);
        }
        let status = match self.get_status() {
            Ok(st) => st,
            Err(e) => {
                return Err(e);
            },
        };
        if status != 0 {
            return Err(MtkError::Protocol(status));
        }
        let mut param = u32_to_le_bytes(addr);
        let mut zeros1: Vec<u8> = Vec::new();
        zeros1.push(0);
        zeros1.push(0);
        zeros1.push(0);
        zeros1.push(0);
        param.append(&mut zeros1);
        let mut len_bytes = u32_to_le_bytes(data.len() as u32);
        param.append(&mut len_bytes);
        let mut zeros2: Vec<u8> = Vec::new();
        zeros2.push(0);
        zeros2.push(0);
        zeros2.push(0);
        zeros2.push(0);
        param.append(&mut zeros2);
        proof {
            assert(param@ =~= spec_boot_param(addr, data@.len() as u32));
        }
        let hdr = encode_frame_header(FRAME_MAGIC, DT_PROTOCOL_FLOW, 16);
        self.conn.channel.write_all(hdr.as_slice());
        self.conn.channel.write_all(param.as_slice());
        let data_hdr = encode_frame_header(FRAME_MAGIC, DT_PROTOCOL_FLOW, data.len() as u32);
        self.conn.channel.write_all(data_hdr.as_slice());
        self.conn.channel.write_all(data);
        let status = match self.get_status() {
            Ok(st) => st,
            Err(e) => {
                return Err(e);
            },
        };
        if status != 0 {
            return Err(MtkError::Protocol(status));
        }
        let status = match self.get_status() {
            Ok(st) => st,
            Err(e) => {
                return Err(e);
            },
        };
        if status != Cmd::SyncSignal.code() && status != 0 {
            return Err(MtkError::Protocol(status));
        }
        proof {
            assert(self.out() =~= old(self).out() + spec_boot_to_tx(addr, data@));
        }
        Ok(true)
    }

    /// Runs the DA1 bring-up: uploads the region over the preloader
    /// (`SendDa`), jumps to it, waits for the `0xC0` sync byte, sends
    /// the sync signal and the environment and hardware-init
    /// parameters, and requires the DA's sync signal back.  A missing
    /// sync byte is reported as `TimedOut` so the caller can prompt
    /// for a re-plug.
    pub fn upload_stage1(&mut self, addr: u32, length: u32, data: &[u8], sig_len: u32) -> (r:
        Result<bool, MtkError>)
        requires
            old(self).wf(),
        ensures
            final(self).wf(),
            old(self).same_config(*final(self)),
            r is Ok <==> spec_stage1_accepts(
                old(self).inc(),
                old(self).pos(),
                addr,
                length,
                sig_len,
            ) is Some,
            // A starved sync-byte read is the distinct timeout kind,
            // so the caller can prompt for a re-plug; a wrong sync
            // byte is a framing fault.
            (spec_send_da_accepts(old(self).inc(), old(self).pos(), addr, length, sig_len)
                && spec_jump_da_accepts(old(self).inc(), old(self).pos() + 19, addr)
                && old(self).inc().len() < old(self).pos() + 27) ==> r == Result::<
                bool,
                MtkError,
            >::Err(MtkError::TimedOut),
            (spec_send_da_accepts(old(self).inc(), old(self).pos(), addr, length, sig_len)
                && spec_jump_da_accepts(old(self).inc(), old(self).pos() + 19, addr)
                && old(self).pos() + 27 <= old(self).inc().len() && old(self).inc()[old(
                self,
            ).pos() + 26] != 0xC0) ==> r == Result::<bool, MtkError>::Err(MtkError::Framing),
            r is Ok ==> {
                &&& r == Result::<bool, MtkError>::Ok(true)
                &&& final(self).pos() == spec_stage1_accepts(
                    old(self).inc(),
                    old(self).pos(),
                    addr,
                    length,
                    sig_len,
                )->Some_0
                &&& final(self).out() == old(self).out() + spec_stage1_tx(
                    addr,
                    length,
                    data@,
                    sig_len,
                )
            },
    {
        if let Err(e) = self.conn.send_da(data, length, addr, sig_len) {
            return Err(e);
        }
        if let Err(e) = self.conn.jump_da(addr) {
            return Err(e);
        }
        let sync_byte = match self.conn.channel.read_byte() {
            Ok(b) => b,
            Err(_) => {
                return Err(MtkError::TimedOut);
            },
        };
        if sync_byte != 0xC0 {
            return Err(MtkError::Framing);
        }
        if let Err(e) = self.send_cmd(Cmd::SyncSignal) {
            return Err(e);
        }
        if let Err(e) = self.send_cmd(Cmd::SetupEnvironment) {
            return Err(e);
        }
        let mut env_param = u32_to_le_bytes(2);
        let mut w = u32_to_le_bytes(1);
        env_param.append(&mut w);
        let mut w = u32_to_le_bytes(1);
        env_param.append(&mut w);
        let mut w = u32_to_le_bytes(0);
        env_param.append(&mut w);
        let mut w = u32_to_le_bytes(0);
        env_param.append(&mut w);
        proof {
            assert(env_param@ =~= spec_env_param());
        }
        if let Err(e) = self.send_data(env_param.as_slice()) {
            return Err(e);
        }
        if let Err(e) = self.send_cmd(Cmd::SetupHwInitParams) {
            return Err(e);
        }
        let mut hw_param: Vec<u8> = Vec::new();
        hw_param.push(0);
        hw_param.push(0);
        hw_param.push(0);
        hw_param.push(0);
        proof {
            assert(hw_param@ =~= spec_hw_init_param());
        }
        if let Err(e) = self.send_data(hw_param.as_slice()) {
            return Err(e);
        }
        let (dtype, payload) = match read_frame(&mut self.conn.channel) {
            Ok(f) => f,
            Err(e) => {
                return Err(e);
            },
        };
        if dtype != DT_PROTOCOL_FLOW || payload.len() != 4 {
            return Err(MtkError::Framing);
        }
        let sync_value = u32_from_le_bytes(payload.as_slice());
        if sync_value != Cmd::SyncSignal.code() {
            return Err(MtkError::Framing);
        }
        proof {
            assert(payload@.subrange(0, 4) =~= payload@);
            assert(self.out() =~= old(self).out() + spec_stage1_tx(addr, length, data@, sig_len));
        }
        Ok(true)
    }

    /// Uploads and starts the Download Agent: DA1 over the preloader
    /// bring-up, then DA2 through `BootTo`.  Fails with `NotFound`
    /// when the selected entry lacks the conventional three regions.
    pub fn upload_da(&mut self) -> (r: Result<bool, MtkError>)
        requires
            old(self).wf(),
        ensures
            final(self).wf(),
            old(self).same_config(*final(self)),
            old(self).da.regions@.len() < 3 ==> r == Result::<bool, MtkError>::Err(
                MtkError::NotFound,
            ) && *final(self) == *old(self),
            r is Ok <==> (old(self).da.regions@.len() >= 3 && old(
                self,
            ).da.regions@[2].data@.len() <= u32::MAX && {
                let da1 = old(self).da.regions@[1];
                let da2 = old(self).da.regions@[2];
                match spec_stage1_accepts(
                    old(self).inc(),
                    old(self).pos(),
                    da1.addr,
                    da1.length,
                    da1.sig_len,
                ) {
                    Some(p) => spec_boot_to_accepts(old(self).inc(), p) is Some,
                    None => false,
                }
            }),
            r is Ok ==> {
                let da1 = old(self).da.regions@[1];
                let da2 = old(self).da.regions@[2];
                &&& r == Result::<bool, MtkError>::Ok(true)
                &&& final(self).out() == old(self).out() + spec_stage1_tx(
                    da1.addr,
                    da1.length,
                    da1.data@,
                    da1.sig_len,
                ) + spec_boot_to_tx(da2.addr, da2.data@)
                &&& final(self).pos() == spec_boot_to_accepts(
                    old(self).inc(),
                    spec_stage1_accepts(
                        old(self).inc(),
                        old(self).pos(),
                        da1.addr,
                        da1.length,
                        da1.sig_len,
                    )->Some_0,
                )->Some_0
            },
    {
        if self.da.regions.len() < 3 {
            return Err(MtkError::NotFound);
        }
        let da1_addr = self.da.regions[1].addr;
        let da1_length = self.da.regions[1].length;
        let da1_sig_len = self.da.regions[1].sig_len;
        let da1_data = slice_to_vec(self.da.regions[1].data.as_slice());
        let da2_addr = self.da.regions[2].addr;
        let da2_data = slice_to_vec(self.da.regions[2].data.as_slice());
        if da2_data.len() > u32::MAX as usize {
            return Err(MtkError::Unsupported);
        }
        if let Err(e) = self.upload_stage1(da1_addr, da1_length, da1_data.as_slice(), da1_sig_len)
            {
            return Err(e);
        }
        match self.boot_to(da2_addr, da2_data.as_slice()) {
            Ok(_) => Ok(true),
            Err(e) => Err(e),
        }
    }

    /// Reads a 32-bit register.  With the DA extensions active this
    /// routes through the extension read command; without them the
    /// device-control read-register exchange returns no payload, so
    /// the read always fails.
    pub fn read32(&mut self, addr: u32) -> (r: Result<u32, MtkError>)
        requires
            old(self).wf(),
        ensures
            final(self).wf(),
            old(self).same_config(*final(self)),
            !old(self).using_exts ==> r is Err,
            old(self).using_exts ==> match crate::exts::spec_read32_ext_result(
                old(self).inc(),
                old(self).pos(),
            ) {
                Some((v, p)) => {
                    &&& r == Result::<u32, MtkError>::Ok(v)
                    &&& final(self).pos() == p
                    &&& final(self).out() == old(self).out()
                        + crate::exts::spec_read32_ext_tx(addr)
                },
                None => r is Err,
            },
    {
        if self.using_exts {
            return crate::exts::read32_ext(self, addr);
        }
        let param = u32_to_le_bytes(addr);
        let resp = match self.devctrl(Cmd::DeviceCtrlReadRegister, Some(&param)) {
            Ok(v) => v,
            Err(e) => {
                return Err(e);
            },
        };
        if resp.len() < 4 {
            return Err(MtkError::Io);
        }
        Ok(u32_from_le_bytes(&resp[0..4]))
    }

    /// Writes a 32-bit register, through the extension write command
    /// when the extensions are active, else through device control
    /// with address and value as one framed parameter.
    pub fn write32(&mut self, addr: u32, value: u32) -> (r: Result<(), MtkError>)
        requires
            old(self).wf(),
        ensures
            final(self).wf(),
            old(self).same_config(*final(self)),
            old(self).using_exts ==> {
                &&& (r is Ok <==> crate::exts::spec_write32_ext_accepts(
                    old(self).inc(),
                    old(self).pos(),
                ) is Some)
                &&& r is Ok ==> final(self).out() == old(self).out()
                    + crate::exts::spec_write32_ext_tx(addr, value)
            },
            !old(self).using_exts ==> match spec_devctrl_ack(old(self).inc(), old(self).pos()) {
                None => r is Err,
                Some(p2) => match spec_status_at(old(self).inc(), p2) {
                    Some((st, p3)) => {
                        &&& final(self).pos() == p3
                        &&& st == 0 ==> r is Ok && final(self).out() == old(self).out()
                            + spec_send_bytes(Cmd::DeviceCtrl.spec_code(), 1) + spec_send_bytes(
                            Cmd::SetRegisterValue.spec_code(),
                            1,
                        ) + spec_frame(
                            1,
                            spec_u32_to_le_bytes(addr) + spec_u32_to_le_bytes(value),
                        )
                        &&& st != 0 ==> r == Result::<(), MtkError>::Err(MtkError::Protocol(st))
                    },
                    None => r is Err,
                },
            },
    {
        if self.using_exts {
            return crate::exts::write32_ext(self, addr, value);
        }
        let mut param = u32_to_le_bytes(addr);
        let mut v = u32_to_le_bytes(value);
        param.append(&mut v);
        match self.devctrl(Cmd::SetRegisterValue, Some(&param)) {
            Ok(_) => Ok(()),
            Err(e) => Err(e),
        }
    }

    /// Boots the DA extension payload once: patches it against DA2,
    /// uploads it, and latches `using_exts` on success.  A driver
    /// already using the extensions is left as it is.
    pub fn boot_extensions(&mut self, ext_blob: &[u8]) -> (r: Result<bool, MtkError>)
        requires
            old(self).wf(),
            ext_blob@.len() <= u32::MAX,
            old(self).da.regions@.len() >= 3 ==> old(self).da.regions@[2].data@.len()
                <= u32::MAX,
        ensures
            final(self).wf(),
            final(self).inc() == old(self).inc(),
            final(self).da == old(self).da,
            old(self).using_exts ==> *final(self) == *old(self) && r == Result::<
                bool,
                MtkError,
            >::Ok(true),
            r is Ok ==> final(self).using_exts,
            (!old(self).using_exts && r is Err) ==> final(self).using_exts
                == old(self).using_exts,
            !old(self).using_exts ==> (r is Ok <==> (old(self).da.regions@.len() >= 3
                && crate::exts::spec_prepare(
                old(self).da.regions@[2].data@,
                old(self).da.regions@[2].addr,
                ext_blob@,
            ) is Some && crate::exts::spec_boot_exts_accepts(
                old(self).inc(),
                old(self).pos(),
            ) is Some)),
    {
        if self.using_exts {
            return Ok(true);
        }
        if let Err(e) = crate::exts::boot_extensions(self, ext_blob) {
            return Err(e);
        }
        self.using_exts = true;
        Ok(true)
    }

    /// Reads `size` bytes of flash at `addr`; see
    /// [`crate::flash::read_flash`] for the exchange.
    pub fn read_flash(&mut self, addr: u64, size: usize) -> (r: Result<Vec<u8>, MtkError>)
        requires
            old(self).wf(),
        ensures
            final(self).wf(),
            old(self).same_config(*final(self)),
            crate::flash::spec_read_flash_post(
                old(self).inc(),
                old(self).pos(),
                addr,
                size as int,
                r,
                old(self).out(),
                final(self).out(),
                final(self).pos(),
            ),
    {
        crate::flash::read_flash(self, addr, size)
    }

    /// Writes `size` bytes of flash at `addr`; see
    /// [`crate::flash::write_flash`] for the exchange.
    pub fn write_flash(&mut self, addr: u64, size: usize, data: &[u8]) -> (r: Result<
        (),
        MtkError,
    >)
        requires
            old(self).wf(),
        ensures
            final(self).wf(),
            old(self).same_config(*final(self)),
            crate::flash::spec_write_flash_post(
                old(self).inc(),
                old(self).pos(),
                addr,
                size as int,
                data@,
                r,
                old(self).out(),
                final(self).out(),
                final(self).pos(),
            ),
    {
        crate::flash::write_flash(self, addr, size, data)
    }

    /// `GetUsbSpeed` through device control: one framed response whose
    /// first four bytes are the speed word, then a zero status.
    pub fn get_usb_speed(&mut self) -> (r: Result<u32, MtkError>)
        requires
            old(self).wf(),
        ensures
            final(self).wf(),
            old(self).same_config(*final(self)),
            r is Ok <==> (match spec_devctrl_ack(old(self).inc(), old(self).pos()) {
                None => false,
                Some(p2) => match spec_frame_at(old(self).inc(), p2) {
                    None => false,
                    Some((dtype, payload, p3)) => match spec_status_at(old(self).inc(), p3) {
                        None => false,
                        Some((st, p4)) => st == 0 && payload.len() >= 4,
                    },
                },
            }),
            r is Ok ==> {
                let p2 = spec_devctrl_ack(old(self).inc(), old(self).pos())->Some_0;
                match spec_frame_at(old(self).inc(), p2) {
                    Some((dtype, payload, p3)) => {
                        &&& r->Ok_0 == spec_u32_from_le_bytes(payload.subrange(0, 4))
                        &&& (spec_status_at(old(self).inc(), p3) matches Some((st, p4))
                            && final(self).pos() == p4)
                        &&& final(self).out() == old(self).out() + spec_send_bytes(
                            Cmd::DeviceCtrl.spec_code(),
                            1,
                        ) + spec_send_bytes(Cmd::GetUsbSpeed.spec_code(), 1)
                    },
                    None => false,
                }
            },
    {
        let usb_speed = match self.devctrl(Cmd::GetUsbSpeed, None) {
            Ok(v) => v,
            Err(e) => {
                return Err(e);
            },
        };
        let status = match self.get_status() {
            Ok(st) => st,
            Err(e) => {
                return Err(e);
            },
        };
        if status != 0 {
            return Err(MtkError::Protocol(status));
        }
        if usb_speed.len() < 4 {
            return Err(MtkError::Io);
        }
        Ok(u32_from_le_bytes(&usb_speed[0..4]))
    }
}

} // verus!
