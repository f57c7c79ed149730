//! BROM / preloader connection driver.
//!
//! Runs the handshake and the fixed preloader command set against a
//! [`Channel`] transcript.  Every command is a single-byte opcode that
//! the device echoes back; opcode-specific fields follow, then a
//! 16-bit status word whose non-zero values are failures.  Endianness
//! is not uniform: `SendDa` fields and statuses are big-endian,
//! `JumpDa`'s address and the other status words little-endian.

use vstd::prelude::*;
use vstd::bytes::*;

use crate::bigend::{
    spec_u16_from_be_bytes, spec_u32_from_be_bytes, spec_u32_to_be_bytes, u16_from_be_bytes,
    u32_from_be_bytes, u32_to_be_bytes,
};
use crate::command::Command;
use crate::error::MtkError;
use crate::utilities::bytes_equal;
use crate::wire::Channel;

verus! {

/// How the device showed up on the bus, which also fixes the baud.
#[derive(Debug, Clone, Copy, PartialEq, Eq, Structural)]
pub enum ConnectionType {
    Brom,
    Preloader,
    Da,
}

impl ConnectionType {
    /// Negotiated baud: 115 200 for BROM, 921 600 otherwise.
    pub open spec fn spec_baudrate(self) -> u32 {
        match self {
            ConnectionType::Brom => 115200,
            ConnectionType::Preloader => 921600,
            ConnectionType::Da => 921600,
        }
    }

    /// Negotiated baud: 115 200 for BROM, 921 600 otherwise.
    pub fn baudrate(self) -> (r: u32)
        ensures
            r == self.spec_baudrate(),
    {
        match self {
            ConnectionType::Brom => 115200,
            ConnectionType::Preloader => 921600,
            ConnectionType::Da => 921600,
        }
    }
}

/// Whether a USB VID/PID pair is one of the MediaTek service ports.
pub fn is_mtk_vid_pid(vid: u16, pid: u16) -> (r: bool)
    ensures
        r == (vid == 0x0E8D && (pid == 0x0003 || pid == 0x2000 || pid == 0x2001)),
{
    vid == 0x0E8D && (pid == 0x0003 || pid == 0x2000 || pid == 0x2001)
}

/// The connection kind a MediaTek VID/PID pair announces, or `None`
/// for any other pair.
pub fn connection_type_of_vid_pid(vid: u16, pid: u16) -> (r: Option<ConnectionType>)
    ensures
        vid != 0x0E8D ==> r is None,
        vid == 0x0E8D && pid == 0x0003 ==> r == Some(ConnectionType::Brom),
        vid == 0x0E8D && pid == 0x2000 ==> r == Some(ConnectionType::Preloader),
        vid == 0x0E8D && pid == 0x2001 ==> r == Some(ConnectionType::Da),
        vid == 0x0E8D && !(pid == 0x0003 || pid == 0x2000 || pid == 0x2001) ==> r is None,
{
    if vid != 0x0E8D {
        return None;
    }
    if pid == 0x0003 {
        Some(ConnectionType::Brom)
    } else if pid == 0x2000 {
        Some(ConnectionType::Preloader)
    } else if pid == 0x2001 {
        Some(ConnectionType::Da)
    } else {
        None
    }
}

/// The byte the host sends at the given handshake stage.
pub open spec fn spec_hs_send(i: int) -> u8 {
    if i == 0 {
        0xA0
    } else if i == 1 {
        0x0A
    } else if i == 2 {
        0x50
    } else {
        0x05
    }
}

/// The reply the host accepts at the given handshake stage: the
/// bitwise complement of the byte it sent.
pub open spec fn spec_hs_expect(i: int) -> u8 {
    if i == 0 {
        0x5F
    } else if i == 1 {
        0xF5
    } else if i == 2 {
        0xAF
    } else {
        0xFA
    }
}

/// The four bytes of an undisturbed handshake request.
pub open spec fn spec_hs_request() -> Seq<u8> {
    seq![0xA0u8, 0x0Au8, 0x50u8, 0x05u8]
}

/// The four bytes of an undisturbed handshake reply.
pub open spec fn spec_hs_reply() -> Seq<u8> {
    seq![0x5Fu8, 0xF5u8, 0xAFu8, 0xFAu8]
}

/// The handshake as a function of the device's bytes: from `pos` at
/// the given stage, the host sends the stage's byte, consumes one
/// reply byte, and advances the stage exactly when the reply is the
/// stage's complement.  Yields the cursor past the handshake and the
/// bytes the host sent, or `None` when the stream runs out first.
pub open spec fn spec_hs_run(s: Seq<u8>, pos: int, stage: int) -> Option<(int, Seq<u8>)>
    decreases s.len() - pos,
{
    if stage >= 4 {
        Some((pos, Seq::empty()))
    } else if pos < 0 || pos >= s.len() {
        None
    } else {
        let next_stage = if s[pos] == spec_hs_expect(stage) {
            stage + 1
        } else {
            stage
        };
        match spec_hs_run(s, pos + 1, next_stage) {
            Some((p, tx)) => Some((p, seq![spec_hs_send(stage)] + tx)),
            None => None,
        }
    }
}

/// An undisturbed reply runs the handshake in exactly four bytes,
/// with the four-byte request sent.
pub proof fn lemma_hs_run_clean(s: Seq<u8>, pos: int)
    requires
        0 <= pos <= s.len(),
        s.skip(pos).len() >= 4,
        s.skip(pos).take(4) == spec_hs_reply(),
    ensures
        spec_hs_run(s, pos, 0) == Some((pos + 4, spec_hs_request())),
{
    assert(s.skip(pos).take(4)[0] == s[pos]);
    assert(s.skip(pos).take(4)[1] == s[pos + 1]);
    assert(s.skip(pos).take(4)[2] == s[pos + 2]);
    assert(s.skip(pos).take(4)[3] == s[pos + 3]);
    assert(spec_hs_run(s, pos + 4, 4) == Some((pos + 4, Seq::<u8>::empty())));
    assert(spec_hs_run(s, pos + 3, 3) == Some((pos + 4, seq![spec_hs_send(3)] + Seq::<u8>::empty())));
    assert(spec_hs_run(s, pos + 2, 2) == Some((
        pos + 4,
        seq![spec_hs_send(2)] + (seq![spec_hs_send(3)] + Seq::<u8>::empty()),
    )));
    assert(spec_hs_run(s, pos + 1, 1) == Some((
        pos + 4,
        seq![spec_hs_send(1)] + (seq![spec_hs_send(2)] + (seq![spec_hs_send(3)]
            + Seq::<u8>::empty())),
    )));
    assert(seq![spec_hs_send(0)] + (seq![spec_hs_send(1)] + (seq![spec_hs_send(2)] + (seq![
        spec_hs_send(3),
    ] + Seq::<u8>::empty()))) =~= spec_hs_request());
}

/// The device's reply stream at `pos` opens with the undisturbed
/// handshake reply `5F F5 AF FA`.
pub open spec fn spec_hs_clean(s: Seq<u8>, pos: int) -> bool {
    &&& s.skip(pos).len() >= 4
    &&& s.skip(pos).take(4) == spec_hs_reply()
}

/// Cursor past an accepted identifier exchange (`GetSocId` or
/// `GetMeId`): opcode echo, big-endian length, that many identifier
/// bytes, and a zero little-endian status.
pub open spec fn spec_id_accepts(s: Seq<u8>, pos: int, code: u8) -> Option<int> {
    let rest = s.skip(pos);
    if rest.len() >= 5 && rest[0] == code {
        let l = spec_u32_from_be_bytes(rest.subrange(1, 5)) as int;
        if rest.len() >= 7 + l && spec_u16_from_le_bytes(rest.subrange(5 + l, 7 + l)) == 0 {
            Some(pos + 7 + l)
        } else {
            None
        }
    } else {
        None
    }
}

/// The identifier bytes an accepted identifier exchange at `pos`
/// carries: the payload between the big-endian length and the status.
pub open spec fn spec_id_value(s: Seq<u8>, pos: int) -> Seq<u8> {
    let rest = s.skip(pos);
    let l = spec_u32_from_be_bytes(rest.subrange(1, 5)) as int;
    rest.subrange(5, 5 + l)
}

/// The little-endian word right after the opcode echo at `pos`: the
/// hardware code of a `GetHwCode` reply, or the hw_sub_code of a
/// `GetHwSwVer` reply.
pub open spec fn spec_reply_word(s: Seq<u8>, pos: int) -> u16 {
    spec_u16_from_le_bytes(s.skip(pos).subrange(1, 3))
}

/// Cursor past an accepted `GetHwCode` exchange.
pub open spec fn spec_hw_code_accepts(s: Seq<u8>, pos: int) -> Option<int> {
    let rest = s.skip(pos);
    if rest.len() >= 5 && rest[0] == Command::GetHwCode.spec_code() && spec_u16_from_le_bytes(
        rest.subrange(3, 5),
    ) == 0 {
        Some(pos + 5)
    } else {
        None
    }
}

/// Cursor past an accepted `GetHwSwVer` exchange.
pub open spec fn spec_hw_sw_ver_accepts(s: Seq<u8>, pos: int) -> Option<int> {
    let rest = s.skip(pos);
    if rest.len() >= 9 && rest[0] == Command::GetHwSwVer.spec_code() && spec_u16_from_le_bytes(
        rest.subrange(7, 9),
    ) == 0 {
        Some(pos + 9)
    } else {
        None
    }
}

/// A preloader-protocol connection over a transcript.
pub struct Connection {
    pub channel: Channel,
    pub connection_type: ConnectionType,
    pub baudrate: u32,
}

impl Connection {
    /// The underlying transcript is well formed.
    pub open spec fn wf(self) -> bool {
        self.channel.wf()
    }

    /// Bytes of the transcript the driver has not consumed yet.
    pub open spec fn rest(self) -> Seq<u8> {
        self.channel.rest()
    }

    /// Wraps a transcript; the baud follows the connection kind.
    pub fn new(channel: Channel, connection_type: ConnectionType) -> (r: Connection)
        requires
            channel.wf(),
        ensures
            r.wf(),
            r.channel == channel,
            r.connection_type == connection_type,
            r.baudrate == connection_type.spec_baudrate(),
    {
        let baudrate = connection_type.baudrate();
        Connection { channel, connection_type, baudrate }
    }

    /// Writes `data`, then reads back `size` bytes.
    pub fn write(&mut self, data: &[u8], size: usize) -> (r: Result<Vec<u8>, MtkError>)
        requires
            old(self).wf(),
        ensures
            final(self).wf(),
            final(self).channel.incoming@ == old(self).channel.incoming@,
            final(self).connection_type == old(self).connection_type,
            final(self).baudrate == old(self).baudrate,
            final(self).channel.outgoing@ == old(self).channel.outgoing@ + data@,
            old(self).channel.avail() >= size ==> {
                &&& r is Ok
                &&& r->Ok_0@ == old(self).rest().take(size as int)
                &&& final(self).channel.pos == old(self).channel.pos + size
            },
            old(self).channel.avail() < size ==> {
                &&& r == Result::<Vec<u8>, MtkError>::Err(MtkError::Io)
                &&& final(self).channel.pos == old(self).channel.pos
            },
    {
        self.channel.write_all(data);
        self.channel.read_exact(size)
    }

    /// Accepts the reply iff it equals the expected bytes.
    pub fn check(&self, data: &[u8], expected_data: &[u8]) -> (r: Result<(), MtkError>)
        ensures
            r is Ok <==> data@ == expected_data@,
            r is Err ==> r == Result::<(), MtkError>::Err(MtkError::Framing),
    {
        if bytes_equal(data, expected_data) {
            Ok(())
        } else {
            Err(MtkError::Framing)
        }
    }

    /// Writes `data` and accepts only an identical reply of the same
    /// length, the echo pattern every preloader command opens with.
    pub fn echo(&mut self, data: &[u8], size: usize) -> (r: Result<(), MtkError>)
        requires
            old(self).wf(),
            size == data@.len(),
        ensures
            final(self).wf(),
            final(self).channel.incoming@ == old(self).channel.incoming@,
            final(self).connection_type == old(self).connection_type,
            final(self).baudrate == old(self).baudrate,
            final(self).channel.outgoing@ == old(self).channel.outgoing@ + data@,
            r is Ok <==> (old(self).channel.avail() >= size && old(self).rest().take(size as int)
                == data@),
            r is Ok ==> final(self).channel.pos == old(self).channel.pos + size,
            old(self).channel.avail() < size ==> r == Result::<(), MtkError>::Err(MtkError::Io),
            (old(self).channel.avail() >= size && old(self).rest().take(size as int) != data@)
                ==> r == Result::<(), MtkError>::Err(MtkError::Framing),
    {
        let buf = match self.write(data, size) {
            Ok(b) => b,
            Err(e) => {
                return Err(e);
            },
        };
        self.check(buf.as_slice(), data)
    }

    /// Runs the BROM handshake: sends `A0`, then `0A`, `50`, `05`,
    /// each until its complement (`5F`, `F5`, `AF`, `FA`) comes back;
    /// a mismatched reply retries the same byte.  Success leaves the
    /// connection in the Preloader state.  The whole exchange is the
    /// function of the incoming bytes that [`spec_hs_run`] computes.
    pub fn handshake(&mut self) -> (r: Result<(), MtkError>)
        requires
            old(self).wf(),
        ensures
            final(self).wf(),
            final(self).channel.incoming@ == old(self).channel.incoming@,
            final(self).baudrate == old(self).baudrate,
            r is Ok ==> final(self).connection_type == ConnectionType::Preloader,
            r is Err ==> r == Result::<(), MtkError>::Err(MtkError::Io)
                && final(self).connection_type == old(self).connection_type,
            match spec_hs_run(
                old(self).channel.incoming@,
                old(self).channel.pos as int,
                0,
            ) {
                Some((p, tx)) => {
                    &&& r is Ok
                    &&& final(self).channel.pos == p
                    &&& final(self).channel.outgoing@ == old(self).channel.outgoing@ + tx
                },
                None => r == Result::<(), MtkError>::Err(MtkError::Io),
            },
            // An undisturbed exchange: the device answers 5F F5 AF FA
            // to A0 0A 50 05 and the handshake succeeds.
            (old(self).channel.avail() >= 4 && old(self).rest().take(4) == spec_hs_reply()) ==> {
                &&& r is Ok
                &&& final(self).channel.pos == old(self).channel.pos + 4
                &&& final(self).channel.outgoing@ == old(self).channel.outgoing@
                    + spec_hs_request()
            },
    {
        let ghost s = self.channel.incoming@;
        let ghost p0 = self.channel.pos as int;
        let ghost out0 = self.channel.outgoing@;
        proof {
            if spec_hs_clean(s, p0) {
                lemma_hs_run_clean(s, p0);
            }
            assert(out0 + Seq::<u8>::empty() =~= out0);
            if spec_hs_run(s, p0, 0) is Some {
                let ptx = spec_hs_run(s, p0, 0)->Some_0;
                assert(Seq::<u8>::empty() + ptx.1 =~= ptx.1);
            }
        }
        let ghost mut tx_done: Seq<u8> = Seq::empty();
        let mut stage: usize = 0;
        while stage < 4
            invariant
                self.wf(),
                stage <= 4,
                self.channel.incoming@ == s,
                s == old(self).channel.incoming@,
                p0 == old(self).channel.pos,
                out0 == old(self).channel.outgoing@,
                self.connection_type == old(self).connection_type,
                self.baudrate == old(self).baudrate,
                self.channel.outgoing@ == out0 + tx_done,
                spec_hs_clean(s, p0) ==> spec_hs_run(s, p0, 0) == Some((
                    p0 + 4,
                    spec_hs_request(),
                )),
                (match spec_hs_run(s, self.channel.pos as int, stage as int) {
                    Some((p, tx)) => spec_hs_run(s, p0, 0) == Some((p, tx_done + tx)),
                    None => spec_hs_run(s, p0, 0) is None,
                }),
            decreases s.len() - self.channel.pos,
        {
            let send = if stage == 0 {
                0xA0u8
            } else if stage == 1 {
                0x0Au8
            } else if stage == 2 {
                0x50u8
            } else {
                0x05u8
            };
            let expect = if stage == 0 {
                0x5Fu8
            } else if stage == 1 {
                0xF5u8
            } else if stage == 2 {
                0xAFu8
            } else {
                0xFAu8
            };
            let ghost cur = self.channel.pos as int;
            let ghost tx0 = tx_done;
            self.channel.write_byte(send);
            proof {
                assert(send == spec_hs_send(stage as int));
                assert(expect == spec_hs_expect(stage as int));
                tx_done = tx_done + seq![send];
                assert(out0 + tx0 + seq![send] =~= out0 + tx_done);
            }
            let b = match self.channel.read_byte() {
                Ok(b) => b,
                Err(_) => {
                    proof {
                        assert(spec_hs_run(s, cur, stage as int) is None);
                    }
                    return Err(MtkError::Io);
                },
            };
            proof {
                assert(b == s[cur]);
                let ns: int = if b == spec_hs_expect(stage as int) {
                    stage + 1
                } else {
                    stage as int
                };
                assert(spec_hs_run(s, cur, stage as int) == (
                match spec_hs_run(s, cur + 1, ns) {
                    Some((p, tx)) => Some((p, seq![spec_hs_send(stage as int)] + tx)),
                    None => None::<(int, Seq<u8>)>,
                }));
                if spec_hs_run(s, cur + 1, ns) is Some {
                    let ptx = spec_hs_run(s, cur + 1, ns)->Some_0;
                    crate::utilities::lemma_seq_assoc(
                        tx0,
                        seq![spec_hs_send(stage as int)],
                        ptx.1,
                    );
                }
            }
            if b == expect {
                stage = stage + 1;
            }
        }
        proof {
            assert(spec_hs_run(s, self.channel.pos as int, 4) == Some((
                self.channel.pos as int,
                Seq::<u8>::empty(),
            )));
            assert(tx_done + Seq::<u8>::empty() =~= tx_done);
        }
        self.connection_type = ConnectionType::Preloader;
        Ok(())
    }

    /// Sends the command opcode and accepts its one-byte echo.
    pub fn send_command(&mut self, cmd: Command) -> (r: Result<(), MtkError>)
        requires
            old(self).wf(),
        ensures
            final(self).wf(),
            final(self).channel.incoming@ == old(self).channel.incoming@,
            final(self).connection_type == old(self).connection_type,
            final(self).baudrate == old(self).baudrate,
            final(self).channel.outgoing@ == old(self).channel.outgoing@
                + seq![cmd.spec_code()],
            r is Ok <==> (old(self).channel.avail() >= 1 && old(self).rest()[0]
                == cmd.spec_code()),
            r is Ok ==> final(self).channel.pos == old(self).channel.pos + 1,
    {
        let mut op: Vec<u8> = Vec::new();
        op.push(cmd.code());
        proof {
            assert(op@ =~= seq![cmd.spec_code()]);
            if old(self).channel.avail() >= 1 {
                if old(self).rest()[0] == cmd.spec_code() {
                    assert(old(self).rest().take(1) =~= seq![cmd.spec_code()]);
                } else {
                    assert(old(self).rest().take(1)[0] == old(self).rest()[0]);
                }
            }
        }
        self.echo(op.as_slice(), 1)
    }

    /// `JumpDa`: echoes the opcode and a little-endian address, then
    /// requires a zero little-endian status.
    pub fn jump_da(&mut self, address: u32) -> (r: Result<(), MtkError>)
        requires
            old(self).wf(),
        ensures
            final(self).wf(),
            final(self).channel.incoming@ == old(self).channel.incoming@,
            final(self).connection_type == old(self).connection_type,
            final(self).baudrate == old(self).baudrate,
            r is Ok <==> {
                let rest = old(self).rest();
                &&& rest.len() >= 7
                &&& rest[0] == Command::JumpDa.spec_code()
                &&& rest.subrange(1, 5) == spec_u32_to_le_bytes(address)
                &&& spec_u16_from_le_bytes(rest.subrange(5, 7)) == 0
            },
            r is Ok ==> {
                &&& final(self).channel.pos == old(self).channel.pos + 7
                &&& final(self).channel.outgoing@ == old(self).channel.outgoing@ + seq![
                    Command::JumpDa.spec_code(),
                ] + spec_u32_to_le_bytes(address)
            },
            ({
                let rest = old(self).rest();
                (rest.len() >= 7 && rest[0] == Command::JumpDa.spec_code() && rest.subrange(1, 5)
                    == spec_u32_to_le_bytes(address) && spec_u16_from_le_bytes(
                    rest.subrange(5, 7),
                ) != 0) ==> r == Result::<(), MtkError>::Err(
                    MtkError::Protocol(spec_u16_from_le_bytes(rest.subrange(5, 7)) as u32),
                )
            }),
    {
        let ghost rest0 = self.rest();
        if let Err(e) = self.send_command(Command::JumpDa) {
            return Err(e);
        }
        let addr_bytes = u32_to_le_bytes(address);
        proof {
            assert(self.rest() =~= rest0.skip(1));
            assert(rest0.len() >= 5 ==> (self.rest().take(4) =~= rest0.subrange(1, 5)));
        }
        if let Err(e) = self.echo(addr_bytes.as_slice(), 4) {
            return Err(e);
        }
        proof {
            assert(self.rest() =~= rest0.skip(5));
            assert(rest0.len() >= 7 ==> (self.rest().take(2) =~= rest0.subrange(5, 7)));
        }
        let status_buf = match self.channel.read_exact(2) {
            Ok(b) => b,
            Err(e) => {
                return Err(e);
            },
        };
        let status = u16_from_le_bytes(status_buf.as_slice());
        if status != 0 {
            return Err(MtkError::Protocol(status as u32));
        }
        Ok(())
    }

    /// `SendDa`: echoes the opcode, then address, length and signature
    /// length as big-endian u32s, requires a zero big-endian status,
    /// streams the DA bytes, then reads the device checksum (any
    /// value) and requires a zero big-endian final status.
    pub fn send_da(
        &mut self,
        da_data: &[u8],
        da_len: u32,
        address: u32,
        sig_len: u32,
    ) -> (r: Result<(), MtkError>)
        requires
            old(self).wf(),
        ensures
            final(self).wf(),
            final(self).channel.incoming@ == old(self).channel.incoming@,
            final(self).connection_type == old(self).connection_type,
            final(self).baudrate == old(self).baudrate,
            r is Ok <==> {
                let rest = old(self).rest();
                &&& rest.len() >= 19
                &&& rest[0] == Command::SendDa.spec_code()
                &&& rest.subrange(1, 5) == spec_u32_to_be_bytes(address)
                &&& rest.subrange(5, 9) == spec_u32_to_be_bytes(da_len)
                &&& rest.subrange(9, 13) == spec_u32_to_be_bytes(sig_len)
                &&& spec_u16_from_be_bytes(rest.subrange(13, 15)) == 0
                &&& spec_u16_from_be_bytes(rest.subrange(17, 19)) == 0
            },
            r is Ok ==> {
                &&& final(self).channel.pos == old(self).channel.pos + 19
                &&& final(self).channel.outgoing@ == old(self).channel.outgoing@ + seq![
                    Command::SendDa.spec_code(),
                ] + spec_u32_to_be_bytes(address) + spec_u32_to_be_bytes(da_len)
                    + spec_u32_to_be_bytes(sig_len) + da_data@
            },
    {
        let ghost rest0 = self.rest();
        if let Err(e) = self.send_command(Command::SendDa) {
            return Err(e);
        }
        let addr_bytes = u32_to_be_bytes(address);
        proof {
            assert(self.rest() =~= rest0.skip(1));
            assert(rest0.len() >= 5 ==> (self.rest().take(4) =~= rest0.subrange(1, 5)));
        }
        if let Err(e) = self.echo(addr_bytes.as_slice(), 4) {
            return Err(e);
        }
        let len_bytes = u32_to_be_bytes(da_len);
        proof {
            assert(self.rest() =~= rest0.skip(5));
            assert(rest0.len() >= 9 ==> (self.rest().take(4) =~= rest0.subrange(5, 9)));
        }
        if let Err(e) = self.echo(len_bytes.as_slice(), 4) {
            return Err(e);
        }
        let sig_bytes = u32_to_be_bytes(sig_len);
        proof {
            assert(self.rest() =~= rest0.skip(9));
            assert(rest0.len() >= 13 ==> (self.rest().take(4) =~= rest0.subrange(9, 13)));
        }
        if let Err(e) = self.echo(sig_bytes.as_slice(), 4) {
            return Err(e);
        }
        proof {
            assert(self.rest() =~= rest0.skip(13));
            assert(rest0.len() >= 15 ==> (self.rest().take(2) =~= rest0.subrange(13, 15)));
        }
        let status_buf = match self.channel.read_exact(2) {
            Ok(b) => b,
            Err(e) => {
                return Err(e);
            },
        };
        let status = u16_from_be_bytes(status_buf.as_slice());
        if status != 0 {
            return Err(MtkError::Protocol(status as u32));
        }
        self.channel.write_all(da_data);
        proof {
            assert(self.rest() =~= rest0.skip(15));
            assert(rest0.len() >= 17 ==> (self.rest().take(2) =~= rest0.subrange(15, 17)));
        }
        let _device_checksum = match self.channel.read_exact(2) {
            Ok(b) => b,
            Err(e) => {
                return Err(e);
            },
        };
        proof {
            assert(self.rest() =~= rest0.skip(17));
            assert(rest0.len() >= 19 ==> (self.rest().take(2) =~= rest0.subrange(17, 19)));
        }
        let final_buf = match self.channel.read_exact(2) {
            Ok(b) => b,
            Err(e) => {
                return Err(e);
            },
        };
        let final_status = u16_from_be_bytes(final_buf.as_slice());
        if final_status != 0 {
            return Err(MtkError::Protocol(final_status as u32));
        }
        Ok(())
    }

    /// `GetHwCode`: echoes the opcode, reads the hardware code and a
    /// little-endian status that must be zero.
    pub fn get_hw_code(&mut self) -> (r: Result<u32, MtkError>)
        requires
            old(self).wf(),
        ensures
            final(self).wf(),
            final(self).channel.incoming@ == old(self).channel.incoming@,
            final(self).connection_type == old(self).connection_type,
            final(self).baudrate == old(self).baudrate,
            r is Ok <==> {
                let rest = old(self).rest();
                &&& rest.len() >= 5
                &&& rest[0] == Command::GetHwCode.spec_code()
                &&& spec_u16_from_le_bytes(rest.subrange(3, 5)) == 0
            },
            r is Ok ==> {
                &&& r->Ok_0 == spec_u16_from_le_bytes(old(self).rest().subrange(1, 3)) as u32
                &&& final(self).channel.pos == old(self).channel.pos + 5
                &&& final(self).channel.outgoing@ == old(self).channel.outgoing@ + seq![
                    Command::GetHwCode.spec_code(),
                ]
            },
    {
        let ghost rest0 = self.rest();
        if let Err(e) = self.send_command(Command::GetHwCode) {
            return Err(e);
        }
        proof {
            assert(self.rest() =~= rest0.skip(1));
            assert(rest0.len() >= 3 ==> (self.rest().take(2) =~= rest0.subrange(1, 3)));
        }
        let hw_buf = match self.channel.read_exact(2) {
            Ok(b) => b,
            Err(e) => {
                return Err(e);
            },
        };
        proof {
            assert(self.rest() =~= rest0.skip(3));
            assert(rest0.len() >= 5 ==> (self.rest().take(2) =~= rest0.subrange(3, 5)));
        }
        let status_buf = match self.channel.read_exact(2) {
            Ok(b) => b,
            Err(e) => {
                return Err(e);
            },
        };
        let status = u16_from_le_bytes(status_buf.as_slice());
        if status != 0 {
            return Err(MtkError::Protocol(status as u32));
        }
        Ok(u16_from_le_bytes(hw_buf.as_slice()) as u32)
    }

    /// `GetHwSwVer`: echoes the opcode, reads hw_sub_code, hw_ver and
    /// sw_ver, then a little-endian status that must be zero.
    pub fn get_hw_sw_ver(&mut self) -> (r: Result<(u16, u16, u16), MtkError>)
        requires
            old(self).wf(),
        ensures
            final(self).wf(),
            final(self).channel.incoming@ == old(self).channel.incoming@,
            final(self).connection_type == old(self).connection_type,
            final(self).baudrate == old(self).baudrate,
            r is Ok <==> {
                let rest = old(self).rest();
                &&& rest.len() >= 9
                &&& rest[0] == Command::GetHwSwVer.spec_code()
                &&& spec_u16_from_le_bytes(rest.subrange(7, 9)) == 0
            },
            r is Ok ==> {
                let rest = old(self).rest();
                &&& r->Ok_0.0 == spec_u16_from_le_bytes(rest.subrange(1, 3))
                &&& r->Ok_0.1 == spec_u16_from_le_bytes(rest.subrange(3, 5))
                &&& r->Ok_0.2 == spec_u16_from_le_bytes(rest.subrange(5, 7))
                &&& final(self).channel.pos == old(self).channel.pos + 9
                &&& final(self).channel.outgoing@ == old(self).channel.outgoing@ + seq![
                    Command::GetHwSwVer.spec_code(),
                ]
            },
    {
        let ghost rest0 = self.rest();
        if let Err(e) = self.send_command(Command::GetHwSwVer) {
            return Err(e);
        }
        proof {
            assert(self.rest() =~= rest0.skip(1));
            assert(rest0.len() >= 3 ==> (self.rest().take(2) =~= rest0.subrange(1, 3)));
        }
        let sub_buf = match self.channel.read_exact(2) {
            Ok(b) => b,
            Err(e) => {
                return Err(e);
            },
        };
        proof {
            assert(self.rest() =~= rest0.skip(3));
            assert(rest0.len() >= 5 ==> (self.rest().take(2) =~= rest0.subrange(3, 5)));
        }
        let hw_buf = match self.channel.read_exact(2) {
            Ok(b) => b,
            Err(e) => {
                return Err(e);
            },
        };
        proof {
            assert(self.rest() =~= rest0.skip(5));
            assert(rest0.len() >= 7 ==> (self.rest().take(2) =~= rest0.subrange(5, 7)));
        }
        let sw_buf = match self.channel.read_exact(2) {
            Ok(b) => b,
            Err(e) => {
                return Err(e);
            },
        };
        proof {
            assert(self.rest() =~= rest0.skip(7));
            assert(rest0.len() >= 9 ==> (self.rest().take(2) =~= rest0.subrange(7, 9)));
        }
        let status_buf = match self.channel.read_exact(2) {
            Ok(b) => b,
            Err(e) => {
                return Err(e);
            },
        };
        let status = u16_from_le_bytes(status_buf.as_slice());
        if status != 0 {
            return Err(MtkError::Protocol(status as u32));
        }
        Ok(
            (
                u16_from_le_bytes(sub_buf.as_slice()),
                u16_from_le_bytes(hw_buf.as_slice()),
                u16_from_le_bytes(sw_buf.as_slice()),
            ),
        )
    }

    /// `GetSocId`: echoes the opcode, reads a big-endian length, that
    /// many identifier bytes, then a little-endian status that must be
    /// zero.
    pub fn get_soc_id(&mut self) -> (r: Result<Vec<u8>, MtkError>)
        requires
            old(self).wf(),
        ensures
            final(self).wf(),
            final(self).channel.incoming@ == old(self).channel.incoming@,
            final(self).connection_type == old(self).connection_type,
            final(self).baudrate == old(self).baudrate,
            r is Ok <==> {
                let rest = old(self).rest();
                &&& rest.len() >= 5
                &&& rest[0] == Command::GetSocId.spec_code()
                &&& {
                    let l = spec_u32_from_be_bytes(rest.subrange(1, 5)) as int;
                    &&& rest.len() >= 7 + l
                    &&& spec_u16_from_le_bytes(rest.subrange(5 + l, 7 + l)) == 0
                }
            },
            r is Ok ==> {
                let rest = old(self).rest();
                let l = spec_u32_from_be_bytes(rest.subrange(1, 5)) as int;
                &&& r->Ok_0@ == rest.subrange(5, 5 + l)
                &&& final(self).channel.pos == old(self).channel.pos + 7 + l
                &&& final(self).channel.outgoing@ == old(self).channel.outgoing@ + seq![
                    Command::GetSocId.spec_code(),
                ]
            },
    {
        self.read_id_command(Command::GetSocId)
    }

    /// `GetMeId`: same exchange as `GetSocId` under opcode `E1`.
    pub fn get_meid(&mut self) -> (r: Result<Vec<u8>, MtkError>)
        requires
            old(self).wf(),
        ensures
            final(self).wf(),
            final(self).channel.incoming@ == old(self).channel.incoming@,
            final(self).connection_type == old(self).connection_type,
            final(self).baudrate == old(self).baudrate,
            r is Ok <==> {
                let rest = old(self).rest();
                &&& rest.len() >= 5
                &&& rest[0] == Command::GetMeId.spec_code()
                &&& {
                    let l = spec_u32_from_be_bytes(rest.subrange(1, 5)) as int;
                    &&& rest.len() >= 7 + l
                    &&& spec_u16_from_le_bytes(rest.subrange(5 + l, 7 + l)) == 0
                }
            },
            r is Ok ==> {
                let rest = old(self).rest();
                let l = spec_u32_from_be_bytes(rest.subrange(1, 5)) as int;
                &&& r->Ok_0@ == rest.subrange(5, 5 + l)
                &&& final(self).channel.pos == old(self).channel.pos + 7 + l
                &&& final(self).channel.outgoing@ == old(self).channel.outgoing@ + seq![
                    Command::GetMeId.spec_code(),
                ]
            },
    {
        self.read_id_command(Command::GetMeId)
    }

    /// Shared body of `GetSocId` and `GetMeId`: opcode echo, big-endian
    /// length, payload, little-endian status.
    fn read_id_command(&mut self, cmd: Command) -> (r: Result<Vec<u8>, MtkError>)
        requires
            old(self).wf(),
        ensures
            final(self).wf(),
            final(self).channel.incoming@ == old(self).channel.incoming@,
            final(self).connection_type == old(self).connection_type,
            final(self).baudrate == old(self).baudrate,
            r is Ok <==> {
                let rest = old(self).rest();
                &&& rest.len() >= 5
                &&& rest[0] == cmd.spec_code()
                &&& {
                    let l = spec_u32_from_be_bytes(rest.subrange(1, 5)) as int;
                    &&& rest.len() >= 7 + l
                    &&& spec_u16_from_le_bytes(rest.subrange(5 + l, 7 + l)) == 0
                }
            },
            r is Ok ==> {
                let rest = old(self).rest();
                let l = spec_u32_from_be_bytes(rest.subrange(1, 5)) as int;
                &&& r->Ok_0@ == rest.subrange(5, 5 + l)
                &&& final(self).channel.pos == old(self).channel.pos + 7 + l
                &&& final(self).channel.outgoing@ == old(self).channel.outgoing@ + seq![
                    cmd.spec_code(),
                ]
            },
    {
        let ghost rest0 = self.rest();
        if let Err(e) = self.send_command(cmd) {
            return Err(e);
        }
        proof {
            assert(self.rest() =~= rest0.skip(1));
            assert(rest0.len() >= 5 ==> (self.rest().take(4) =~= rest0.subrange(1, 5)));
        }
        let len_buf = match self.channel.read_exact(4) {
            Ok(b) => b,
            Err(e) => {
                return Err(e);
            },
        };
        let length = u32_from_be_bytes(len_buf.as_slice());
        proof {
            assert(self.rest() =~= rest0.skip(5));
            assert(rest0.len() >= 5 + length ==> (self.rest().take(length as int) =~= rest0
                .subrange(5, 5 + length)));
        }
        let id = match self.channel.read_exact(length as usize) {
            Ok(b) => b,
            Err(e) => {
                return Err(e);
            },
        };
        proof {
            assert(self.rest() =~= rest0.skip(5 + length as int));
            assert(rest0.len() >= 7 + length ==> (self.rest().take(2) =~= rest0.subrange(
                5 + length as int,
                7 + length as int,
            )));
        }
        let status_buf = match self.channel.read_exact(2) {
            Ok(b) => b,
            Err(e) => {
                return Err(e);
            },
        };
        let status = u16_from_le_bytes(status_buf.as_slice());
        if status != 0 {
            return Err(MtkError::Protocol(status as u32));
        }
        Ok(id)
    }
}

} // verus!
