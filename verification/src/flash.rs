//! Partition read and write over the XFlash framed protocol.
//!
//! Both directions start with a 56-byte little-endian parameter block
//! `{storage_type, part_type, addr, size, nand_ext[8]=0}`; this stack
//! always addresses the eMMC USER region.  Reads collect framed
//! chunks, acknowledging each with a zero word and a status check.
//! Writes first normalise the payload to exactly `size` bytes, then
//! send each 0x2000-byte chunk as a zero word, its additive 16-bit
//! checksum, and the framed data.

use vstd::prelude::*;
use vstd::bytes::*;

use crate::checksum;
use crate::error::MtkError;
use crate::frame::{spec_frame, spec_frame_at};
use crate::sum_of_bytes;
use crate::xflash::{spec_devctrl_ack, spec_send_bytes, spec_status_at, Cmd, XFlash};

verus! {

/// The 56-byte parameter block: storage type, partition type, address
/// and size little-endian, then eight zero words of NAND extension.
pub open spec fn spec_flash_params(storage: u32, part: u32, addr: u64, size: u64) -> Seq<u8> {
    spec_u32_to_le_bytes(storage) + spec_u32_to_le_bytes(part) + spec_u64_to_le_bytes(addr)
        + spec_u64_to_le_bytes(size) + Seq::new(32, |i: int| 0u8)
}

/// The acknowledgement sent after each received chunk: a zero word as
/// a protocol-flow frame.
pub open spec fn spec_ack_frame() -> Seq<u8> {
    spec_send_bytes(0, 1)
}

/// `n` copies of `b`, concatenated.
pub open spec fn spec_repeat(b: Seq<u8>, n: int) -> Seq<u8>
    decreases n,
{
    if n <= 0 {
        Seq::empty()
    } else {
        spec_repeat(b, n - 1) + b
    }
}

/// The chunk loop of a flash read, at `pos` with `got` bytes already
/// collected: each frame's payload is appended; an empty payload ends
/// the read; after each non-empty chunk an acknowledgement is owed
/// and a status read, a non-zero status or reaching `size` ending the
/// read.  Yields the collected bytes, the cursor, and the number of
/// acknowledgements owed.
pub open spec fn spec_read_chunks(s: Seq<u8>, pos: int, got: int, size: int) -> Option<
    (Seq<u8>, int, int),
>
    decreases s.len() - pos,
{
    match spec_frame_at(s, pos) {
        None => None,
        Some((dtype, chunk, p1)) => if chunk.len() == 0 {
            Some((Seq::empty(), p1, 0))
        } else {
            match spec_status_at(s, p1) {
                None => None,
                Some((st, p2)) => if st != 0 || got + chunk.len() >= size {
                    Some((chunk, p2, 1))
                } else if pos < p2 <= s.len() {
                    match spec_read_chunks(s, p2, got + chunk.len(), size) {
                        None => None,
                        Some((rest, p3, n)) => Some((chunk + rest, p3, n + 1)),
                    }
                } else {
                    None
                },
            }
        },
    }
}

/// Builds the 56-byte eMMC USER parameter block.
fn flash_params(addr: u64, size: u64) -> (r: Vec<u8>)
    ensures
        r@ == spec_flash_params(1, 8, addr, size),
        r@.len() == 56,
{
    proof {
        lemma_auto_spec_u32_to_from_le_bytes();
        lemma_auto_spec_u64_to_from_le_bytes();
    }
    let mut param = u32_to_le_bytes(1);
    let mut w = u32_to_le_bytes(8);
    param.append(&mut w);
    let mut w = u64_to_le_bytes(addr);
    param.append(&mut w);
    let mut w = u64_to_le_bytes(size);
    param.append(&mut w);
    let mut i: usize = 0;
    while i < 32
        invariant
            param@ == spec_u32_to_le_bytes(1) + spec_u32_to_le_bytes(8) + spec_u64_to_le_bytes(
                addr,
            ) + spec_u64_to_le_bytes(size) + Seq::new(i as nat, |j: int| 0u8),
            i <= 32,
        decreases 32 - i,
    {
        param.push(0);
        proof {
            assert(param@ =~= spec_u32_to_le_bytes(1) + spec_u32_to_le_bytes(8)
                + spec_u64_to_le_bytes(addr) + spec_u64_to_le_bytes(size) + Seq::new(
                (i + 1) as nat,
                |j: int| 0u8,
            ));
        }
        i = i + 1;
    }
    proof {
        assert(param@ =~= spec_flash_params(1, 8, addr, size));
    }
    param
}

/// Full contract of a flash read at `pos` of the incoming stream:
/// relates the result, the cursor and the written bytes to the two
/// status words and the chunk loop.
pub open spec fn spec_read_flash_post(
    inc: Seq<u8>,
    pos: int,
    addr: u64,
    size: int,
    r: Result<Vec<u8>, MtkError>,
    out0: Seq<u8>,
    out1: Seq<u8>,
    pos1: int,
) -> bool {
    match spec_status_at(inc, pos) {
        None => r is Err,
        Some((st1, p1)) => if st1 != 0 {
            r == Result::<Vec<u8>, MtkError>::Err(MtkError::Protocol(st1))
        } else {
            match spec_status_at(inc, p1) {
                None => r is Err,
                Some((st2, p2)) => if st2 != 0 {
                    r == Result::<Vec<u8>, MtkError>::Err(MtkError::Protocol(st2))
                } else {
                    match spec_read_chunks(inc, p2, 0, size) {
                        None => r is Err,
                        Some((buf, p3, n)) => {
                            &&& r is Ok
                            &&& r->Ok_0@ == buf
                            &&& pos1 == p3
                            &&& out1 == out0 + spec_send_bytes(Cmd::ReadData.spec_code(), 1)
                                + spec_frame(1, spec_flash_params(1, 8, addr, size as u64))
                                + spec_repeat(spec_ack_frame(), n)
                        },
                    }
                },
            }
        },
    }
}

/// Reads `size` bytes of flash at `addr` from the eMMC USER region:
/// `ReadData` and the parameters each acknowledged by a zero status,
/// then the chunk loop of [`spec_read_chunks`], each chunk
/// acknowledged with a zero word.
pub fn read_flash(xflash: &mut XFlash, addr: u64, size: usize) -> (r: Result<Vec<u8>, MtkError>)
    requires
        old(xflash).wf(),
    ensures
        final(xflash).wf(),
        old(xflash).same_config(*final(xflash)),
        spec_read_flash_post(
            old(xflash).inc(),
            old(xflash).pos(),
            addr,
            size as int,
            r,
            old(xflash).out(),
            final(xflash).out(),
            final(xflash).pos(),
        ),
{
    let param = flash_params(addr, size as u64);
    if let Err(e) = xflash.send_cmd(Cmd::ReadData) {
        return Err(e);
    }
    let status = match xflash.get_status() {
        Ok(st) => st,
        Err(e) => {
            return Err(e);
        },
    };
    if status != 0 {
        return Err(MtkError::Protocol(status));
    }
    if let Err(e) = xflash.send_data(param.as_slice()) {
        return Err(e);
    }
    let ghost inc = xflash.inc();
    let ghost p_loop = xflash.pos();
    let ghost out_base = xflash.out();
    let mut buffer: Vec<u8> = Vec::new();
    let mut bytes_read: usize = 0;
    let ghost mut acks: int = 0;
    loop
        invariant_except_break
            ({
                &&& spec_status_at(old(xflash).inc(), old(xflash).pos()) matches Some((st1, p1))
                    && st1 == 0 && (spec_status_at(old(xflash).inc(), p1) matches Some((st2, p2))
                    && st2 == 0 && p2 == p_loop)
            }),
            inc == old(xflash).inc(),
            out_base == old(xflash).out() + spec_send_bytes(Cmd::ReadData.spec_code(), 1)
                + spec_frame(1, spec_flash_params(1, 8, addr, size as u64)),
            xflash.wf(),
            old(xflash).same_config(*xflash),
            inc == xflash.inc(),
            bytes_read == buffer@.len(),
            acks >= 0,
            xflash.out() == out_base + spec_repeat(spec_ack_frame(), acks),
            spec_read_chunks(inc, p_loop, 0, size as int) == (match spec_read_chunks(
                inc,
                xflash.pos(),
                bytes_read as int,
                size as int,
            ) {
                Some((rest, pe, m)) => Some((buffer@ + rest, pe, acks + m)),
                None => None::<(Seq<u8>, int, int)>,
            }),
        ensures
            ({
                &&& spec_status_at(old(xflash).inc(), old(xflash).pos()) matches Some((st1, p1))
                    && st1 == 0 && (spec_status_at(old(xflash).inc(), p1) matches Some((st2, p2))
                    && st2 == 0 && p2 == p_loop)
            }),
            inc == old(xflash).inc(),
            out_base == old(xflash).out() + spec_send_bytes(Cmd::ReadData.spec_code(), 1)
                + spec_frame(1, spec_flash_params(1, 8, addr, size as u64)),
            xflash.wf(),
            old(xflash).same_config(*xflash),
            inc == xflash.inc(),
            (spec_read_chunks(inc, p_loop, 0, size as int) matches Some((total, pe, n))
                && buffer@ == total && xflash.pos() == pe && xflash.out() == out_base
                + spec_repeat(spec_ack_frame(), n)),
        decreases inc.len() - xflash.pos(),
    {
        let ghost p_iter = xflash.pos();
        let ghost got = bytes_read as int;
        let ghost buf0 = buffer@;
        let ghost acks0 = acks;
        let chunk = match xflash.read_data() {
            Ok(c) => c,
            Err(e) => {
                proof {
                    assert(spec_frame_at(inc, p_iter) is None);
                    assert(spec_read_chunks(inc, p_iter, got, size as int) is None);
                }
                return Err(e);
            },
        };
        proof {
            assert(spec_frame_at(inc, p_iter) is Some);
        }
        let ghost p_after_chunk = xflash.pos();
        if chunk.len() == 0 {
            proof {
                assert(spec_read_chunks(inc, p_iter, got, size as int) == Some((
                    Seq::<u8>::empty(),
                    xflash.pos(),
                    0int,
                )));
                assert(buf0 + Seq::<u8>::empty() =~= buf0);
            }
            break ;
        }
        let mut c = chunk;
        let ghost chunk_view = c@;
        buffer.append(&mut c);
        if let Err(e) = xflash.send(0, 1) {
            return Err(e);
        }
        proof {
            assert(out_base + spec_repeat(spec_ack_frame(), acks0) + spec_ack_frame() =~= out_base
                + spec_repeat(spec_ack_frame(), acks0 + 1));
            acks = acks + 1;
        }
        let status = match xflash.get_status() {
            Ok(st) => st,
            Err(e) => {
                proof {
                    assert(spec_status_at(inc, p_after_chunk) is None);
                    assert(spec_read_chunks(inc, p_iter, got, size as int) is None);
                }
                return Err(e);
            },
        };
        bytes_read = buffer.len();
        if status != 0 || bytes_read >= size {
            proof {
                assert(spec_read_chunks(inc, p_iter, got, size as int) == Some((
                    chunk_view,
                    xflash.pos(),
                    1int,
                )));
                assert(buf0 + chunk_view =~= buffer@);
            }
            break ;
        }
        proof {
            assert(got + chunk_view.len() < size);
            assert(spec_read_chunks(inc, p_iter, got, size as int) == (match spec_read_chunks(
                inc,
                xflash.pos(),
                got + chunk_view.len(),
                size as int,
            ) {
                Some((rest, pe, m)) => Some((chunk_view + rest, pe, m + 1)),
                None => None::<(Seq<u8>, int, int)>,
            }));
            assert(forall|rest: Seq<u8>| buf0 + (chunk_view + rest) =~= (buf0 + chunk_view)
                + rest);
        }
    }
    Ok(buffer)
}

/// The payload normalised to exactly `size` bytes: truncated, or
/// zero-padded at the end.
pub open spec fn spec_normalized(data: Seq<u8>, size: int) -> Seq<u8> {
    if data.len() >= size {
        data.take(size)
    } else {
        data + Seq::new((size - data.len()) as nat, |i: int| 0u8)
    }
}

/// Number of 0x2000-byte chunks a payload of `len` bytes is sent in.
pub open spec fn spec_num_chunks(len: int) -> int
    decreases len,
{
    if len <= 0 {
        0
    } else if len <= 0x2000 {
        1
    } else {
        1 + spec_num_chunks(len - 0x2000)
    }
}

/// Everything the chunk loop of a flash write sends: per 0x2000-byte
/// chunk, a zero word, the chunk's additive 16-bit checksum, and the
/// chunk itself as a framed payload.
pub open spec fn spec_write_chunks_tx(d: Seq<u8>) -> Seq<u8>
    decreases d.len(),
{
    if d.len() == 0 {
        Seq::empty()
    } else {
        let c = if d.len() > 0x2000 {
            d.take(0x2000)
        } else {
            d
        };
        spec_send_bytes(0, 1) + spec_send_bytes((sum_of_bytes(c) % 0x10000) as u32, 1)
            + spec_frame(1, c) + spec_write_chunks_tx(d.skip(c.len() as int))
    }
}

/// A chunk count is never negative.
pub proof fn lemma_num_chunks_nonneg(len: int)
    ensures
        spec_num_chunks(len) >= 0,
    decreases len,
{
    if len > 0x2000 {
        lemma_num_chunks_nonneg(len - 0x2000);
    }
}

/// Cursor past `n` zero statuses, or `None` when one is missing or
/// non-zero.
pub open spec fn spec_write_statuses(s: Seq<u8>, pos: int, n: int) -> Option<int>
    decreases n,
{
    if n <= 0 {
        Some(pos)
    } else {
        match spec_status_at(s, pos) {
            Some((st, p)) => if st == 0 {
                spec_write_statuses(s, p, n - 1)
            } else {
                None
            },
            None => None,
        }
    }
}

/// Full contract of a flash write at `pos` of the incoming stream:
/// relates the result, the cursor and the written bytes to the two
/// opening statuses, the per-chunk statuses, and the closing status.
pub open spec fn spec_write_flash_post(
    inc: Seq<u8>,
    pos: int,
    addr: u64,
    size: int,
    data: Seq<u8>,
    r: Result<(), MtkError>,
    out0: Seq<u8>,
    out1: Seq<u8>,
    pos1: int,
) -> bool {
    match spec_status_at(inc, pos) {
        None => r is Err,
        Some((st1, p1)) => if st1 != 0 {
            r == Result::<(), MtkError>::Err(MtkError::Protocol(st1))
        } else {
            match spec_status_at(inc, p1) {
                None => r is Err,
                Some((st2, p2)) => if st2 != 0 {
                    r == Result::<(), MtkError>::Err(MtkError::Protocol(st2))
                } else {
                    match spec_write_statuses(inc, p2, spec_num_chunks(size)) {
                        None => r is Err,
                        Some(p3) => match spec_status_at(inc, p3) {
                            None => r is Err,
                            Some((stf, p4)) => if stf != 0 {
                                r == Result::<(), MtkError>::Err(MtkError::Protocol(stf))
                            } else {
                                &&& r is Ok
                                &&& pos1 == p4
                                &&& out1 == out0 + spec_send_bytes(
                                    Cmd::WriteData.spec_code(),
                                    1,
                                ) + spec_frame(1, spec_flash_params(1, 8, addr, size as u64))
                                    + spec_write_chunks_tx(spec_normalized(data, size))
                            },
                        },
                    }
                },
            }
        },
    }
}

/// Writes `size` bytes of flash at `addr` in the eMMC USER region.
/// The payload is first normalised to exactly `size` bytes.  After
/// `WriteData` and the parameters are each acknowledged by a zero
/// status, every 0x2000-byte chunk is sent as a zero word, its
/// additive checksum and the framed data, each chunk acknowledged by
/// a zero status, with one final zero status closing the write.
#[verifier::rlimit(100)]
pub fn write_flash(xflash: &mut XFlash, addr: u64, size: usize, data: &[u8]) -> (r: Result<
    (),
    MtkError,
>)
    requires
        old(xflash).wf(),
    ensures
        final(xflash).wf(),
        old(xflash).same_config(*final(xflash)),
        spec_write_flash_post(
            old(xflash).inc(),
            old(xflash).pos(),
            addr,
            size as int,
            data@,
            r,
            old(xflash).out(),
            final(xflash).out(),
            final(xflash).pos(),
        ),
{
    let mut actual: Vec<u8> = vstd::slice::slice_to_vec(data);
    if actual.len() < size {
        actual.resize(size, 0);
    } else if actual.len() > size {
        actual.truncate(size);
    }
    proof {
        assert(actual@ =~= spec_normalized(data@, size as int));
    }
    let param = flash_params(addr, size as u64);
    if let Err(e) = xflash.send_cmd(Cmd::WriteData) {
        return Err(e);
    }
    let status = match xflash.get_status() {
        Ok(st) => st,
        Err(e) => {
            return Err(e);
        },
    };
    if status != 0 {
        return Err(MtkError::Protocol(status));
    }
    if let Err(e) = xflash.send_data(param.as_slice()) {
        return Err(e);
    }
    let ghost inc = xflash.inc();
    let ghost p_loop = xflash.pos();
    let ghost out_base = xflash.out();
    let mut pos_idx: usize = 0;
    let ghost mut txd: Seq<u8> = Seq::empty();
    proof {
        assert(actual@.skip(0) =~= actual@);
        assert(Seq::<u8>::empty() + spec_write_chunks_tx(actual@) =~= spec_write_chunks_tx(
            actual@,
        ));
    }
    while pos_idx < actual.len()
        invariant
            ({
                &&& spec_status_at(old(xflash).inc(), old(xflash).pos()) matches Some((st1, p1))
                    && st1 == 0 && (spec_status_at(old(xflash).inc(), p1) matches Some((st2, p2))
                    && st2 == 0 && p2 == p_loop)
            }),
            inc == old(xflash).inc(),
            out_base == old(xflash).out() + spec_send_bytes(Cmd::WriteData.spec_code(), 1)
                + spec_frame(1, spec_flash_params(1, 8, addr, size as u64)),
            xflash.wf(),
            old(xflash).same_config(*xflash),
            inc == xflash.inc(),
            actual@ == spec_normalized(data@, size as int),
            actual@.len() == size,
            pos_idx <= size,
            xflash.out() == out_base + txd,
            spec_write_chunks_tx(actual@) == txd + spec_write_chunks_tx(
                actual@.skip(pos_idx as int),
            ),
            spec_write_statuses(inc, p_loop, spec_num_chunks(size as int))
                == spec_write_statuses(
                inc,
                xflash.pos(),
                spec_num_chunks(size - pos_idx),
            ),
        decreases actual@.len() - pos_idx,
    {
        let packet_end: usize = if actual.len() - pos_idx > 0x2000 {
            pos_idx + 0x2000
        } else {
            actual.len()
        };
        let ghost rem = actual@.skip(pos_idx as int);
        let ghost c_spec = if rem.len() > 0x2000 {
            rem.take(0x2000)
        } else {
            rem
        };
        let ghost p_iter = xflash.pos();
        let ghost txd0 = txd;
        let chunk = &actual[pos_idx..packet_end];
        proof {
            assert(chunk@ =~= c_spec);
        }
        let cksum = checksum(chunk);
        if let Err(e) = xflash.send(0, 1) {
            return Err(e);
        }
        if let Err(e) = xflash.send(cksum as u32, 1) {
            return Err(e);
        }
        proof {
            assert(spec_write_statuses(inc, p_iter, spec_num_chunks(size - pos_idx)) is None
                ==> spec_write_statuses(inc, p_loop, spec_num_chunks(size as int)) is None);
        }
        if let Err(e) = xflash.send_data(chunk) {
            return Err(e);
        }
        proof {
            txd = txd0 + spec_send_bytes(0, 1) + spec_send_bytes(
                (sum_of_bytes(c_spec) % 0x10000) as u32,
                1,
            ) + spec_frame(1, c_spec);
            assert(out_base + txd0 + spec_send_bytes(0, 1) + spec_send_bytes(
                (sum_of_bytes(c_spec) % 0x10000) as u32,
                1,
            ) + spec_frame(1, c_spec) =~= out_base + txd);
            assert(rem.skip(c_spec.len() as int) =~= actual@.skip(packet_end as int));
            assert(txd0 + (spec_send_bytes(0, 1) + spec_send_bytes(
                (sum_of_bytes(c_spec) % 0x10000) as u32,
                1,
            ) + spec_frame(1, c_spec) + spec_write_chunks_tx(actual@.skip(packet_end as int)))
                =~= txd + spec_write_chunks_tx(actual@.skip(packet_end as int)));
            lemma_num_chunks_nonneg(size - packet_end);
            assert(spec_num_chunks(size - pos_idx) == 1 + spec_num_chunks(size - packet_end));
            assert(spec_num_chunks(size - pos_idx) >= 1);
            assert(spec_write_statuses(inc, p_iter, spec_num_chunks(size - pos_idx))
                == spec_write_statuses(inc, xflash.pos(), spec_num_chunks(size - packet_end)));
        }
        pos_idx = packet_end;
    }
    proof {
        assert(actual@.skip(size as int) =~= Seq::<u8>::empty());
        assert(txd + spec_write_chunks_tx(Seq::<u8>::empty()) =~= txd);
        assert(txd =~= spec_write_chunks_tx(actual@));
    }
    let status = match xflash.get_status() {
        Ok(st) => st,
        Err(e) => {
            return Err(e);
        },
    };
    if status != 0 {
        return Err(MtkError::Protocol(status));
    }
    proof {
        assert(old(xflash).out() + spec_send_bytes(Cmd::WriteData.spec_code(), 1) + spec_frame(
            1,
            spec_flash_params(1, 8, addr, size as u64),
        ) + spec_write_chunks_tx(spec_normalized(data@, size as int)) =~= out_base + txd);
    }
    Ok(())
}

} // verus!
