//! XFlash frame codec.
//!
//! Once the Download Agent is running, all traffic is framed: a 12-byte
//! little-endian header `{magic, data_type, length}` followed by exactly
//! `length` payload bytes.  The magic word is `0xFEEEEEFE`; data type 1
//! marks a protocol-flow message.

use vstd::prelude::*;
use vstd::bytes::*;

use crate::error::MtkError;
use crate::wire::Channel;

verus! {

/// Frame-start sentinel of the XFlash protocol.
pub const FRAME_MAGIC: u32 = 0xFEEEEEFE;

/// Data type of protocol-flow frames.
pub const DT_PROTOCOL_FLOW: u32 = 1;

/// The 12-byte header: magic, data type and payload length, each as a
/// little-endian u32.
pub open spec fn spec_frame_header(magic: u32, dtype: u32, len: u32) -> Seq<u8> {
    spec_u32_to_le_bytes(magic) + spec_u32_to_le_bytes(dtype) + spec_u32_to_le_bytes(len)
}

/// A full frame whose header announces exactly the payload's length,
/// under the given magic.
pub open spec fn spec_frame_raw(magic: u32, dtype: u32, len: u32, payload: Seq<u8>) -> Seq<u8> {
    spec_frame_header(magic, dtype, len) + payload
}

/// A well-formed frame: correct magic, length equal to the payload's.
pub open spec fn spec_frame(dtype: u32, payload: Seq<u8>) -> Seq<u8> {
    spec_frame_raw(FRAME_MAGIC, dtype, payload.len() as u32, payload)
}

/// Decodes a stand-alone frame: requires at least 12 bytes, the frame
/// magic, and a header length that matches the remaining bytes exactly.
pub open spec fn spec_decode_frame(s: Seq<u8>) -> Option<(u32, u32, Seq<u8>)> {
    if s.len() < 12 {
        None
    } else {
        let magic = spec_u32_from_le_bytes(s.subrange(0, 4));
        let dtype = spec_u32_from_le_bytes(s.subrange(4, 8));
        let len = spec_u32_from_le_bytes(s.subrange(8, 12));
        if magic == FRAME_MAGIC && s.len() == 12 + len {
            Some((dtype, len, s.skip(12)))
        } else {
            None
        }
    }
}

/// Encoding then decoding recovers `{magic, dtype, len, payload}` if
/// and only if the magic is the frame sentinel and the announced length
/// equals the payload's length.
pub proof fn lemma_frame_round_trip(magic: u32, dtype: u32, len: u32, payload: Seq<u8>)
    ensures
        (magic == FRAME_MAGIC && len == payload.len()) ==> spec_decode_frame(
            spec_frame_raw(magic, dtype, len, payload),
        ) == Some((dtype, len, payload)),
        (magic != FRAME_MAGIC || len != payload.len()) ==> spec_decode_frame(
            spec_frame_raw(magic, dtype, len, payload),
        ) is None,
{
    lemma_auto_spec_u32_to_from_le_bytes();
    let s = spec_frame_raw(magic, dtype, len, payload);
    assert(s.subrange(0, 4) =~= spec_u32_to_le_bytes(magic));
    assert(s.subrange(4, 8) =~= spec_u32_to_le_bytes(dtype));
    assert(s.subrange(8, 12) =~= spec_u32_to_le_bytes(len));
    assert(s.skip(12) =~= payload);
}

/// Builds the 12-byte header for the given magic, data type and length.
pub fn encode_frame_header(magic: u32, dtype: u32, len: u32) -> (r: Vec<u8>)
    ensures
        r@ == spec_frame_header(magic, dtype, len),
        r@.len() == 12,
{
    proof {
        lemma_auto_spec_u32_to_from_le_bytes();
    }
    let mut hdr = u32_to_le_bytes(magic);
    let mut d = u32_to_le_bytes(dtype);
    let mut l = u32_to_le_bytes(len);
    hdr.append(&mut d);
    hdr.append(&mut l);
    hdr
}

/// Builds a well-formed frame around the payload.
pub fn encode_frame(dtype: u32, payload: &[u8]) -> (r: Vec<u8>)
    requires
        payload@.len() <= u32::MAX,
    ensures
        r@ == spec_frame(dtype, payload@),
{
    let mut r = encode_frame_header(FRAME_MAGIC, dtype, payload.len() as u32);
    let mut p: Vec<u8> = Vec::new();
    p.extend_from_slice(payload);
    r.append(&mut p);
    r
}

/// Decodes a stand-alone frame, mirroring [`spec_decode_frame`]:
/// `Framing` for a wrong magic or a length that disagrees with the
/// byte count, `Io` for fewer than 12 bytes.
pub fn decode_frame(data: &[u8]) -> (r: Result<(u32, u32, Vec<u8>), MtkError>)
    ensures
        match spec_decode_frame(data@) {
            Some((dtype, len, payload)) => {
                &&& r is Ok
                &&& r->Ok_0.0 == dtype
                &&& r->Ok_0.1 == len
                &&& r->Ok_0.2@ == payload
            },
            None => r is Err,
        },
        data@.len() < 12 ==> r == Result::<(u32, u32, Vec<u8>), MtkError>::Err(MtkError::Io),
        (data@.len() >= 12 && spec_decode_frame(data@) is None) ==> r == Result::<
            (u32, u32, Vec<u8>),
            MtkError,
        >::Err(MtkError::Framing),
{
    if data.len() < 12 {
        return Err(MtkError::Io);
    }
    let magic = u32_from_le_bytes(&data[0..4]);
    let dtype = u32_from_le_bytes(&data[4..8]);
    let len = u32_from_le_bytes(&data[8..12]);
    if magic != FRAME_MAGIC {
        return Err(MtkError::Framing);
    }
    if len as usize != data.len() - 12 {
        return Err(MtkError::Framing);
    }
    let mut payload: Vec<u8> = Vec::new();
    payload.extend_from_slice(&data[12..data.len()]);
    proof {
        assert(payload@ =~= data@.skip(12));
    }
    Ok((dtype, len, payload))
}

/// The next frame available on the incoming stream at `pos`: its data
/// type, payload, and the cursor past it.  `None` when fewer than 12
/// header bytes remain, the magic is wrong, or the payload is short.
pub open spec fn spec_frame_at(s: Seq<u8>, pos: int) -> Option<(u32, Seq<u8>, int)> {
    if pos + 12 <= s.len() {
        let magic = spec_u32_from_le_bytes(s.subrange(pos, pos + 4));
        let dtype = spec_u32_from_le_bytes(s.subrange(pos + 4, pos + 8));
        let len = spec_u32_from_le_bytes(s.subrange(pos + 8, pos + 12));
        if magic == FRAME_MAGIC && pos + 12 + len <= s.len() {
            Some((dtype, s.subrange(pos + 12, pos + 12 + len), pos + 12 + len))
        } else {
            None
        }
    } else {
        None
    }
}

/// Reads one frame from the transcript: the 12-byte header, a magic
/// check, then exactly the announced payload.
pub fn read_frame(ch: &mut Channel) -> (r: Result<(u32, Vec<u8>), MtkError>)
    requires
        old(ch).wf(),
    ensures
        final(ch).wf(),
        final(ch).incoming@ == old(ch).incoming@,
        final(ch).outgoing@ == old(ch).outgoing@,
        match spec_frame_at(old(ch).incoming@, old(ch).pos as int) {
            Some((dtype, payload, new_pos)) => {
                &&& r is Ok
                &&& r->Ok_0.0 == dtype
                &&& r->Ok_0.1@ == payload
                &&& final(ch).pos == new_pos
            },
            None => {
                &&& r is Err
                &&& final(ch).pos >= old(ch).pos
            },
        },
{
    let ghost s = ch.incoming@;
    let ghost p0 = ch.pos as int;
    let hdr = match ch.read_exact(12) {
        Ok(h) => h,
        Err(e) => {
            return Err(e);
        },
    };
    proof {
        assert(hdr@.subrange(0, 4) =~= s.subrange(p0, p0 + 4));
        assert(hdr@.subrange(4, 8) =~= s.subrange(p0 + 4, p0 + 8));
        assert(hdr@.subrange(8, 12) =~= s.subrange(p0 + 8, p0 + 12));
    }
    let magic = u32_from_le_bytes(&hdr[0..4]);
    let dtype = u32_from_le_bytes(&hdr[4..8]);
    let len = u32_from_le_bytes(&hdr[8..12]);
    if magic != FRAME_MAGIC {
        return Err(MtkError::Framing);
    }
    let payload = match ch.read_exact(len as usize) {
        Ok(d) => d,
        Err(e) => {
            return Err(e);
        },
    };
    proof {
        assert(payload@ =~= s.subrange(p0 + 12, p0 + 12 + len));
    }
    Ok((dtype, payload))
}

/// Status word carried by a reply frame, interpreted by payload width:
/// a 2-byte payload as little-endian u16; a 4-byte payload as
/// little-endian u32, where the frame magic itself counts as success;
/// otherwise the first 4 bytes as u32, a lone first byte, or `0xFFFFFFFF`
/// for an empty payload.
pub open spec fn spec_status_of(payload: Seq<u8>) -> u32 {
    if payload.len() == 2 {
        spec_u16_from_le_bytes(payload) as u32
    } else if payload.len() == 4 {
        let v = spec_u32_from_le_bytes(payload);
        if v == FRAME_MAGIC {
            0
        } else {
            v
        }
    } else if payload.len() >= 4 {
        spec_u32_from_le_bytes(payload.subrange(0, 4))
    } else if payload.len() >= 1 {
        payload[0] as u32
    } else {
        0xFFFFFFFFu32
    }
}

/// Interprets a reply payload as a status word.
pub fn status_of(payload: &Vec<u8>) -> (r: u32)
    ensures
        r == spec_status_of(payload@),
{
    if payload.len() == 2 {
        proof {
            assert(payload@.subrange(0, 2) =~= payload@);
        }
        u16_from_le_bytes(&payload[0..2]) as u32
    } else if payload.len() == 4 {
        proof {
            assert(payload@.subrange(0, 4) =~= payload@);
        }
        let v = u32_from_le_bytes(&payload[0..4]);
        if v == FRAME_MAGIC {
            0
        } else {
            v
        }
    } else if payload.len() >= 4 {
        u32_from_le_bytes(&payload[0..4])
    } else if payload.len() >= 1 {
        payload[0] as u32
    } else {
        0xFFFFFFFFu32
    }
}

} // verus!
