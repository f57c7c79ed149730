//! Big-endian integer codecs.
//!
//! The preloader protocol is not uniform: `SendDa` carries its three
//! u32 fields and both status words big-endian, and the `GetSocId` /
//! `GetMeId` length prefix is a big-endian u32, while everything else
//! on the wire is little-endian.

use vstd::prelude::*;

verus! {

/// The two bytes of `x`, most significant first.
pub open spec fn spec_u16_to_be_bytes(x: u16) -> Seq<u8> {
    seq![((x >> 8) & 0xff) as u8, (x & 0xff) as u8]
}

/// The big-endian u16 read from two bytes.
pub open spec fn spec_u16_from_be_bytes(s: Seq<u8>) -> u16
    recommends
        s.len() == 2,
{
    (((s[0] as u16) << 8) | (s[1] as u16)) as u16
}

/// The four bytes of `x`, most significant first.
pub open spec fn spec_u32_to_be_bytes(x: u32) -> Seq<u8> {
    seq![
        ((x >> 24) & 0xff) as u8,
        ((x >> 16) & 0xff) as u8,
        ((x >> 8) & 0xff) as u8,
        (x & 0xff) as u8,
    ]
}

/// The big-endian u32 read from four bytes.
pub open spec fn spec_u32_from_be_bytes(s: Seq<u8>) -> u32
    recommends
        s.len() == 4,
{
    (((s[0] as u32) << 24) | ((s[1] as u32) << 16) | ((s[2] as u32) << 8) | (s[3] as u32)) as u32
}

/// Encodes a u16 big-endian.
pub fn u16_to_be_bytes(x: u16) -> (r: Vec<u8>)
    ensures
        r@ == spec_u16_to_be_bytes(x),
        r@.len() == 2,
{
    let mut r: Vec<u8> = Vec::new();
    r.push(((x >> 8) & 0xff) as u8);
    r.push((x & 0xff) as u8);
    proof {
        assert(r@ =~= spec_u16_to_be_bytes(x));
    }
    r
}

/// Decodes a big-endian u16.
pub fn u16_from_be_bytes(s: &[u8]) -> (r: u16)
    requires
        s@.len() == 2,
    ensures
        r == spec_u16_from_be_bytes(s@),
{
    ((s[0] as u16) << 8) | (s[1] as u16)
}

/// Encodes a u32 big-endian.
pub fn u32_to_be_bytes(x: u32) -> (r: Vec<u8>)
    ensures
        r@ == spec_u32_to_be_bytes(x),
        r@.len() == 4,
{
    let mut r: Vec<u8> = Vec::new();
    r.push(((x >> 24) & 0xff) as u8);
    r.push(((x >> 16) & 0xff) as u8);
    r.push(((x >> 8) & 0xff) as u8);
    r.push((x & 0xff) as u8);
    proof {
        assert(r@ =~= spec_u32_to_be_bytes(x));
    }
    r
}

/// Decodes a big-endian u32.
pub fn u32_from_be_bytes(s: &[u8]) -> (r: u32)
    requires
        s@.len() == 4,
    ensures
        r == spec_u32_from_be_bytes(s@),
{
    ((s[0] as u32) << 24) | ((s[1] as u32) << 16) | ((s[2] as u32) << 8) | (s[3] as u32)
}

} // verus!
