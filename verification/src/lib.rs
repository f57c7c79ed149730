//! Verified core of a host-side MediaTek device servicing stack.
//!
//! The library models the layered communication protocol spoken with a
//! MediaTek SoC over USB: the BROM/preloader command set, the Download
//! Agent (DA) container format, the XFlash framed protocol, the DA
//! extension patcher, GPT parsing, and the seccfg lock-state codec.
//! All byte-level framing, parsing and decision logic is verified; the
//! physical transport is left to the embedding application, which pumps
//! bytes between a real port and the [`wire::Channel`] transcript that
//! the verified drivers run against.

pub mod bigend;
pub mod command;
pub mod connection;
pub mod crypto;
pub mod da;
pub mod device;
pub mod error;
pub mod exts;
pub mod flash;
pub mod frame;
pub mod seccfg;
pub mod storage;
pub mod utilities;
pub mod wire;
pub mod xflash;

use vstd::prelude::*;

verus! {

/// Additive 16-bit checksum used by the XFlash write path: the sum of
/// all bytes, taken modulo 0x10000.
pub open spec fn sum_of_bytes(s: Seq<u8>) -> int
    decreases s.len(),
{
    if s.len() == 0 {
        0
    } else {
        sum_of_bytes(s.drop_last()) + s.last()
    }
}

/// Computes the XFlash additive checksum: the sum of the chunk's bytes
/// modulo 0x10000, over unsigned bytes.
pub fn checksum(data: &[u8]) -> (r: u16)
    ensures
        r == sum_of_bytes(data@) % 0x10000,
{
    let mut acc: u32 = 0;
    let mut i: usize = 0;
    while i < data.len()
        invariant
            i <= data@.len(),
            acc == sum_of_bytes(data@.take(i as int)) % 0x10000,
        decreases data@.len() - i,
    {
        proof {
            assert(data@.take(i + 1).drop_last() =~= data@.take(i as int));
            assert(data@.take(i + 1).last() == data@[i as int]);
            vstd::arithmetic::div_mod::lemma_add_mod_noop(
                sum_of_bytes(data@.take(i as int)),
                data@[i as int] as int,
                0x10000,
            );
            vstd::arithmetic::div_mod::lemma_mod_twice(data@[i as int] as int, 0x10000);
        }
        acc = (acc + data[i] as u32) % 0x10000;
        i = i + 1;
    }
    proof {
        assert(data@.take(data@.len() as int) =~= data@);
    }
    acc as u16
}

} // verus!
