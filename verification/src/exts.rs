//! DA extension support: pattern-based patching of the DA2 image and
//! the extension register-access commands.
//!
//! The extension payload is a precompiled ARM image carrying sentinel
//! words `0x11111111 … 0x77777777`.  DA2 is scanned for the byte
//! signatures of the routines the payload needs; each discovered file
//! offset is rebased to device memory (`offset + da2.addr`) with the
//! Thumb bit set, and written over the matching sentinel.  Unresolved
//! symbols are written as zero.  The patched payload is booted at
//! `0x68000000` and must acknowledge with `0xA1A2A3A4`.

use vstd::prelude::*;
use vstd::bytes::*;
use vstd::slice::slice_to_vec;

use crate::error::MtkError;
use crate::frame::{read_frame, spec_frame_at};
use crate::utilities::{bytes_equal, find_pattern, spec_find};
use crate::xflash::{
    spec_boot_to_accepts, spec_boot_to_tx, spec_devctrl_ack, spec_send_bytes, spec_status_at, Cmd,
    XFlash,
};

verus! {

/// Device address the extension payload is booted at.
pub const EXT_LOAD_ADDR: u32 = 0x68000000;

/// Signature of `register_devctrl`.
pub open spec fn spec_sig_register() -> Seq<u8> {
    seq![0x38u8, 0xB5u8, 0x05u8, 0x46u8, 0x0Cu8, 0x20u8]
}

/// Primary signature of `mmc_get_card` (the match is one byte in).
pub open spec fn spec_sig_get_card_a() -> Seq<u8> {
    seq![0x4Bu8, 0x4Fu8, 0xF4u8, 0x3Cu8, 0x72u8]
}

/// Fallback signature of `mmc_get_card` (the match is ten bytes in).
pub open spec fn spec_sig_get_card_b() -> Seq<u8> {
    seq![0xA3u8, 0xEBu8, 0x00u8, 0x13u8, 0x18u8, 0x1Au8, 0x02u8, 0xEBu8, 0x00u8, 0x10u8]
}

/// Scanned signature of `mmc_set_part_config`.
pub open spec fn spec_sig_part_cfg() -> Seq<u8> {
    seq![0xC3u8, 0x69u8, 0x0Au8, 0x46u8, 0x10u8, 0xB5u8]
}

/// The confirmation bytes required 20 bytes past a
/// `mmc_set_part_config` candidate.
pub open spec fn spec_sig_part_cfg_tail() -> Seq<u8> {
    seq![0xB3u8, 0x21u8]
}

/// Fallback signature of `mmc_set_part_config`.
pub open spec fn spec_sig_part_cfg_fb() -> Seq<u8> {
    seq![0xC3u8, 0x69u8, 0x13u8, 0xF0u8, 0x01u8, 0x03u8]
}

/// Primary signature of `mmc_rpmb_send_command`.
pub open spec fn spec_sig_rpmb_a() -> Seq<u8> {
    seq![0xF8u8, 0xB5u8, 0x06u8, 0x46u8, 0x9Du8, 0xF8u8, 0x18u8, 0x50u8]
}

/// Fallback signature of `mmc_rpmb_send_command`.
pub open spec fn spec_sig_rpmb_b() -> Seq<u8> {
    seq![0x2Du8, 0xE9u8, 0xF0u8, 0x41u8, 0x4Fu8, 0xF6u8, 0xFDu8, 0x74u8]
}

/// Primary signature locating the `g_ufs_hba` pointer literal (read
/// at +10).
pub open spec fn spec_sig_ufs_a() -> Seq<u8> {
    seq![0x20u8, 0x46u8, 0x0Bu8, 0xB0u8, 0xBDu8, 0xE8u8, 0xF0u8, 0x83u8, 0x00u8, 0xBFu8]
}

/// First fallback for `g_ufs_hba` (read at +8).
pub open spec fn spec_sig_ufs_b() -> Seq<u8> {
    seq![0x20u8, 0x46u8, 0x0Du8, 0xB0u8, 0xBDu8, 0xE8u8, 0xF0u8, 0x83u8]
}

/// Second fallback for `g_ufs_hba` (read at +18).
pub open spec fn spec_sig_ufs_c() -> Seq<u8> {
    seq![0x21u8, 0x46u8, 0x02u8, 0xF0u8, 0x02u8, 0xFBu8, 0x1Bu8, 0xE6u8, 0x00u8, 0xBFu8]
}

/// Signature of `ufshcd_get_free_tag` (rebased one byte back).
pub open spec fn spec_sig_free_tag() -> Seq<u8> {
    seq![0xB5u8, 0x2Eu8, 0xB1u8, 0x90u8, 0xF8u8]
}

/// Signature of `ufshcd_queuecommand`.
pub open spec fn spec_sig_queuecmd() -> Seq<u8> {
    seq![0x2Du8, 0xE9u8, 0xF8u8, 0x43u8, 0x01u8, 0x27u8]
}

/// The four-byte sentinel of one fixup slot.
pub open spec fn spec_sentinel(b: u8) -> Seq<u8> {
    seq![b, b, b, b]
}

/// A file offset rebased to device memory with the Thumb bit set.
pub open spec fn spec_rebase(v: int, addr: u32) -> u32
    recommends
        0 <= v <= u32::MAX,
{
    u32::wrapping_add(v as u32, addr) | 1
}

/// `register_devctrl` fixup value: rebased match or zero.
pub open spec fn spec_sym_register(da2: Seq<u8>, addr: u32) -> u32 {
    match spec_find(da2, spec_sig_register(), 0) {
        Some(v) => spec_rebase(v, addr),
        None => 0,
    }
}

/// File offset of `mmc_get_card`, from either signature.
pub open spec fn spec_get_card_pos(da2: Seq<u8>) -> Option<int> {
    match spec_find(da2, spec_sig_get_card_a(), 0) {
        Some(v) => Some(
            if v >= 1 {
                v - 1
            } else {
                0
            },
        ),
        None => match spec_find(da2, spec_sig_get_card_b(), 0) {
            Some(v) => Some(
                if v >= 10 {
                    v - 10
                } else {
                    0
                },
            ),
            None => None,
        },
    }
}

/// `mmc_get_card` fixup value.
pub open spec fn spec_sym_get_card(da2: Seq<u8>, addr: u32) -> u32 {
    match spec_get_card_pos(da2) {
        Some(v) => spec_rebase(v, addr),
        None => 0,
    }
}

/// First position whose bytes match the `mmc_set_part_config`
/// signature and whose confirmation bytes stand 20 bytes further.
pub open spec fn spec_scan_part_cfg(da2: Seq<u8>, offset: int) -> Option<int>
    decreases da2.len() - offset,
{
    if offset < 0 || offset + 6 > da2.len() {
        None
    } else if da2.subrange(offset, offset + 6) == spec_sig_part_cfg() && da2.len() >= offset + 22
        && da2.subrange(offset + 20, offset + 22) == spec_sig_part_cfg_tail() {
        Some(offset)
    } else {
        spec_scan_part_cfg(da2, offset + 1)
    }
}

/// File offset of `mmc_set_part_config`: the confirmed scan, or the
/// fallback signature.
pub open spec fn spec_part_cfg_pos(da2: Seq<u8>) -> Option<int> {
    match spec_scan_part_cfg(da2, 0) {
        Some(v) => Some(v),
        None => spec_find(da2, spec_sig_part_cfg_fb(), 0),
    }
}

/// `mmc_set_part_config` fixup value.
pub open spec fn spec_sym_part_cfg(da2: Seq<u8>, addr: u32) -> u32 {
    match spec_part_cfg_pos(da2) {
        Some(v) => spec_rebase(v, addr),
        None => 0,
    }
}

/// File offset of `mmc_rpmb_send_command`.
pub open spec fn spec_rpmb_pos(da2: Seq<u8>) -> Option<int> {
    match spec_find(da2, spec_sig_rpmb_a(), 0) {
        Some(v) => Some(v),
        None => spec_find(da2, spec_sig_rpmb_b(), 0),
    }
}

/// `mmc_rpmb_send_command` fixup value.
pub open spec fn spec_sym_rpmb(da2: Seq<u8>, addr: u32) -> u32 {
    match spec_rpmb_pos(da2) {
        Some(v) => spec_rebase(v, addr),
        None => 0,
    }
}

/// Position of whichever `g_ufs_hba` signature matched, used only to
/// gate the two UFS routine searches.
pub open spec fn spec_ufs_ptr_pos(da2: Seq<u8>) -> Option<int> {
    match spec_find(da2, spec_sig_ufs_a(), 0) {
        Some(v) => Some(v),
        None => match spec_find(da2, spec_sig_ufs_b(), 0) {
            Some(v) => Some(v),
            None => spec_find(da2, spec_sig_ufs_c(), 0),
        },
    }
}

/// The `g_ufs_hba` pointer literal read out of DA2, or zero: each
/// signature has its own literal offset, and a match too close to the
/// end of the image yields zero without trying the fallbacks.
pub open spec fn spec_g_ufs_hba(da2: Seq<u8>) -> u32 {
    match spec_find(da2, spec_sig_ufs_a(), 0) {
        Some(p) => if da2.len() >= p + 14 {
            spec_u32_from_le_bytes(da2.subrange(p + 10, p + 14))
        } else {
            0
        },
        None => match spec_find(da2, spec_sig_ufs_b(), 0) {
            Some(p) => if da2.len() >= p + 12 {
                spec_u32_from_le_bytes(da2.subrange(p + 8, p + 12))
            } else {
                0
            },
            None => match spec_find(da2, spec_sig_ufs_c(), 0) {
                Some(p) => if da2.len() >= p + 22 {
                    spec_u32_from_le_bytes(da2.subrange(p + 18, p + 22))
                } else {
                    0
                },
                None => 0,
            },
        },
    }
}

/// `ufshcd_get_free_tag` fixup value: searched only when a `g_ufs_hba`
/// signature matched, and rebased one byte back.
pub open spec fn spec_sym_free_tag(da2: Seq<u8>, addr: u32) -> u32 {
    if spec_ufs_ptr_pos(da2) is Some {
        match spec_find(da2, spec_sig_free_tag(), 0) {
            Some(v) => u32::wrapping_sub(u32::wrapping_add(v as u32, addr), 1) | 1,
            None => 0,
        }
    } else {
        0
    }
}

/// `ufshcd_queuecommand` fixup value, under the same guard.
pub open spec fn spec_sym_queuecmd(da2: Seq<u8>, addr: u32) -> u32 {
    if spec_ufs_ptr_pos(da2) is Some {
        match spec_find(da2, spec_sig_queuecmd(), 0) {
            Some(v) => spec_rebase(v, addr),
            None => 0,
        }
    } else {
        0
    }
}

/// `s` with the little-endian encoding of `val` written at `pos`.
pub open spec fn spec_patch32(s: Seq<u8>, pos: int, val: u32) -> Seq<u8>
    recommends
        0 <= pos,
        pos + 4 <= s.len(),
{
    s.take(pos) + spec_u32_to_le_bytes(val) + s.skip(pos + 4)
}

/// Patches at the slot when it was found, else leaves `s` unchanged.
pub open spec fn spec_opt_patch(s: Seq<u8>, slot: Option<int>, val: u32) -> Seq<u8> {
    match slot {
        Some(pos) => spec_patch32(s, pos, val),
        None => s,
    }
}

/// The fully patched extension payload, or `None` when the payload
/// lacks the two mandatory sentinels.  Fixups are written in the
/// driver's order: register_devctrl, mmc_get_card,
/// mmc_set_part_config, mmc_rpmb_send_command, ufshcd_get_free_tag,
/// ufshcd_queuecommand, g_ufs_hba.
pub open spec fn spec_prepare(da2: Seq<u8>, addr: u32, ext: Seq<u8>) -> Option<Seq<u8>> {
    let reg_slot = spec_find(ext, spec_sentinel(0x11), 0);
    let card_slot = spec_find(ext, spec_sentinel(0x22), 0);
    if reg_slot is None || card_slot is None {
        None
    } else {
        let s1 = spec_patch32(ext, reg_slot->Some_0, spec_sym_register(da2, addr));
        let s2 = spec_patch32(s1, card_slot->Some_0, spec_sym_get_card(da2, addr));
        let s3 = spec_opt_patch(
            s2,
            spec_find(ext, spec_sentinel(0x33), 0),
            spec_sym_part_cfg(da2, addr),
        );
        let s4 = spec_opt_patch(
            s3,
            spec_find(ext, spec_sentinel(0x44), 0),
            spec_sym_rpmb(da2, addr),
        );
        let s5 = spec_opt_patch(
            s4,
            spec_find(ext, spec_sentinel(0x66), 0),
            spec_sym_free_tag(da2, addr),
        );
        let s6 = spec_opt_patch(
            s5,
            spec_find(ext, spec_sentinel(0x55), 0),
            spec_sym_queuecmd(da2, addr),
        );
        let s7 = spec_opt_patch(s6, spec_find(ext, spec_sentinel(0x77), 0), spec_g_ufs_hba(da2));
        Some(s7)
    }
}

/// The byte signatures DA2 is scanned for.
#[derive(Clone, Copy)]
enum Sig {
    Register,
    GetCardA,
    GetCardB,
    PartCfgFb,
    RpmbA,
    RpmbB,
    UfsA,
    UfsB,
    UfsC,
    FreeTag,
    QueueCmd,
}

impl Sig {
    /// The signature's bytes.
    spec fn spec_bytes(self) -> Seq<u8> {
        match self {
            Sig::Register => spec_sig_register(),
            Sig::GetCardA => spec_sig_get_card_a(),
            Sig::GetCardB => spec_sig_get_card_b(),
            Sig::PartCfgFb => spec_sig_part_cfg_fb(),
            Sig::RpmbA => spec_sig_rpmb_a(),
            Sig::RpmbB => spec_sig_rpmb_b(),
            Sig::UfsA => spec_sig_ufs_a(),
            Sig::UfsB => spec_sig_ufs_b(),
            Sig::UfsC => spec_sig_ufs_c(),
            Sig::FreeTag => spec_sig_free_tag(),
            Sig::QueueCmd => spec_sig_queuecmd(),
        }
    }

    /// The signature's bytes.
    fn bytes(self) -> (r: Vec<u8>)
        ensures
            r@ == self.spec_bytes(),
            r@.len() > 0,
    {
        let r: Vec<u8> = match self {
            Sig::Register => vec![0x38, 0xB5, 0x05, 0x46, 0x0C, 0x20],
            Sig::GetCardA => vec![0x4B, 0x4F, 0xF4, 0x3C, 0x72],
            Sig::GetCardB => vec![0xA3, 0xEB, 0x00, 0x13, 0x18, 0x1A, 0x02, 0xEB, 0x00, 0x10],
            Sig::PartCfgFb => vec![0xC3, 0x69, 0x13, 0xF0, 0x01, 0x03],
            Sig::RpmbA => vec![0xF8, 0xB5, 0x06, 0x46, 0x9D, 0xF8, 0x18, 0x50],
            Sig::RpmbB => vec![0x2D, 0xE9, 0xF0, 0x41, 0x4F, 0xF6, 0xFD, 0x74],
            Sig::UfsA => vec![0x20, 0x46, 0x0B, 0xB0, 0xBD, 0xE8, 0xF0, 0x83, 0x00, 0xBF],
            Sig::UfsB => vec![0x20, 0x46, 0x0D, 0xB0, 0xBD, 0xE8, 0xF0, 0x83],
            Sig::UfsC => vec![0x21, 0x46, 0x02, 0xF0, 0x02, 0xFB, 0x1B, 0xE6, 0x00, 0xBF],
            Sig::FreeTag => vec![0xB5, 0x2E, 0xB1, 0x90, 0xF8],
            Sig::QueueCmd => vec![0x2D, 0xE9, 0xF8, 0x43, 0x01, 0x27],
        };
        proof {
            assert(r@ =~= self.spec_bytes());
        }
        r
    }
}

/// First match of the signature in `data`, as [`spec_find`] gives it.
fn find_pattern_sig(data: &[u8], sig: Sig) -> (r: Option<usize>)
    ensures
        match r {
            Some(i) => spec_find(data@, sig.spec_bytes(), 0) == Some(i as int) && i < data@.len(),
            None => spec_find(data@, sig.spec_bytes(), 0) is None,
        },
{
    let needle = sig.bytes();
    find_pattern(data, needle.as_slice(), 0)
}

/// First match of a four-byte sentinel in the payload.
fn find_sentinel(data: &[u8], b: u8) -> (r: Option<usize>)
    ensures
        match r {
            Some(i) => spec_find(data@, spec_sentinel(b), 0) == Some(i as int) && i + 4
                <= data@.len(),
            None => spec_find(data@, spec_sentinel(b), 0) is None,
        },
{
    let mut needle: Vec<u8> = Vec::new();
    needle.push(b);
    needle.push(b);
    needle.push(b);
    needle.push(b);
    proof {
        assert(needle@ =~= spec_sentinel(b));
    }
    find_pattern(data, needle.as_slice(), 0)
}

/// Scans for the confirmed `mmc_set_part_config` signature: the
/// six-byte pattern followed, 20 bytes in, by the confirmation bytes.
fn scan_part_cfg(da2: &[u8]) -> (r: Option<usize>)
    ensures
        match r {
            Some(i) => spec_scan_part_cfg(da2@, 0) == Some(i as int) && i < da2@.len(),
            None => spec_scan_part_cfg(da2@, 0) is None,
        },
{
    let mut sig: Vec<u8> = Vec::new();
    sig.push(0xC3);
    sig.push(0x69);
    sig.push(0x0A);
    sig.push(0x46);
    sig.push(0x10);
    sig.push(0xB5);
    proof {
        assert(sig@ =~= spec_sig_part_cfg());
    }
    let mut tail: Vec<u8> = Vec::new();
    tail.push(0xB3);
    tail.push(0x21);
    proof {
        assert(tail@ =~= spec_sig_part_cfg_tail());
    }
    if da2.len() < 6 {
        return None;
    }
    let limit: usize = da2.len() - 6;
    let mut i: usize = 0;
    while i <= limit
        invariant
            limit == da2@.len() - 6,
            da2@.len() <= usize::MAX,
            i <= da2@.len(),
            sig@ == spec_sig_part_cfg(),
            tail@ == spec_sig_part_cfg_tail(),
            spec_scan_part_cfg(da2@, 0) == spec_scan_part_cfg(da2@, i as int),
        decreases da2@.len() - i,
    {
        if bytes_equal(&da2[i..i + 6], sig.as_slice()) && da2.len() >= 22 && i <= da2.len() - 22
            && bytes_equal(&da2[i + 20..i + 22], tail.as_slice()) {
            proof {
                assert(spec_scan_part_cfg(da2@, i as int) == Some(i as int));
            }
            return Some(i);
        }
        proof {
            assert(spec_scan_part_cfg(da2@, i as int) == spec_scan_part_cfg(da2@, i + 1));
        }
        i = i + 1;
    }
    proof {
        assert(spec_scan_part_cfg(da2@, i as int) is None);
    }
    None
}

/// Returns `v` with `val` written little-endian at `pos`.
fn patch32(v: &Vec<u8>, pos: usize, val: u32) -> (r: Vec<u8>)
    requires
        pos + 4 <= v@.len(),
    ensures
        r@ == spec_patch32(v@, pos as int, val),
        r@.len() == v@.len(),
{
    proof {
        lemma_auto_spec_u32_to_from_le_bytes();
    }
    let n: usize = v.len();
    let mut r = slice_to_vec(&v.as_slice()[0..pos]);
    let mut w = u32_to_le_bytes(val);
    r.append(&mut w);
    let mut tail = slice_to_vec(&v.as_slice()[pos + 4..n]);
    r.append(&mut tail);
    proof {
        assert(r@ =~= spec_patch32(v@, pos as int, val));
    }
    r
}

/// Rebases a DA2 file offset to device memory with the Thumb bit set.
fn rebase(v: usize, addr: u32) -> (r: u32)
    requires
        v <= u32::MAX,
    ensures
        r == spec_rebase(v as int, addr),
{
    (v as u32).wrapping_add(addr) | 1
}

/// Computes the seven fixup values for a DA2 image: the six rebased
/// routine addresses and the `g_ufs_hba` pointer literal.
fn compute_fixups(da2: &[u8], da2address: u32) -> (r: (u32, u32, u32, u32, u32, u32, u32))
    requires
        da2@.len() <= u32::MAX,
    ensures
        r.0 == spec_sym_register(da2@, da2address),
        r.1 == spec_sym_get_card(da2@, da2address),
        r.2 == spec_sym_part_cfg(da2@, da2address),
        r.3 == spec_sym_rpmb(da2@, da2address),
        r.4 == spec_sym_free_tag(da2@, da2address),
        r.5 == spec_sym_queuecmd(da2@, da2address),
        r.6 == spec_g_ufs_hba(da2@),
{
    let register_devctrl = find_pattern_sig(da2, Sig::Register);
    let mut mmc_get_card: Option<usize> = match find_pattern_sig(da2, Sig::GetCardA) {
        Some(p) => Some(p.saturating_sub(1)),
        None => None,
    };
    if mmc_get_card.is_none() {
        mmc_get_card = match find_pattern_sig(da2, Sig::GetCardB) {
            Some(p) => Some(p.saturating_sub(10)),
            None => None,
        };
    }
    let mut mmc_set_part_config = scan_part_cfg(da2);
    if mmc_set_part_config.is_none() {
        mmc_set_part_config = find_pattern_sig(da2, Sig::PartCfgFb);
    }
    let mut mmc_rpmb = find_pattern_sig(da2, Sig::RpmbA);
    if mmc_rpmb.is_none() {
        mmc_rpmb = find_pattern_sig(da2, Sig::RpmbB);
    }
    let mut g_ufs_hba: u32 = 0;
    let mut have_ufs_ptr: bool = false;
    match find_pattern_sig(da2, Sig::UfsA) {
        Some(p) => {
            have_ufs_ptr = true;
            if da2.len() >= 14 && p <= da2.len() - 14 {
                g_ufs_hba = u32_from_le_bytes(&da2[p + 10..p + 14]);
            }
        },
        None => {
            match find_pattern_sig(da2, Sig::UfsB) {
                Some(p) => {
                    have_ufs_ptr = true;
                    if da2.len() >= 12 && p <= da2.len() - 12 {
                        g_ufs_hba = u32_from_le_bytes(&da2[p + 8..p + 12]);
                    }
                },
                None => {
                    match find_pattern_sig(da2, Sig::UfsC) {
                        Some(p) => {
                            have_ufs_ptr = true;
                            if da2.len() >= 22 && p <= da2.len() - 22 {
                                g_ufs_hba = u32_from_le_bytes(&da2[p + 18..p + 22]);
                            }
                        },
                        None => {},
                    }
                },
            }
        },
    }
    let ufshcd_get_free_tag: Option<usize> = if have_ufs_ptr {
        find_pattern_sig(da2, Sig::FreeTag)
    } else {
        None
    };
    let ufshcd_queuecommand: Option<usize> = if have_ufs_ptr {
        find_pattern_sig(da2, Sig::QueueCmd)
    } else {
        None
    };
    let register_val = match register_devctrl {
        Some(v) => rebase(v, da2address),
        None => 0,
    };
    let get_card_val = match mmc_get_card {
        Some(v) => rebase(v, da2address),
        None => 0,
    };
    let part_cfg_val = match mmc_set_part_config {
        Some(v) => rebase(v, da2address),
        None => 0,
    };
    let rpmb_val = match mmc_rpmb {
        Some(v) => rebase(v, da2address),
        None => 0,
    };
    let free_tag_val = match ufshcd_get_free_tag {
        Some(v) => (v as u32).wrapping_add(da2address).wrapping_sub(1) | 1,
        None => 0,
    };
    let queuecmd_val = match ufshcd_queuecommand {
        Some(v) => rebase(v, da2address),
        None => 0,
    };
    (register_val, get_card_val, part_cfg_val, rpmb_val, free_tag_val, queuecmd_val, g_ufs_hba)
}

/// Locates the routines the extension payload hooks by their byte
/// signatures in DA2, rebases them to device memory, and writes them
/// over the payload's sentinel slots.  Fails only when the payload
/// lacks the two mandatory sentinels.
pub fn prepare_extensions(da2: &[u8], da2address: u32, ext_blob: &[u8]) -> (r: Option<Vec<u8>>)
    requires
        da2@.len() <= u32::MAX,
        ext_blob@.len() <= u32::MAX,
    ensures
        match spec_prepare(da2@, da2address, ext_blob@) {
            Some(out) => r is Some && r->0@ == out,
            None => r is None,
        },
        r matches Some(out) ==> out@.len() == ext_blob@.len(),
{
    let (register_val, get_card_val, part_cfg_val, rpmb_val, free_tag_val, queuecmd_val,
        g_ufs_hba) = compute_fixups(da2, da2address);
    let register_slot = find_sentinel(ext_blob, 0x11);
    let get_card_slot = find_sentinel(ext_blob, 0x22);
    let part_cfg_slot = find_sentinel(ext_blob, 0x33);
    let rpmb_slot = find_sentinel(ext_blob, 0x44);
    let queuecmd_slot = find_sentinel(ext_blob, 0x55);
    let free_tag_slot = find_sentinel(ext_blob, 0x66);
    let ufs_hba_slot = find_sentinel(ext_blob, 0x77);

    let (register_slot, get_card_slot) = match (register_slot, get_card_slot) {
        (Some(a), Some(b)) => (a, b),
        _ => {
            return None;
        },
    };

    let out0: Vec<u8> = slice_to_vec(ext_blob);
    let out1 = patch32(&out0, register_slot, register_val);
    let out2 = patch32(&out1, get_card_slot, get_card_val);
    let out3 = match part_cfg_slot {
        Some(p) => patch32(&out2, p, part_cfg_val),
        None => out2,
    };
    let out4 = match rpmb_slot {
        Some(p) => patch32(&out3, p, rpmb_val),
        None => out3,
    };
    let out5 = match free_tag_slot {
        Some(p) => patch32(&out4, p, free_tag_val),
        None => out4,
    };
    let out6 = match queuecmd_slot {
        Some(p) => patch32(&out5, p, queuecmd_val),
        None => out5,
    };
    let out7 = match ufs_hba_slot {
        Some(p) => patch32(&out6, p, g_ufs_hba),
        None => out6,
    };
    proof {
        assert(spec_prepare(da2@, da2address, ext_blob@) matches Some(o) && out7@ == o);
    }
    Some(out7)
}

/// Everything an extension register read writes: the device-control
/// and sub-command frames, then the address as a framed payload.
pub open spec fn spec_read32_ext_tx(addr: u32) -> Seq<u8> {
    spec_send_bytes(Cmd::DeviceCtrl.spec_code(), 1) + spec_send_bytes(
        Cmd::ExtReadRegister.spec_code(),
        1,
    ) + spec_send_bytes(addr, 1)
}

/// Value and cursor of an accepted extension register read: the
/// device-control preamble, then either a framed response of at least
/// four bytes followed by a zero status, or a short response with the
/// value carried by the following status frame.
pub open spec fn spec_read32_ext_result(s: Seq<u8>, pos: int) -> Option<(u32, int)> {
    match spec_devctrl_ack(s, pos) {
        None => None,
        Some(p2) => match spec_frame_at(s, p2) {
            None => None,
            Some((dtype, payload, p3)) => if payload.len() >= 4 {
                match spec_status_at(s, p3) {
                    Some((st, p4)) => if st == 0 {
                        Some((spec_u32_from_le_bytes(payload.subrange(0, 4)), p4))
                    } else {
                        None
                    },
                    None => None,
                }
            } else {
                match spec_status_at(s, p3) {
                    Some((v, p4)) => Some((v, p4)),
                    None => None,
                }
            },
        },
    }
}

/// Reads a 32-bit register through the DA extension command.
pub fn read32_ext(xflash: &mut XFlash, addr: u32) -> (r: Result<u32, MtkError>)
    requires
        old(xflash).wf(),
    ensures
        final(xflash).wf(),
        old(xflash).same_config(*final(xflash)),
        match spec_read32_ext_result(old(xflash).inc(), old(xflash).pos()) {
            Some((v, p)) => {
                &&& r == Result::<u32, MtkError>::Ok(v)
                &&& final(xflash).pos() == p
                &&& final(xflash).out() == old(xflash).out() + spec_read32_ext_tx(addr)
            },
            None => r is Err,
        },
{
    if let Err(e) = xflash.send_cmd(Cmd::DeviceCtrl) {
        return Err(e);
    }
    let status = match xflash.get_status() {
        Ok(st) => st,
        Err(e) => {
            return Err(e);
        },
    };
    if status != 0 {
        return Err(MtkError::Protocol(status));
    }
    if let Err(e) = xflash.send_cmd(Cmd::ExtReadRegister) {
        return Err(e);
    }
    let status = match xflash.get_status() {
        Ok(st) => st,
        Err(e) => {
            return Err(e);
        },
    };
    if status != 0 {
        return Err(MtkError::Protocol(status));
    }
    if let Err(e) = xflash.send(addr, 1) {
        return Err(e);
    }
    let payload = match xflash.read_data() {
        Ok(p) => p,
        Err(e) => {
            return Err(e);
        },
    };
    if payload.len() >= 4 {
        let status = match xflash.get_status() {
            Ok(st) => st,
            Err(e) => {
                return Err(e);
            },
        };
        if status != 0 {
            return Err(MtkError::Protocol(status));
        }
        Ok(u32_from_le_bytes(&payload[0..4]))
    } else {
        match xflash.get_status() {
            Ok(v) => Ok(v),
            Err(e) => Err(e),
        }
    }
}

/// Everything an extension register write writes out: the two command
/// frames, then the address and the value as framed payloads.
pub open spec fn spec_write32_ext_tx(addr: u32, value: u32) -> Seq<u8> {
    spec_send_bytes(Cmd::DeviceCtrl.spec_code(), 1) + spec_send_bytes(
        Cmd::ExtWriteRegister.spec_code(),
        1,
    ) + spec_send_bytes(addr, 1) + spec_send_bytes(value, 1)
}

/// Cursor past an accepted extension register write: the
/// device-control preamble, then one zero status.
pub open spec fn spec_write32_ext_accepts(s: Seq<u8>, pos: int) -> Option<int> {
    match spec_devctrl_ack(s, pos) {
        None => None,
        Some(p2) => match spec_status_at(s, p2) {
            Some((st, p3)) => if st == 0 {
                Some(p3)
            } else {
                None
            },
            None => None,
        },
    }
}

/// Writes a 32-bit register through the DA extension command.
pub fn write32_ext(xflash: &mut XFlash, addr: u32, value: u32) -> (r: Result<(), MtkError>)
    requires
        old(xflash).wf(),
    ensures
        final(xflash).wf(),
        old(xflash).same_config(*final(xflash)),
        r is Ok <==> spec_write32_ext_accepts(old(xflash).inc(), old(xflash).pos()) is Some,
        r is Ok ==> {
            &&& final(xflash).pos() == spec_write32_ext_accepts(
                old(xflash).inc(),
                old(xflash).pos(),
            )->Some_0
            &&& final(xflash).out() == old(xflash).out() + spec_write32_ext_tx(addr, value)
        },
{
    if let Err(e) = xflash.send_cmd(Cmd::DeviceCtrl) {
        return Err(e);
    }
    let status = match xflash.get_status() {
        Ok(st) => st,
        Err(e) => {
            return Err(e);
        },
    };
    if status != 0 {
        return Err(MtkError::Protocol(status));
    }
    if let Err(e) = xflash.send_cmd(Cmd::ExtWriteRegister) {
        return Err(e);
    }
    let status = match xflash.get_status() {
        Ok(st) => st,
        Err(e) => {
            return Err(e);
        },
    };
    if status != 0 {
        return Err(MtkError::Protocol(status));
    }
    if let Err(e) = xflash.send(addr, 1) {
        return Err(e);
    }
    if let Err(e) = xflash.send(value, 1) {
        return Err(e);
    }
    let status = match xflash.get_status() {
        Ok(st) => st,
        Err(e) => {
            return Err(e);
        },
    };
    if status != 0 {
        return Err(MtkError::Protocol(status));
    }
    Ok(())
}

/// The `0xA1A2A3A4` acknowledgement, as it arrives on the wire.
pub open spec fn spec_ext_ack_bytes() -> Seq<u8> {
    seq![0xA4u8, 0xA3u8, 0xA2u8, 0xA1u8]
}

/// Cursor past an accepted extension boot: the `BootTo` exchange for
/// the patched payload, then an `ExtAck` device-control exchange
/// whose framed response opens with the acknowledgement bytes and
/// whose status is zero.
pub open spec fn spec_boot_exts_accepts(s: Seq<u8>, pos: int) -> Option<int> {
    match spec_boot_to_accepts(s, pos) {
        None => None,
        Some(p) => match spec_devctrl_ack(s, p) {
            None => None,
            Some(p2) => match spec_frame_at(s, p2) {
                None => None,
                Some((dtype, ack, p3)) => match spec_status_at(s, p3) {
                    None => None,
                    Some((st, p4)) => if st == 0 && ack.len() >= 4 && ack.subrange(0, 4)
                        == spec_ext_ack_bytes() {
                        Some(p4)
                    } else {
                        None
                    },
                },
            },
        },
    }
}

/// Patches the extension payload against the driver's DA2 region,
/// boots it at the extension load address, and requires the
/// `0xA1A2A3A4` acknowledgement.  Fails with `NotFound` when the DA
/// entry lacks a DA2 region, and with `Parse` when the payload lacks
/// its mandatory sentinels.
pub fn boot_extensions(xflash: &mut XFlash, ext_blob: &[u8]) -> (r: Result<bool, MtkError>)
    requires
        old(xflash).wf(),
        ext_blob@.len() <= u32::MAX,
        old(xflash).da.regions@.len() >= 3 ==> old(xflash).da.regions@[2].data@.len()
            <= u32::MAX,
    ensures
        final(xflash).wf(),
        old(xflash).same_config(*final(xflash)),
        old(xflash).da.regions@.len() < 3 ==> r == Result::<bool, MtkError>::Err(
            MtkError::NotFound,
        ),
        r is Ok <==> (old(xflash).da.regions@.len() >= 3 && spec_prepare(
            old(xflash).da.regions@[2].data@,
            old(xflash).da.regions@[2].addr,
            ext_blob@,
        ) is Some && spec_boot_exts_accepts(old(xflash).inc(), old(xflash).pos()) is Some),
        r is Ok ==> {
            &&& r == Result::<bool, MtkError>::Ok(true)
            &&& final(xflash).pos() == spec_boot_exts_accepts(
                old(xflash).inc(),
                old(xflash).pos(),
            )->Some_0
            &&& final(xflash).out() == old(xflash).out() + spec_boot_to_tx(
                EXT_LOAD_ADDR,
                spec_prepare(
                    old(xflash).da.regions@[2].data@,
                    old(xflash).da.regions@[2].addr,
                    ext_blob@,
                )->Some_0,
            ) + spec_send_bytes(Cmd::DeviceCtrl.spec_code(), 1) + spec_send_bytes(
                Cmd::ExtAck.spec_code(),
                1,
            )
        },
{
    if xflash.da.regions.len() < 3 {
        return Err(MtkError::NotFound);
    }
    let da2_addr = xflash.da.regions[2].addr;
    let da2_data = slice_to_vec(xflash.da.regions[2].data.as_slice());
    let ext_data = match prepare_extensions(da2_data.as_slice(), da2_addr, ext_blob) {
        Some(d) => d,
        None => {
            return Err(MtkError::Parse);
        },
    };
    if let Err(e) = xflash.boot_to(EXT_LOAD_ADDR, ext_data.as_slice()) {
        return Err(e);
    }
    let ack = match xflash.devctrl(Cmd::ExtAck, None) {
        Ok(a) => a,
        Err(e) => {
            return Err(e);
        },
    };
    let status = match xflash.get_status() {
        Ok(st) => st,
        Err(e) => {
            return Err(e);
        },
    };
    if status != 0 {
        return Err(MtkError::Protocol(status));
    }
    let mut expected: Vec<u8> = Vec::new();
    expected.push(0xA4);
    expected.push(0xA3);
    expected.push(0xA2);
    expected.push(0xA1);
    proof {
        assert(expected@ =~= spec_ext_ack_bytes());
    }
    if ack.len() < 4 || !bytes_equal(&ack.as_slice()[0..4], expected.as_slice()) {
        return Err(MtkError::Framing);
    }
    Ok(true)
}

} // verus!
