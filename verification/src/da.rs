//! Download Agent container parser.
//!
//! A DA file bundles, for many SoCs, the signed stages the host can
//! upload.  The header is 0x6C bytes; per-SoC entries follow, 0xD8
//! bytes each for the legacy layout and 0xDC otherwise, holding the
//! chip identifiers and a table of 20-byte region records.  Region
//! bytes are sliced out of the raw file by file offset and length.
//! By convention region 1 is DA1 and region 2 is DA2.

use vstd::prelude::*;
use vstd::bytes::*;
use vstd::slice::slice_to_vec;

use crate::error::MtkError;
use crate::utilities::{find_pattern, spec_match_at};

verus! {

/// Container flavour, decided from the first 0x6C bytes: a `DA DA`
/// prefix means Legacy, an `MTK_DA_v6` marker means V6, anything else
/// V5.  Only V5 is supported by the rest of the stack.
#[derive(Debug, Clone, Copy, PartialEq, Eq, Structural)]
pub enum DAType {
    Legacy,
    V5,
    V6,
}

/// One loadable region of a DA stage, sliced out of the raw file.
#[derive(Debug, Clone, PartialEq, Eq)]
pub struct DAEntryRegion {
    /// Raw bytes of the region, signature included.
    pub data: Vec<u8>,
    /// File offset the region was read from.
    pub offset: u32,
    /// Length of the region in bytes, signature included.
    pub length: u32,
    /// Load address in device SRAM.
    pub addr: u32,
    /// Length of the trailing signature, if any.
    pub sig_len: u32,
}

/// One per-SoC entry of a DA file.
#[derive(Debug, Clone, PartialEq, Eq)]
pub struct DA {
    pub da_type: DAType,
    pub regions: Vec<DAEntryRegion>,
    pub magic: u16,
    pub hw_code: u16,
    pub hw_sub_code: u16,
    pub hw_version: u16,
}

/// A parsed DA file: its kind, raw bytes and per-SoC entries.
#[derive(Debug, Clone, PartialEq, Eq)]
pub struct DAFile {
    pub da_raw_data: Vec<u8>,
    pub da_type: DAType,
    pub das: Vec<DA>,
}

/// Size of one per-SoC entry for the given container flavour.
pub open spec fn spec_entry_size(dt: DAType) -> int {
    if dt == DAType::Legacy {
        0xD8
    } else {
        0xDC
    }
}

/// File offset of per-SoC entry `i`.
pub open spec fn spec_entry_base(dt: DAType, i: int) -> int {
    0x6C + i * spec_entry_size(dt)
}

/// The `MTK_DA_v6` marker bytes.
pub open spec fn spec_v6_marker() -> Seq<u8> {
    seq![0x4Du8, 0x54u8, 0x4Bu8, 0x5Fu8, 0x44u8, 0x41u8, 0x5Fu8, 0x76u8, 0x36u8]
}

/// Container flavour read off the header: `DA DA` prefix, `MTK_DA_v6`
/// marker anywhere in the first 0x6C bytes, or V5 by default.
pub open spec fn spec_da_type(raw: Seq<u8>) -> DAType {
    if raw.len() >= 2 && raw[0] == 0xDA && raw[1] == 0xDA {
        DAType::Legacy
    } else if exists|j: int| spec_match_at(raw.take(0x6C), spec_v6_marker(), j) {
        DAType::V6
    } else {
        DAType::V5
    }
}

/// Number of per-SoC entries announced by the header.
pub open spec fn spec_num_socs(raw: Seq<u8>) -> int {
    spec_u32_from_le_bytes(raw.subrange(0x68, 0x6C)) as int
}

/// The fields of region `k` of the entry at `base` agree with the raw
/// file, and its bytes are in bounds and sliced out exactly.
pub open spec fn spec_region_ok(raw: Seq<u8>, base: int, k: int, reg: DAEntryRegion) -> bool {
    let rb = base + 0x14 + 20 * k;
    &&& reg.offset == spec_u32_from_le_bytes(raw.subrange(rb, rb + 4))
    &&& reg.length == spec_u32_from_le_bytes(raw.subrange(rb + 4, rb + 8))
    &&& reg.addr == spec_u32_from_le_bytes(raw.subrange(rb + 8, rb + 12))
    &&& reg.sig_len == spec_u32_from_le_bytes(raw.subrange(rb + 16, rb + 20))
    &&& reg.offset + reg.length <= raw.len()
    &&& reg.data@ == raw.subrange(reg.offset as int, reg.offset + reg.length)
}

/// Region `k` of the entry at `base` can be parsed: its record lies
/// inside the entry and the bytes it points at lie inside the file.
pub open spec fn spec_region_parseable(raw: Seq<u8>, base: int, dt: DAType, k: int) -> bool {
    let rb = base + 0x14 + 20 * k;
    &&& rb + 20 <= base + spec_entry_size(dt)
    &&& spec_u32_from_le_bytes(raw.subrange(rb, rb + 4)) + spec_u32_from_le_bytes(
        raw.subrange(rb + 4, rb + 8),
    ) <= raw.len()
}

/// Number of regions announced by the entry at `base`.
pub open spec fn spec_region_count(raw: Seq<u8>, base: int) -> int {
    spec_u16_from_le_bytes(raw.subrange(base + 0x12, base + 0x14)) as int
}

/// Entry `i` can be parsed in full.
pub open spec fn spec_entry_parseable(raw: Seq<u8>, dt: DAType, i: int) -> bool {
    let base = spec_entry_base(dt, i);
    &&& base + spec_entry_size(dt) <= raw.len()
    &&& forall|k: int|
        0 <= k < spec_region_count(raw, base) ==> spec_region_parseable(raw, base, dt, k)
}

/// The parsed entry `da` agrees with entry `i` of the raw file.
pub open spec fn spec_entry_ok(raw: Seq<u8>, dt: DAType, i: int, da: DA) -> bool {
    let base = spec_entry_base(dt, i);
    &&& da.da_type == dt
    &&& da.magic == spec_u16_from_le_bytes(raw.subrange(base, base + 2))
    &&& da.hw_code == spec_u16_from_le_bytes(raw.subrange(base + 2, base + 4))
    &&& da.hw_sub_code == spec_u16_from_le_bytes(raw.subrange(base + 4, base + 6))
    &&& da.hw_version == spec_u16_from_le_bytes(raw.subrange(base + 6, base + 8))
    &&& da.regions@.len() == spec_region_count(raw, base)
    &&& forall|k: int|
        0 <= k < da.regions@.len() ==> spec_region_ok(raw, base, k, da.regions@[k])
}

impl DAFile {
    /// Decodes the multi-SoC DA container.  Fails with `Parse` when
    /// the file is shorter than its header or an entry or region runs
    /// past the end of the file.
    pub fn parse_da(raw_data: &[u8]) -> (r: Result<DAFile, MtkError>)
        ensures
            r is Ok <==> {
                &&& raw_data@.len() >= 0x6C
                &&& forall|i: int|
                    0 <= i < spec_num_socs(raw_data@) ==> spec_entry_parseable(
                        raw_data@,
                        spec_da_type(raw_data@),
                        i,
                    )
            },
            r is Err ==> r == Result::<DAFile, MtkError>::Err(MtkError::Parse),
            r is Ok ==> {
                let file = r->Ok_0;
                &&& file.da_raw_data@ == raw_data@
                &&& file.da_type == spec_da_type(raw_data@)
                &&& file.das@.len() == spec_num_socs(raw_data@)
                &&& forall|i: int|
                    0 <= i < file.das@.len() ==> spec_entry_ok(
                        raw_data@,
                        file.da_type,
                        i,
                        file.das@[i],
                    )
            },
    {
        if raw_data.len() < 0x6C {
            return Err(MtkError::Parse);
        }
        let da_type = Self::detect_type(raw_data);
        let num_socs = u32_from_le_bytes(&raw_data[0x68..0x6C]);
        let entry_size: usize = if matches!(da_type, DAType::Legacy) {
            0xD8
        } else {
            0xDC
        };
        proof {
            assert(raw_data@.subrange(0x68, 0x6C) =~= raw_data@.subrange(0x68, 0x6C));
        }
        let mut das: Vec<DA> = Vec::new();
        let mut i: usize = 0;
        while i < num_socs as usize
            invariant
                raw_data@.len() >= 0x6C,
                da_type == spec_da_type(raw_data@),
                num_socs as int == spec_num_socs(raw_data@),
                entry_size == spec_entry_size(da_type),
                i <= num_socs as usize,
                das@.len() == i,
                raw_data@.len() <= usize::MAX,
                forall|j: int| 0 <= j < i ==> spec_entry_parseable(raw_data@, da_type, j),
                forall|j: int| 0 <= j < i ==> spec_entry_ok(raw_data@, da_type, j, das@[j]),
            decreases num_socs as usize - i,
        {
            let step: usize = match i.checked_mul(entry_size) {
                Some(s) => s,
                None => {
                    proof {
                        assert(!spec_entry_parseable(raw_data@, da_type, i as int));
                    }
                    return Err(MtkError::Parse);
                },
            };
            let base: usize = match 0x6Cusize.checked_add(step) {
                Some(b) => b,
                None => {
                    proof {
                        assert(!spec_entry_parseable(raw_data@, da_type, i as int));
                    }
                    return Err(MtkError::Parse);
                },
            };
            if base > raw_data.len() || entry_size > raw_data.len() - base {
                proof {
                    assert(!spec_entry_parseable(raw_data@, da_type, i as int));
                }
                return Err(MtkError::Parse);
            }
            let magic = u16_from_le_bytes(&raw_data[base..base + 2]);
            let hw_code = u16_from_le_bytes(&raw_data[base + 2..base + 4]);
            let hw_sub_code = u16_from_le_bytes(&raw_data[base + 4..base + 6]);
            let hw_version = u16_from_le_bytes(&raw_data[base + 6..base + 8]);
            let region_count = u16_from_le_bytes(&raw_data[base + 0x12..base + 0x14]);
            let mut regions: Vec<DAEntryRegion> = Vec::new();
            let mut k: usize = 0;
            while k < region_count as usize
                invariant
                    raw_data@.len() >= 0x6C,
                    raw_data@.len() <= usize::MAX,
                    i < num_socs as usize,
                    num_socs as int == spec_num_socs(raw_data@),
                    base + entry_size <= raw_data@.len(),
                    entry_size == spec_entry_size(da_type),
                    da_type == spec_da_type(raw_data@),
                    base == spec_entry_base(da_type, i as int),
                    region_count as int == spec_region_count(raw_data@, base as int),
                    k <= region_count as usize,
                    regions@.len() == k,
                    forall|m: int|
                        0 <= m < k ==> spec_region_parseable(raw_data@, base as int, da_type, m),
                    forall|m: int| 0 <= m < k ==> spec_region_ok(raw_data@, base as int, m, regions@[m]),
                decreases region_count as usize - k,
            {
                let roff: usize = 0x14 + 20 * k;
                if roff + 20 > entry_size {
                    proof {
                        assert(!spec_region_parseable(raw_data@, base as int, da_type, k as int));
                        assert(!spec_entry_parseable(raw_data@, da_type, i as int));
                        assert(!(forall|j: int|
                            0 <= j < spec_num_socs(raw_data@) ==> spec_entry_parseable(
                                raw_data@,
                                spec_da_type(raw_data@),
                                j,
                            )));
                    }
                    return Err(MtkError::Parse);
                }
                let rb: usize = base + roff;
                let offset = u32_from_le_bytes(&raw_data[rb..rb + 4]);
                let length = u32_from_le_bytes(&raw_data[rb + 4..rb + 8]);
                let addr = u32_from_le_bytes(&raw_data[rb + 8..rb + 12]);
                let sig_len = u32_from_le_bytes(&raw_data[rb + 16..rb + 20]);
                if offset as usize > raw_data.len() || length as usize > raw_data.len()
                    - offset as usize {
                    proof {
                        assert(!spec_region_parseable(raw_data@, base as int, da_type, k as int));
                        assert(!spec_entry_parseable(raw_data@, da_type, i as int));
                    }
                    return Err(MtkError::Parse);
                }
                let data = slice_to_vec(&raw_data[offset as usize..offset as usize
                    + length as usize]);
                regions.push(DAEntryRegion { data, offset, length, addr, sig_len });
                k = k + 1;
            }
            das.push(
                DA { da_type, regions, magic, hw_code, hw_sub_code, hw_version },
            );
            i = i + 1;
        }
        Ok(DAFile { da_raw_data: slice_to_vec(raw_data), da_type, das })
    }

    /// Container flavour of the raw file, from its first 0x6C bytes.
    fn detect_type(raw_data: &[u8]) -> (r: DAType)
        requires
            raw_data@.len() >= 0x6C,
        ensures
            r == spec_da_type(raw_data@),
    {
        if raw_data[0] == 0xDA && raw_data[1] == 0xDA {
            return DAType::Legacy;
        }
        let mut marker: Vec<u8> = Vec::new();
        marker.push(0x4D);
        marker.push(0x54);
        marker.push(0x4B);
        marker.push(0x5F);
        marker.push(0x44);
        marker.push(0x41);
        marker.push(0x5F);
        marker.push(0x76);
        marker.push(0x36);
        proof {
            assert(marker@ =~= spec_v6_marker());
        }
        let hdr = &raw_data[0..0x6C];
        proof {
            assert(hdr@ =~= raw_data@.take(0x6C));
        }
        match find_pattern(hdr, marker.as_slice(), 0) {
            Some(_) => DAType::V6,
            None => DAType::V5,
        }
    }

    /// Looks up the entry whose chip identifiers match, scanning in
    /// file order; `None` when no entry matches.
    pub fn get_da_from_hw_code(&self, hw_code: u16, hw_sub_code: u16) -> (r: Option<&DA>)
        ensures
            match r {
                Some(da) => exists|i: int|
                    {
                        &&& 0 <= i < self.das@.len()
                        &&& self.das@[i] == *da
                        &&& da.hw_code == hw_code
                        &&& da.hw_sub_code == hw_sub_code
                        &&& forall|j: int|
                            0 <= j < i ==> !(self.das@[j].hw_code == hw_code
                                && self.das@[j].hw_sub_code == hw_sub_code)
                    },
                None => forall|i: int|
                    0 <= i < self.das@.len() ==> !(self.das@[i].hw_code == hw_code
                        && self.das@[i].hw_sub_code == hw_sub_code),
            },
    {
        let mut i: usize = 0;
        while i < self.das.len()
            invariant
                i <= self.das@.len(),
                forall|j: int|
                    0 <= j < i ==> !(self.das@[j].hw_code == hw_code && self.das@[j].hw_sub_code
                        == hw_sub_code),
            decreases self.das@.len() - i,
        {
            if self.das[i].hw_code == hw_code && self.das[i].hw_sub_code == hw_sub_code {
                return Some(&self.das[i]);
            }
            i = i + 1;
        }
        None
    }
}

/// The two regions hold the same parsed values, byte for byte.
pub open spec fn spec_region_equiv(a: DAEntryRegion, b: DAEntryRegion) -> bool {
    &&& a.data@ == b.data@
    &&& a.offset == b.offset
    &&& a.length == b.length
    &&& a.addr == b.addr
    &&& a.sig_len == b.sig_len
}

/// The two entries hold the same parsed values, region by region.
pub open spec fn spec_da_equiv(a: DA, b: DA) -> bool {
    &&& a.da_type == b.da_type
    &&& a.magic == b.magic
    &&& a.hw_code == b.hw_code
    &&& a.hw_sub_code == b.hw_sub_code
    &&& a.hw_version == b.hw_version
    &&& a.regions@.len() == b.regions@.len()
    &&& forall|k: int|
        0 <= k < a.regions@.len() ==> spec_region_equiv(a.regions@[k], #[trigger] b.regions@[k])
}

impl DA {
    /// A value-equal copy of the entry, with every region's bytes
    /// copied.
    pub fn duplicate(&self) -> (r: DA)
        ensures
            spec_da_equiv(*self, r),
    {
        let mut regions: Vec<DAEntryRegion> = Vec::new();
        let mut k: usize = 0;
        while k < self.regions.len()
            invariant
                k <= self.regions@.len(),
                regions@.len() == k,
                forall|m: int|
                    0 <= m < k ==> spec_region_equiv(self.regions@[m], #[trigger] regions@[m]),
            decreases self.regions@.len() - k,
        {
            let reg = &self.regions[k];
            regions.push(
                DAEntryRegion {
                    data: slice_to_vec(reg.data.as_slice()),
                    offset: reg.offset,
                    length: reg.length,
                    addr: reg.addr,
                    sig_len: reg.sig_len,
                },
            );
            k = k + 1;
        }
        DA {
            da_type: self.da_type,
            regions,
            magic: self.magic,
            hw_code: self.hw_code,
            hw_sub_code: self.hw_sub_code,
            hw_version: self.hw_version,
        }
    }

    /// DA1, conventionally the second region; present only when the
    /// entry has at least three regions.
    pub fn get_da1(&self) -> (r: Option<&DAEntryRegion>)
        ensures
            r is Some <==> self.regions@.len() >= 3,
            match r {
                Some(reg) => *reg == self.regions@[1],
                None => self.regions@.len() < 3,
            },
    {
        if self.regions.len() >= 3 {
            Some(&self.regions[1])
        } else {
            None
        }
    }

    /// DA2, conventionally the third region; present only when the
    /// entry has at least three regions.
    pub fn get_da2(&self) -> (r: Option<&DAEntryRegion>)
        ensures
            r is Some <==> self.regions@.len() >= 3,
            match r {
                Some(reg) => *reg == self.regions@[2],
                None => self.regions@.len() < 3,
            },
    {
        if self.regions.len() >= 3 {
            Some(&self.regions[2])
        } else {
            None
        }
    }
}

} // verus!
