//! Storage model and GPT partition-table parser.
//!
//! The GPT magic is looked for at a set of candidate sector sizes, but
//! the working sector size is then pinned at 512, matching the devices
//! this stack is used with, whatever their GPT announces.  The header
//! in the second sector gives the entry table's LBA, the entry count
//! and the entry size (only 128 is supported); entries whose type GUID
//! is all zero are skipped.

use vstd::prelude::*;
use vstd::bytes::*;

use crate::error::MtkError;
use crate::utilities::{bytes_equal, is_all_zero};

verus! {

/// Kind of flash behind the DA, with its on-wire storage code.
#[derive(Debug, Clone, Copy, PartialEq, Eq, Structural)]
pub enum StorageType {
    Unknown,
    Emmc,
    Ufs,
}

impl StorageType {
    /// On-wire storage code: 1 for eMMC, 0x30 for UFS.
    pub open spec fn spec_code(self) -> u32 {
        match self {
            StorageType::Unknown => 0,
            StorageType::Emmc => 0x1,
            StorageType::Ufs => 0x30,
        }
    }

    /// On-wire storage code: 1 for eMMC, 0x30 for UFS.
    pub fn code(self) -> (r: u32)
        ensures
            r == self.spec_code(),
    {
        match self {
            StorageType::Unknown => 0,
            StorageType::Emmc => 0x1,
            StorageType::Ufs => 0x30,
        }
    }
}

/// eMMC hardware partitions, with their on-wire codes.
#[derive(Debug, Clone, Copy, PartialEq, Eq, Structural)]
pub enum EmmcPartition {
    Boot1,
    Boot2,
    Rpmb,
    Gp1,
    Gp2,
    Gp3,
    Gp4,
    User,
    End,
    Boot1Boot2,
}

impl EmmcPartition {
    /// On-wire partition code.
    pub open spec fn spec_code(self) -> u32 {
        match self {
            EmmcPartition::Boot1 => 1,
            EmmcPartition::Boot2 => 2,
            EmmcPartition::Rpmb => 3,
            EmmcPartition::Gp1 => 4,
            EmmcPartition::Gp2 => 5,
            EmmcPartition::Gp3 => 6,
            EmmcPartition::Gp4 => 7,
            EmmcPartition::User => 8,
            EmmcPartition::End => 9,
            EmmcPartition::Boot1Boot2 => 10,
        }
    }

    /// On-wire partition code.
    pub fn code(self) -> (r: u32)
        ensures
            r == self.spec_code(),
    {
        match self {
            EmmcPartition::Boot1 => 1,
            EmmcPartition::Boot2 => 2,
            EmmcPartition::Rpmb => 3,
            EmmcPartition::Gp1 => 4,
            EmmcPartition::Gp2 => 5,
            EmmcPartition::Gp3 => 6,
            EmmcPartition::Gp4 => 7,
            EmmcPartition::User => 8,
            EmmcPartition::End => 9,
            EmmcPartition::Boot1Boot2 => 10,
        }
    }
}

/// UFS logical units, with their on-wire codes.
#[derive(Debug, Clone, Copy, PartialEq, Eq, Structural)]
pub enum UfsPartition {
    Lu0,
    Lu1,
    Lu2,
    Lu3,
    Lu4,
    Lu5,
    Lu6,
    Lu7,
    Lu8,
}

impl UfsPartition {
    /// On-wire logical-unit code.
    pub open spec fn spec_code(self) -> u32 {
        match self {
            UfsPartition::Lu0 => 0,
            UfsPartition::Lu1 => 1,
            UfsPartition::Lu2 => 2,
            UfsPartition::Lu3 => 3,
            UfsPartition::Lu4 => 4,
            UfsPartition::Lu5 => 5,
            UfsPartition::Lu6 => 6,
            UfsPartition::Lu7 => 7,
            UfsPartition::Lu8 => 8,
        }
    }

    /// On-wire logical-unit code.
    pub fn code(self) -> (r: u32)
        ensures
            r == self.spec_code(),
    {
        match self {
            UfsPartition::Lu0 => 0,
            UfsPartition::Lu1 => 1,
            UfsPartition::Lu2 => 2,
            UfsPartition::Lu3 => 3,
            UfsPartition::Lu4 => 4,
            UfsPartition::Lu5 => 5,
            UfsPartition::Lu6 => 6,
            UfsPartition::Lu7 => 7,
            UfsPartition::Lu8 => 8,
        }
    }
}

/// Which hardware partition a GPT partition lives on.
#[derive(Debug, Clone, Copy, PartialEq, Eq, Structural)]
pub enum PartitionKind {
    Emmc(EmmcPartition),
    Ufs(UfsPartition),
    Unknown,
}

/// One GPT partition: UTF-16-decoded name, byte size, byte address on
/// the storage, and the hardware partition it lives on.
#[derive(Debug, Clone)]
pub struct Partition {
    pub name: String,
    pub size: usize,
    pub address: u64,
    pub kind: PartitionKind,
}

impl Partition {
    /// Plain constructor.
    pub fn new(name: &str, size: usize, address: u64, kind: PartitionKind) -> (r: Partition)
        ensures
            r.name@ == name@,
            r.size == size,
            r.address == address,
            r.kind == kind,
    {
        Partition { name: name.to_owned(), size, address, kind }
    }
}

/// What UTF-16 units decode to.  Relies on `String::from_utf16_lossy`;
/// the result is a function of the units alone.
pub uninterp spec fn utf16_lossy_of(units: Seq<u16>) -> Seq<char>;

/// Relies on String::from_utf16_lossy: decodes UTF-16 code units,
/// replacing invalid data with U+FFFD; no units decode to the empty
/// string.
#[verifier::external_body]
fn utf16_lossy(units: &Vec<u16>) -> (r: String)
    ensures
        r@ == utf16_lossy_of(units@),
        units@.len() == 0 ==> r@.len() == 0,
{
    String::from_utf16_lossy(units.as_slice())
}

/// The eight magic bytes `"EFI PART"`.
pub open spec fn spec_gpt_magic() -> Seq<u8> {
    seq![0x45u8, 0x46u8, 0x49u8, 0x20u8, 0x50u8, 0x41u8, 0x52u8, 0x54u8]
}

/// The GPT magic stands at offset `ss`.
pub open spec fn spec_magic_at(data: Seq<u8>, ss: int) -> bool {
    &&& ss + 8 <= data.len()
    &&& data.subrange(ss, ss + 8) == spec_gpt_magic()
}

/// The magic was found at one of the candidate sector sizes.
pub open spec fn spec_gpt_detected(data: Seq<u8>) -> bool {
    ||| spec_magic_at(data, 512)
    ||| spec_magic_at(data, 4096)
    ||| spec_magic_at(data, 0x8000)
    ||| spec_magic_at(data, 0x10000)
    ||| spec_magic_at(data, 0x20000)
}

/// LBA of the partition entry table, from header offset 72.
pub open spec fn spec_entry_lba(data: Seq<u8>) -> int {
    spec_u64_from_le_bytes(data.subrange(584, 592)) as int
}

/// Number of partition entries, from header offset 80.
pub open spec fn spec_num_entries(data: Seq<u8>) -> int {
    spec_u32_from_le_bytes(data.subrange(592, 596)) as int
}

/// Size of one partition entry, from header offset 84.
pub open spec fn spec_entry_size_gpt(data: Seq<u8>) -> int {
    spec_u32_from_le_bytes(data.subrange(596, 600)) as int
}

/// Byte offset of the entry table, at the fixed 512-byte sector size.
pub open spec fn spec_entries_start(data: Seq<u8>) -> int {
    spec_entry_lba(data) * 512
}

/// The entry at `off` has an all-zero type GUID and is skipped.
pub open spec fn spec_entry_empty(data: Seq<u8>, off: int) -> bool {
    forall|m: int| 0 <= m < 16 ==> #[trigger] data[off + m] == 0
}

/// First LBA of the entry at `off`.
pub open spec fn spec_first_lba(data: Seq<u8>, off: int) -> int {
    spec_u64_from_le_bytes(data.subrange(off + 32, off + 40)) as int
}

/// Last LBA of the entry at `off`.
pub open spec fn spec_last_lba(data: Seq<u8>, off: int) -> int {
    spec_u64_from_le_bytes(data.subrange(off + 40, off + 48)) as int
}

/// A non-empty entry is acceptable: its LBA range is ordered and its
/// byte size and address fit the machine's integers.
pub open spec fn spec_entry_good(data: Seq<u8>, off: int) -> bool {
    let f = spec_first_lba(data, off);
    let l = spec_last_lba(data, off);
    &&& l >= f
    &&& (l - f + 1) * 512 <= u64::MAX
    &&& (l - f + 1) * 512 <= usize::MAX
    &&& f * 512 <= u64::MAX
}

/// The 36 UTF-16 code units of the entry's name field.
pub open spec fn spec_name_units(data: Seq<u8>, off: int) -> Seq<u16> {
    Seq::new(36, |i: int| spec_u16_from_le_bytes(data.subrange(off + 56 + 2 * i, off + 58 + 2 * i)))
}

/// Indices of the non-empty entries among the first `n`, in order.
pub open spec fn spec_nonempty_indices(data: Seq<u8>, start: int, n: int) -> Seq<int>
    decreases n,
{
    if n <= 0 {
        Seq::empty()
    } else {
        let prev = spec_nonempty_indices(data, start, n - 1);
        if spec_entry_empty(data, start + (n - 1) * 128) {
            prev
        } else {
            prev + seq![n - 1]
        }
    }
}

/// The whole table can be parsed: magic found, header in bounds,
/// 128-byte entries, table in bounds, and every non-empty entry
/// acceptable.
pub open spec fn spec_gpt_parseable(data: Seq<u8>) -> bool {
    &&& spec_gpt_detected(data)
    &&& data.len() >= 1024
    &&& spec_entry_size_gpt(data) == 128
    &&& spec_entries_start(data) + spec_num_entries(data) * 128 <= data.len()
    &&& forall|e: int|
        0 <= e < spec_num_entries(data) && !spec_entry_empty(
            data,
            spec_entries_start(data) + e * 128,
        ) ==> #[trigger] spec_entry_good(data, spec_entries_start(data) + e * 128)
}

/// The hardware partition GPT partitions are attributed to, per
/// storage kind.
pub open spec fn spec_kind_for(storage_type: StorageType) -> PartitionKind {
    match storage_type {
        StorageType::Emmc => PartitionKind::Emmc(EmmcPartition::User),
        StorageType::Ufs => PartitionKind::Ufs(UfsPartition::Lu2),
        StorageType::Unknown => PartitionKind::Unknown,
    }
}

/// `name` is the decoding of the first `k` name units of the entry at
/// `off`, where unit `k` is the terminating NUL (or `k` is 36 and no
/// NUL occurs).
pub open spec fn spec_name_prefix_ok(data: Seq<u8>, off: int, name: Seq<char>, k: int) -> bool {
    &&& 0 <= k <= 36
    &&& (k == 36 || spec_name_units(data, off)[k] == 0)
    &&& (forall|m: int| 0 <= m < k ==> spec_name_units(data, off)[m] != 0)
    &&& name == utf16_lossy_of(spec_name_units(data, off).take(k))
}

/// `p` is the partition decoded from the non-empty entry at `off`:
/// address and size derived from the LBA range at the fixed 512-byte
/// sector size, and the name decoded from the units before the first
/// NUL.
pub open spec fn spec_partition_ok(
    data: Seq<u8>,
    off: int,
    kind: PartitionKind,
    p: Partition,
) -> bool {
    let f = spec_first_lba(data, off);
    let l = spec_last_lba(data, off);
    &&& p.kind == kind
    &&& p.address == f * 512
    &&& p.size == (l - f + 1) * 512
    &&& exists|k: int| spec_name_prefix_ok(data, off, p.name@, k)
}

/// `parts` is exactly the sequence of partitions decoded from the
/// non-empty entries of the GPT in `data`, in table order, attributed
/// to `kind`.
pub open spec fn spec_gpt_result(data: Seq<u8>, kind: PartitionKind, parts: Seq<Partition>) -> bool {
    let idxs = spec_nonempty_indices(data, spec_entries_start(data), spec_num_entries(data));
    &&& parts.len() == idxs.len()
    &&& forall|i: int|
        0 <= i < idxs.len() ==> spec_partition_ok(
            data,
            spec_entries_start(data) + idxs[i] * 128,
            kind,
            #[trigger] parts[i],
        )
}

/// Tests for the GPT magic at offset `ss`.
fn magic_at(data: &[u8], ss: usize) -> (r: bool)
    ensures
        r == spec_magic_at(data@, ss as int),
{
    if data.len() < 8 || ss > data.len() - 8 {
        return false;
    }
    let mut magic: Vec<u8> = Vec::new();
    magic.push(0x45);
    magic.push(0x46);
    magic.push(0x49);
    magic.push(0x20);
    magic.push(0x50);
    magic.push(0x41);
    magic.push(0x52);
    magic.push(0x54);
    proof {
        assert(magic@ =~= spec_gpt_magic());
    }
    bytes_equal(&data[ss..ss + 8], magic.as_slice())
}

/// Parses the GPT at the fixed 512-byte working sector size and
/// returns the non-empty partitions in table order.  `Unsupported` is
/// returned for an entry size other than 128, `Parse` for a missing
/// magic, a truncated table, or an entry whose LBA range is reversed
/// or overflows.
pub fn parse_gpt(data: &[u8], storage_type: StorageType) -> (r: Result<Vec<Partition>, MtkError>)
    ensures
        r is Ok <==> spec_gpt_parseable(data@),
        r is Ok ==> spec_gpt_result(data@, spec_kind_for(storage_type), r->Ok_0@),
        r is Err ==> (r == Result::<Vec<Partition>, MtkError>::Err(MtkError::Parse) || r
            == Result::<Vec<Partition>, MtkError>::Err(MtkError::Unsupported)),
        (spec_gpt_detected(data@) && data@.len() >= 1024 && spec_entry_size_gpt(data@) != 128) ==> r
            == Result::<Vec<Partition>, MtkError>::Err(MtkError::Unsupported),
        (r is Err && !(spec_gpt_detected(data@) && data@.len() >= 1024 && spec_entry_size_gpt(
            data@,
        ) != 128)) ==> r == Result::<Vec<Partition>, MtkError>::Err(MtkError::Parse),
{
    let detected = magic_at(data, 512) || magic_at(data, 4096) || magic_at(data, 0x8000)
        || magic_at(data, 0x10000) || magic_at(data, 0x20000);
    if !detected {
        return Err(MtkError::Parse);
    }
    if data.len() < 1024 {
        return Err(MtkError::Parse);
    }
    let entry_lba = u64_from_le_bytes(&data[584..592]);
    let num_entries = u32_from_le_bytes(&data[592..596]);
    let entry_size = u32_from_le_bytes(&data[596..600]);
    if entry_size != 128 {
        return Err(MtkError::Unsupported);
    }
    let start_u64: u64 = match entry_lba.checked_mul(512) {
        Some(s) => s,
        None => {
            return Err(MtkError::Parse);
        },
    };
    if start_u64 > usize::MAX as u64 {
        return Err(MtkError::Parse);
    }
    let start: usize = start_u64 as usize;
    let table_len: usize = match (num_entries as usize).checked_mul(128) {
        Some(t) => t,
        None => {
            return Err(MtkError::Parse);
        },
    };
    let table_end: usize = match start.checked_add(table_len) {
        Some(t) => t,
        None => {
            return Err(MtkError::Parse);
        },
    };
    if table_end > data.len() {
        return Err(MtkError::Parse);
    }
    let kind = match storage_type {
        StorageType::Emmc => PartitionKind::Emmc(EmmcPartition::User),
        StorageType::Ufs => PartitionKind::Ufs(UfsPartition::Lu2),
        StorageType::Unknown => PartitionKind::Unknown,
    };
    let mut partitions: Vec<Partition> = Vec::new();
    let mut e: usize = 0;
    while e < num_entries as usize
        invariant
            data@.len() >= 1024,
            data@.len() <= usize::MAX,
            spec_gpt_detected(data@),
            spec_entry_size_gpt(data@) == 128,
            start == spec_entries_start(data@),
            num_entries as int == spec_num_entries(data@),
            start + num_entries as int * 128 <= data@.len(),
            kind == spec_kind_for(storage_type),
            e <= num_entries as usize,
            forall|j: int|
                0 <= j < e && !spec_entry_empty(data@, start + j * 128)
                    ==> #[trigger] spec_entry_good(data@, start + j * 128),
            partitions@.len() == spec_nonempty_indices(data@, start as int, e as int).len(),
            forall|i: int|
                0 <= i < partitions@.len() ==> spec_partition_ok(
                    data@,
                    start + spec_nonempty_indices(data@, start as int, e as int)[i] * 128,
                    kind,
                    #[trigger] partitions@[i],
                ),
        decreases num_entries as usize - e,
    {
        let off: usize = start + e * 128;
        proof {
            assert((e + 1) * 128 <= num_entries as int * 128) by (nonlinear_arith)
                requires
                    e + 1 <= num_entries as int,
            ;
        }
        let empty = is_all_zero(&data[off..off + 16]);
        proof {
            assert(empty == spec_entry_empty(data@, off as int)) by {
                if empty {
                    assert forall|m: int| 0 <= m < 16 implies #[trigger] data@[off + m] == 0 by {
                        assert(data@.subrange(off as int, off + 16)[m] == data@[off + m]);
                    }
                } else {
                    let m = choose|m: int|
                        0 <= m < 16 && #[trigger] data@.subrange(off as int, off + 16)[m] != 0;
                    assert(data@[off + m] != 0);
                }
            }
            assert(spec_nonempty_indices(data@, start as int, e + 1) == if spec_entry_empty(
                data@,
                start + e as int * 128,
            ) {
                spec_nonempty_indices(data@, start as int, e as int)
            } else {
                spec_nonempty_indices(data@, start as int, e as int) + seq![e as int]
            });
        }
        if !empty {
            let first_lba = u64_from_le_bytes(&data[off + 32..off + 40]);
            let last_lba = u64_from_le_bytes(&data[off + 40..off + 48]);
            if last_lba < first_lba {
                proof {
                    assert(!spec_entry_good(data@, off as int));
                }
                return Err(MtkError::Parse);
            }
            let span: u64 = match (last_lba - first_lba).checked_add(1) {
                Some(s) => s,
                None => {
                    proof {
                        assert(!spec_entry_good(data@, off as int));
                    }
                    return Err(MtkError::Parse);
                },
            };
            let part_size_u64: u64 = match span.checked_mul(512) {
                Some(s) => s,
                None => {
                    proof {
                        assert(!spec_entry_good(data@, off as int));
                    }
                    return Err(MtkError::Parse);
                },
            };
            if part_size_u64 > usize::MAX as u64 {
                proof {
                    assert(!spec_entry_good(data@, off as int));
                }
                return Err(MtkError::Parse);
            }
            let part_addr: u64 = match first_lba.checked_mul(512) {
                Some(a) => a,
                None => {
                    proof {
                        assert(!spec_entry_good(data@, off as int));
                    }
                    return Err(MtkError::Parse);
                },
            };
            let mut units: Vec<u16> = Vec::new();
            let mut j: usize = 0;
            let mut terminated: bool = false;
            while j < 36 && !terminated
                invariant
                    data@.len() <= usize::MAX,
                    off + 128 <= data@.len(),
                    j <= 36,
                    !terminated ==> units@ == spec_name_units(data@, off as int).take(j as int),
                    !terminated ==> forall|m: int|
                        0 <= m < j ==> spec_name_units(data@, off as int)[m] != 0,
                    terminated ==> {
                        &&& j >= 1
                        &&& units@ == spec_name_units(data@, off as int).take(j - 1)
                        &&& spec_name_units(data@, off as int)[j - 1] == 0
                        &&& forall|m: int|
                            0 <= m < j - 1 ==> spec_name_units(data@, off as int)[m] != 0
                    },
                decreases 36 - j,
            {
                let u = u16_from_le_bytes(&data[off + 56 + 2 * j..off + 58 + 2 * j]);
                proof {
                    assert(u == spec_name_units(data@, off as int)[j as int]);
                }
                if u == 0 {
                    terminated = true;
                } else {
                    units.push(u);
                    proof {
                        assert(units@ =~= spec_name_units(data@, off as int).take(j + 1));
                    }
                }
                j = j + 1;
            }
            let name = utf16_lossy(&units);
            let ghost units_view = units@;
            let ghost name_view = name@;
            let part = Partition { name, size: part_size_u64 as usize, address: part_addr, kind };
            partitions.push(part);
            proof {
                let k: int = if terminated {
                    j - 1
                } else {
                    j as int
                };
                let us = spec_name_units(data@, off as int);
                let p = partitions@[partitions@.len() - 1];
                assert(units_view == us.take(k));
                assert(p.name@ == utf16_lossy_of(us.take(k)));
                assert(spec_name_prefix_ok(data@, off as int, p.name@, k));
                assert(p.address == spec_first_lba(data@, off as int) * 512);
                assert(p.size == (spec_last_lba(data@, off as int) - spec_first_lba(
                    data@,
                    off as int,
                ) + 1) * 512);
                assert(spec_partition_ok(data@, off as int, kind, p));
            }
        }
        e = e + 1;
    }
    Ok(partitions)
}

} // verus!
