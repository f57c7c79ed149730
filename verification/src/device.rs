//! Device façade: composes the preloader connection, the DA file and
//! the XFlash driver into the session workflows.
//!
//! A session runs `init` (handshake and chip identification, DA
//! selection), `enter_da_mode` (DA1/DA2 bring-up and GPT caching),
//! then partition reads and writes, including the seccfg lock-state
//! update.  The SEJ-sealed seccfg variants need the on-die crypto
//! block and are refused here; the façade implements the plainly
//! sealed path and exposes the register capability the crypto layer
//! would drive.

use vstd::prelude::*;
use vstd::bytes::spec_u16_from_le_bytes;

use crate::connection::{Connection, ConnectionType};
use crate::crypto::CryptoIO;
use crate::da::{DAFile, DAType};
use crate::error::MtkError;
use crate::flash::{spec_read_flash_post, spec_write_flash_post};
use crate::seccfg::{
    lemma_lock_semantics, spec_lock_values, spec_seccfg_parseable, spec_word_at, LockFlag,
    SecCfgV4,
};
use crate::storage::{
    parse_gpt, spec_gpt_parseable, spec_gpt_result, Partition, PartitionKind, StorageType,
};
use crate::xflash::XFlash;

verus! {

/// Everything the session learns about the chip: identifiers from the
/// preloader, and the storage layout once the DA runs.
pub struct DeviceInfo {
    pub chipset: String,
    pub soc_id: Vec<u8>,
    pub meid: Vec<u8>,
    pub hw_code: u16,
    pub storage: StorageType,
    pub partitions: Vec<Partition>,
}

/// The chip identifiers the wire announced, when the whole
/// identification sequence (handshake, both identifiers, hardware
/// code and version) was accepted.
pub open spec fn spec_ident_codes(s: Seq<u8>, p: int) -> Option<(u16, u16)> {
    match crate::connection::spec_hs_run(s, p, 0) {
        None => None,
        Some((h, hs_tx)) => match crate::connection::spec_id_accepts(
            s,
            h,
            crate::command::Command::GetSocId.spec_code(),
        ) {
            None => None,
            Some(h1) => match crate::connection::spec_id_accepts(
                s,
                h1,
                crate::command::Command::GetMeId.spec_code(),
            ) {
                None => None,
                Some(h2) => match crate::connection::spec_hw_code_accepts(s, h2) {
                    None => None,
                    Some(h3) => if crate::connection::spec_hw_sw_ver_accepts(s, h3) is Some {
                        Some(
                            (
                                crate::connection::spec_reply_word(s, h2),
                                crate::connection::spec_reply_word(s, h3),
                            ),
                        )
                    } else {
                        None
                    },
                },
            },
        },
    }
}

/// `da` is the first entry of the parsed DA file whose chip
/// identifiers equal `hw` and `sub`, tied field for field and region
/// for region to the file's bytes.
pub open spec fn spec_selected_entry(
    da_data: Seq<u8>,
    hw: u16,
    sub: u16,
    da: crate::da::DA,
) -> bool {
    let dt = crate::da::spec_da_type(da_data);
    exists|i: int|
        #![trigger crate::da::spec_entry_base(dt, i)]
        {
            let base = crate::da::spec_entry_base(dt, i);
            &&& 0 <= i < crate::da::spec_num_socs(da_data)
            &&& spec_u16_from_le_bytes(da_data.subrange(base + 2, base + 4)) == hw
            &&& spec_u16_from_le_bytes(da_data.subrange(base + 4, base + 6)) == sub
            &&& (forall|m: int|
                #![trigger crate::da::spec_entry_base(dt, m)]
                0 <= m < i ==> !(spec_u16_from_le_bytes(
                    da_data.subrange(
                        crate::da::spec_entry_base(dt, m) + 2,
                        crate::da::spec_entry_base(dt, m) + 4,
                    ),
                ) == hw && spec_u16_from_le_bytes(
                    da_data.subrange(
                        crate::da::spec_entry_base(dt, m) + 4,
                        crate::da::spec_entry_base(dt, m) + 6,
                    ),
                ) == sub))
            &&& crate::da::spec_entry_ok(da_data, dt, i, da)
        }
}

/// Everything a successful `init` pins, as a function of the incoming
/// transcript: the handshake trace, the three identifier exchanges
/// with the recorded values, the exact outgoing bytes, and — with DA
/// bytes supplied — the `GetHwSwVer` exchange and the selected entry.
pub open spec fn spec_init_ok(
    s: Seq<u8>,
    p: int,
    out0: Seq<u8>,
    da_data: Seq<u8>,
    dev: Device,
) -> bool {
    match crate::connection::spec_hs_run(s, p, 0) {
        None => false,
        Some((h, hs_tx)) => match crate::connection::spec_id_accepts(
            s,
            h,
            crate::command::Command::GetSocId.spec_code(),
        ) {
            None => false,
            Some(h1) => match crate::connection::spec_id_accepts(
                s,
                h1,
                crate::command::Command::GetMeId.spec_code(),
            ) {
                None => false,
                Some(h2) => match crate::connection::spec_hw_code_accepts(s, h2) {
                    None => false,
                    Some(h3) => {
                        &&& dev.dev_info.soc_id@ == crate::connection::spec_id_value(s, h)
                        &&& dev.dev_info.meid@ == crate::connection::spec_id_value(s, h1)
                        &&& dev.dev_info.hw_code == crate::connection::spec_reply_word(s, h2)
                        &&& (da_data.len() == 0 ==> (dev.connection matches Some(c) && {
                            &&& c.channel.incoming@ == s
                            &&& c.channel.pos == h3
                            &&& c.channel.outgoing@ == out0 + hs_tx + seq![
                                crate::command::Command::GetSocId.spec_code(),
                            ] + seq![crate::command::Command::GetMeId.spec_code()] + seq![
                                crate::command::Command::GetHwCode.spec_code(),
                            ]
                        }))
                        &&& (da_data.len() > 0 ==> (
                        match crate::connection::spec_hw_sw_ver_accepts(s, h3) {
                            None => false,
                            Some(h4) => dev.protocol matches Some(x) && {
                                &&& x.conn.channel.incoming@ == s
                                &&& x.conn.channel.pos == h4
                                &&& x.conn.channel.outgoing@ == out0 + hs_tx + seq![
                                    crate::command::Command::GetSocId.spec_code(),
                                ] + seq![crate::command::Command::GetMeId.spec_code()] + seq![
                                    crate::command::Command::GetHwCode.spec_code(),
                                ] + seq![crate::command::Command::GetHwSwVer.spec_code()]
                                &&& spec_selected_entry(
                                    da_data,
                                    crate::connection::spec_reply_word(s, h2),
                                    crate::connection::spec_reply_word(s, h3),
                                    x.da,
                                )
                            },
                        }))
                    },
                },
            },
        },
    }
}

/// Everything a successful DA-mode entry pins, as a function of the
/// old driver state: the DA1/DA2 bring-up accepted, the GPT read
/// accepted with the partitions parsed from exactly the bytes the
/// device returned, and the exact outgoing bytes and cursor.
pub open spec fn spec_enter_ok(p: XFlash, dev: Device) -> bool {
    &&& p.da.regions@.len() >= 3
    &&& match crate::xflash::spec_stage1_accepts(
        p.inc(),
        p.pos(),
        p.da.regions@[1].addr,
        p.da.regions@[1].length,
        p.da.regions@[1].sig_len,
    ) {
        None => false,
        Some(q) => match crate::xflash::spec_boot_to_accepts(p.inc(), q) {
            None => false,
            Some(q2) => match crate::xflash::spec_status_at(p.inc(), q2) {
                None => false,
                Some((st1, q3)) => st1 == 0 && (match crate::xflash::spec_status_at(p.inc(), q3) {
                    None => false,
                    Some((st2, q4)) => st2 == 0 && (match crate::flash::spec_read_chunks(
                        p.inc(),
                        q4,
                        0,
                        0x8000,
                    ) {
                        None => false,
                        Some((buf, q5, n)) => {
                            &&& spec_gpt_parseable(buf)
                            &&& spec_gpt_result(
                                buf,
                                PartitionKind::Emmc(crate::storage::EmmcPartition::User),
                                dev.dev_info.partitions@,
                            )
                            &&& (dev.protocol matches Some(p2) && {
                                &&& p2.conn.channel.incoming@ == p.inc()
                                &&& p2.pos() == q5
                                &&& p2.out() == p.out() + crate::xflash::spec_stage1_tx(
                                    p.da.regions@[1].addr,
                                    p.da.regions@[1].length,
                                    p.da.regions@[1].data@,
                                    p.da.regions@[1].sig_len,
                                ) + crate::xflash::spec_boot_to_tx(
                                    p.da.regions@[2].addr,
                                    p.da.regions@[2].data@,
                                ) + crate::xflash::spec_send_bytes(
                                    crate::xflash::Cmd::ReadData.spec_code(),
                                    1,
                                ) + crate::frame::spec_frame(
                                    1,
                                    crate::flash::spec_flash_params(1, 8, 0, 0x8000),
                                ) + crate::flash::spec_repeat(crate::flash::spec_ack_frame(), n)
                            })
                        },
                    }),
                }),
            },
        },
    }
}

/// Some partition carries `name`; then a first one does.
proof fn lemma_first_named(parts: Seq<Partition>, name: Seq<char>, j: int)
    requires
        0 <= j < parts.len(),
        parts[j].name@ == name,
    ensures
        exists|i: int|
            {
                &&& 0 <= i < parts.len()
                &&& (#[trigger] parts[i].name@) == name
                &&& forall|m: int| 0 <= m < i ==> (#[trigger] parts[m].name@) != name
            },
    decreases j,
{
    if forall|m: int| 0 <= m < j ==> (#[trigger] parts[m].name@) != name {
    } else {
        let m = choose|m: int| 0 <= m < j && (#[trigger] parts[m].name@) == name;
        lemma_first_named(parts, name, m);
    }
}

/// Everything a successful lock-state update pins, for a port already
/// in DA mode: the first cached "seccfg" partition, the read exchange
/// accepted with a well-formed record, the returned bytes equal to
/// that record re-serialised under the flag with a plain seal, and
/// the write-back of exactly those bytes accepted, down to the final
/// outgoing bytes and cursor.
pub open spec fn spec_set_lock_ok(
    p: XFlash,
    parts: Seq<Partition>,
    flag: LockFlag,
    b: Seq<u8>,
    dev: Device,
) -> bool {
    exists|i: int|
        #![trigger parts[i].name@]
        {
            &&& 0 <= i < parts.len()
            &&& parts[i].name@ == "seccfg"@
            &&& (forall|m: int| 0 <= m < i ==> (#[trigger] parts[m].name@) != "seccfg"@)
            &&& parts[i].size >= 512
            &&& match crate::xflash::spec_status_at(p.inc(), p.pos()) {
                None => false,
                Some((st1, p1)) => st1 == 0 && (match crate::xflash::spec_status_at(
                    p.inc(),
                    p1,
                ) {
                    None => false,
                    Some((st2, p2)) => st2 == 0 && (match crate::flash::spec_read_chunks(
                        p.inc(),
                        p2,
                        0,
                        parts[i].size as int,
                    ) {
                        None => false,
                        Some((raw, p3, n)) => {
                            &&& spec_seccfg_parseable(raw)
                            &&& b == crate::seccfg::spec_create_bytes(
                                spec_word_at(raw, 4),
                                spec_word_at(raw, 8),
                                spec_lock_values(flag).0,
                                spec_lock_values(flag).1,
                                spec_word_at(raw, 20),
                                crate::seccfg::sha256_of(
                                    crate::seccfg::spec_header_bytes(
                                        spec_word_at(raw, 4),
                                        spec_word_at(raw, 8),
                                        spec_lock_values(flag).0,
                                        spec_lock_values(flag).1,
                                        spec_word_at(raw, 20),
                                    ),
                                ),
                            )
                            &&& match crate::xflash::spec_status_at(p.inc(), p3) {
                                None => false,
                                Some((w1, q1)) => w1 == 0 && (
                                match crate::xflash::spec_status_at(p.inc(), q1) {
                                    None => false,
                                    Some((w2, q2)) => w2 == 0 && (
                                    match crate::flash::spec_write_statuses(
                                        p.inc(),
                                        q2,
                                        crate::flash::spec_num_chunks(512),
                                    ) {
                                        None => false,
                                        Some(q3) => match crate::xflash::spec_status_at(
                                            p.inc(),
                                            q3,
                                        ) {
                                            None => false,
                                            Some((wl, q4)) => wl == 0 && (
                                            dev.protocol matches Some(pf) && {
                                                &&& pf.conn.channel.incoming@ == p.inc()
                                                &&& pf.pos() == q4
                                                &&& pf.out() == p.out()
                                                    + crate::xflash::spec_send_bytes(
                                                    crate::xflash::Cmd::ReadData.spec_code(),
                                                    1,
                                                ) + crate::frame::spec_frame(
                                                    1,
                                                    crate::flash::spec_flash_params(
                                                        1,
                                                        8,
                                                        parts[i].address,
                                                        parts[i].size as u64,
                                                    ),
                                                ) + crate::flash::spec_repeat(
                                                    crate::flash::spec_ack_frame(),
                                                    n,
                                                ) + crate::xflash::spec_send_bytes(
                                                    crate::xflash::Cmd::WriteData.spec_code(),
                                                    1,
                                                ) + crate::frame::spec_frame(
                                                    1,
                                                    crate::flash::spec_flash_params(
                                                        1,
                                                        8,
                                                        parts[i].address,
                                                        512,
                                                    ),
                                                ) + crate::flash::spec_write_chunks_tx(
                                                    crate::flash::spec_normalized(b, 512),
                                                )
                                            }),
                                        },
                                    }),
                                }),
                            }
                        },
                    }),
                }),
            }
        }
}

/// One serviced device: its info record, and either a bare preloader
/// connection or the XFlash driver that took the port over.
pub struct Device {
    pub dev_info: DeviceInfo,
    pub connection: Option<Connection>,
    pub protocol: Option<XFlash>,
    pub connected: bool,
}

impl Device {
    /// Whichever side owns the port has a well-formed transcript.
    pub open spec fn wf(self) -> bool {
        &&& (self.protocol matches Some(p) ==> p.wf())
        &&& (self.connection matches Some(c) ==> c.wf())
    }

    /// Brings a device up: runs the handshake, reads the SoC id, MEID
    /// and hardware code, and — when DA bytes are supplied — parses
    /// the DA file, selects the entry for the chip (`NotFound` when
    /// none matches, `Unsupported` for a non-V5 container) and hands
    /// the connection to the XFlash driver.
    pub fn init(connection: Connection, da_data: &[u8]) -> (r: Result<Device, MtkError>)
        requires
            connection.wf(),
        ensures
            r is Ok ==> {
                let dev = r->Ok_0;
                &&& dev.wf()
                &&& dev.connected
                &&& dev.dev_info.storage == StorageType::Unknown
                &&& dev.dev_info.partitions@.len() == 0
                &&& (da_data@.len() == 0 ==> dev.protocol is None && dev.connection is Some)
                &&& (da_data@.len() > 0 ==> dev.connection is None && (
                dev.protocol matches Some(x) && x.da.da_type == DAType::V5 && x.da.hw_code
                    == dev.dev_info.hw_code && !x.using_exts))
            },
            // The result is the transcript's: identifiers and hardware
            // code from the accepted exchanges, the request bytes on
            // the outgoing side, and the DA entry selected for the
            // chip the wire announced.
            r is Ok ==> spec_init_ok(
                connection.channel.incoming@,
                connection.channel.pos as int,
                connection.channel.outgoing@,
                da_data@,
                r->Ok_0,
            ),
            // With an accepted identification and a parseable DA
            // file, a chip no entry matches is NotFound ...
            ({
                let s = connection.channel.incoming@;
                let p = connection.channel.pos as int;
                let dt = crate::da::spec_da_type(da_data@);
                (da_data@.len() > 0 && (spec_ident_codes(s, p) matches Some((hw, sub)) && {
                    &&& da_data@.len() >= 0x6C
                    &&& (forall|i: int|
                        0 <= i < crate::da::spec_num_socs(da_data@)
                            ==> crate::da::spec_entry_parseable(da_data@, dt, i))
                    &&& (forall|i: int|
                        #![trigger crate::da::spec_entry_base(dt, i)]
                        0 <= i < crate::da::spec_num_socs(da_data@) ==> !(spec_u16_from_le_bytes(
                            da_data@.subrange(
                                crate::da::spec_entry_base(dt, i) + 2,
                                crate::da::spec_entry_base(dt, i) + 4,
                            ),
                        ) == hw && spec_u16_from_le_bytes(
                            da_data@.subrange(
                                crate::da::spec_entry_base(dt, i) + 4,
                                crate::da::spec_entry_base(dt, i) + 6,
                            ),
                        ) == sub))
                })) ==> r == Result::<Device, MtkError>::Err(MtkError::NotFound)
            }),
            // ... and a matching entry of a non-V5 container is
            // Unsupported.
            ({
                let s = connection.channel.incoming@;
                let p = connection.channel.pos as int;
                let dt = crate::da::spec_da_type(da_data@);
                (da_data@.len() > 0 && (spec_ident_codes(s, p) matches Some((hw, sub)) && {
                    &&& da_data@.len() >= 0x6C
                    &&& (forall|i: int|
                        0 <= i < crate::da::spec_num_socs(da_data@)
                            ==> crate::da::spec_entry_parseable(da_data@, dt, i))
                    &&& (exists|i: int|
                        #![trigger crate::da::spec_entry_base(dt, i)]
                        0 <= i < crate::da::spec_num_socs(da_data@) && spec_u16_from_le_bytes(
                            da_data@.subrange(
                                crate::da::spec_entry_base(dt, i) + 2,
                                crate::da::spec_entry_base(dt, i) + 4,
                            ),
                        ) == hw && spec_u16_from_le_bytes(
                            da_data@.subrange(
                                crate::da::spec_entry_base(dt, i) + 4,
                                crate::da::spec_entry_base(dt, i) + 6,
                            ),
                        ) == sub)
                    &&& dt != DAType::V5
                })) ==> r == Result::<Device, MtkError>::Err(MtkError::Unsupported)
            }),
            // Success is owed when no DA is supplied and the device
            // answers the whole bring-up cleanly.
            ({
                let s = connection.channel.incoming@;
                let p = connection.channel.pos as int;
                (da_data@.len() == 0 && crate::connection::spec_hs_clean(s, p) && (
                match crate::connection::spec_id_accepts(
                    s,
                    p + 4,
                    crate::command::Command::GetSocId.spec_code(),
                ) {
                    Some(p1) => match crate::connection::spec_id_accepts(
                        s,
                        p1,
                        crate::command::Command::GetMeId.spec_code(),
                    ) {
                        Some(p2) => crate::connection::spec_hw_code_accepts(s, p2) is Some,
                        None => false,
                    },
                    None => false,
                })) ==> r is Ok
            }),
            // Success is also owed with a DA file, when the device
            // additionally answers `GetHwSwVer` and the file is a
            // parseable V5 container with an entry for the chip the
            // wire announced.
            ({
                let s = connection.channel.incoming@;
                let p = connection.channel.pos as int;
                (da_data@.len() > 0 && crate::connection::spec_hs_clean(s, p) && (
                match crate::connection::spec_id_accepts(
                    s,
                    p + 4,
                    crate::command::Command::GetSocId.spec_code(),
                ) {
                    Some(p1) => match crate::connection::spec_id_accepts(
                        s,
                        p1,
                        crate::command::Command::GetMeId.spec_code(),
                    ) {
                        Some(p2) => match crate::connection::spec_hw_code_accepts(s, p2) {
                            Some(p3) => crate::connection::spec_hw_sw_ver_accepts(s, p3) is Some
                                && {
                                let hw = spec_u16_from_le_bytes(s.skip(p2).subrange(1, 3));
                                let sub = spec_u16_from_le_bytes(s.skip(p3).subrange(1, 3));
                                let dt = crate::da::spec_da_type(da_data@);
                                &&& da_data@.len() >= 0x6C
                                &&& dt == DAType::V5
                                &&& (forall|i: int|
                                    0 <= i < crate::da::spec_num_socs(da_data@)
                                        ==> crate::da::spec_entry_parseable(da_data@, dt, i))
                                &&& exists|i: int|
                                    #![trigger crate::da::spec_entry_base(dt, i)]
                                    {
                                        let base = crate::da::spec_entry_base(dt, i);
                                        &&& 0 <= i < crate::da::spec_num_socs(da_data@)
                                        &&& spec_u16_from_le_bytes(
                                            da_data@.subrange(base + 2, base + 4),
                                        ) == hw
                                        &&& spec_u16_from_le_bytes(
                                            da_data@.subrange(base + 4, base + 6),
                                        ) == sub
                                    }
                            },
                            None => false,
                        },
                        None => false,
                    },
                    None => false,
                })) ==> r is Ok
            }),
    {
        let mut conn = connection;
        if let Err(e) = conn.handshake() {
            return Err(e);
        }
        let soc_id = match conn.get_soc_id() {
            Ok(v) => v,
            Err(e) => {
                return Err(e);
            },
        };
        let meid = match conn.get_meid() {
            Ok(v) => v,
            Err(e) => {
                return Err(e);
            },
        };
        let hw_code_u32 = match conn.get_hw_code() {
            Ok(v) => v,
            Err(e) => {
                return Err(e);
            },
        };
        let hw_code = hw_code_u32 as u16;
        let dev_info = DeviceInfo {
            chipset: "Unknown".to_owned(),
            soc_id,
            meid,
            hw_code,
            storage: StorageType::Unknown,
            partitions: Vec::new(),
        };
        if da_data.len() > 0 {
            let da_file = match DAFile::parse_da(da_data) {
                Ok(f) => f,
                Err(e) => {
                    return Err(e);
                },
            };
            let (hw_sub_code, _hw_ver, _sw_ver) = match conn.get_hw_sw_ver() {
                Ok(v) => v,
                Err(e) => {
                    return Err(e);
                },
            };
            let da = match da_file.get_da_from_hw_code(hw_code, hw_sub_code) {
                Some(da_ref) => {
                    let ghost sel = *da_ref;
                    let d = da_ref.duplicate();
                    proof {
                        let raw = da_data@;
                        let dt = crate::da::spec_da_type(raw);
                        let i = choose|i: int|
                            {
                                &&& 0 <= i < da_file.das@.len()
                                &&& da_file.das@[i] == sel
                                &&& sel.hw_code == hw_code
                                &&& sel.hw_sub_code == hw_sub_code
                                &&& forall|j: int|
                                    0 <= j < i ==> !(da_file.das@[j].hw_code == hw_code
                                        && da_file.das@[j].hw_sub_code == hw_sub_code)
                            };
                        assert(crate::da::spec_entry_ok(raw, dt, i, sel));
                        assert forall|k: int|
                            0 <= k < d.regions@.len() implies crate::da::spec_region_ok(
                            raw,
                            crate::da::spec_entry_base(dt, i),
                            k,
                            #[trigger] d.regions@[k],
                        ) by {
                            assert(crate::da::spec_region_ok(
                                raw,
                                crate::da::spec_entry_base(dt, i),
                                k,
                                sel.regions@[k],
                            ));
                            assert(crate::da::spec_region_equiv(sel.regions@[k], d.regions@[k]));
                        }
                        assert(crate::da::spec_entry_ok(raw, dt, i, d));
                        assert forall|m: int|
                            #![trigger crate::da::spec_entry_base(dt, m)]
                            0 <= m < i implies !(spec_u16_from_le_bytes(
                            raw.subrange(
                                crate::da::spec_entry_base(dt, m) + 2,
                                crate::da::spec_entry_base(dt, m) + 4,
                            ),
                        ) == hw_code && spec_u16_from_le_bytes(
                            raw.subrange(
                                crate::da::spec_entry_base(dt, m) + 4,
                                crate::da::spec_entry_base(dt, m) + 6,
                            ),
                        ) == hw_sub_code) by {
                            assert(crate::da::spec_entry_ok(raw, dt, m, da_file.das@[m]));
                        }
                        assert(spec_selected_entry(raw, hw_code, hw_sub_code, d));
                    }
                    d
                },
                None => {
                    proof {
                        let dt = crate::da::spec_da_type(da_data@);
                        assert forall|i: int| #![trigger crate::da::spec_entry_base(dt, i)]
                            0 <= i < crate::da::spec_num_socs(da_data@) implies !({
                            let base = crate::da::spec_entry_base(dt, i);
                            &&& spec_u16_from_le_bytes(da_data@.subrange(base + 2, base + 4))
                                == hw_code
                            &&& spec_u16_from_le_bytes(da_data@.subrange(base + 4, base + 6))
                                == hw_sub_code
                        }) by {
                            assert(crate::da::spec_entry_ok(da_data@, dt, i, da_file.das@[i]));
                        }
                    }
                    return Err(MtkError::NotFound);
                },
            };
            if !matches!(da.da_type, DAType::V5) {
                return Err(MtkError::Unsupported);
            }
            let protocol = XFlash::new(conn, da);
            Ok(Device { dev_info, connection: None, protocol: Some(protocol), connected: true })
        } else {
            Ok(Device { dev_info, connection: Some(conn), protocol: None, connected: true })
        }
    }

    /// Runs the DA1/DA2 bring-up, switches the connection to DA mode,
    /// reads the primary GPT and caches its partitions, assuming eMMC
    /// storage.
    pub fn enter_da_mode(&mut self) -> (r: Result<(), MtkError>)
        requires
            old(self).wf(),
        ensures
            final(self).wf(),
            final(self).dev_info.hw_code == old(self).dev_info.hw_code,
            old(self).protocol is None ==> r is Err && *final(self) == *old(self),
            !old(self).connected ==> r is Err,
            r is Ok ==> {
                &&& final(self).dev_info.storage == StorageType::Emmc
                &&& (final(self).protocol matches Some(p2) && p2.conn.connection_type
                    == ConnectionType::Da)
                &&& spec_enter_ok(old(self).protocol->Some_0, *final(self))
            },
            // Success is owed when the device accepts the whole
            // bring-up and answers the GPT read with a parseable
            // table.
            ({
                &&& old(self).connected
                &&& match old(self).protocol {
                    None => false,
                    Some(p) => {
                        let s = p.inc();
                        let pos = p.pos();
                        &&& p.da.regions@.len() >= 3
                        &&& p.da.regions@[2].data@.len() <= u32::MAX
                        &&& match crate::xflash::spec_stage1_accepts(
                            s,
                            pos,
                            p.da.regions@[1].addr,
                            p.da.regions@[1].length,
                            p.da.regions@[1].sig_len,
                        ) {
                            None => false,
                            Some(q) => match crate::xflash::spec_boot_to_accepts(s, q) {
                                None => false,
                                Some(q2) => match crate::xflash::spec_status_at(s, q2) {
                                    Some((st1, q3)) => st1 == 0 && (
                                    match crate::xflash::spec_status_at(s, q3) {
                                        Some((st2, q4)) => st2 == 0 && (
                                        match crate::flash::spec_read_chunks(s, q4, 0, 0x8000) {
                                            Some((buf, _qe, _n)) => spec_gpt_parseable(buf),
                                            None => false,
                                        }),
                                        None => false,
                                    }),
                                    None => false,
                                },
                            },
                        }
                    },
                }
            }) ==> r is Ok,
    {
        if !self.connected {
            return Err(MtkError::Io);
        }
        let ghost mut gpg: Seq<u8> = Seq::empty();
        let partitions = match &mut self.protocol {
            None => {
                return Err(MtkError::Unsupported);
            },
            Some(p) => {
                if let Err(e) = p.upload_da() {
                    return Err(e);
                }
                if let Err(e) = p.set_connection_type(ConnectionType::Da) {
                    return Err(e);
                }
                let pgpt_data = match p.read_flash(0, 0x8000) {
                    Ok(d) => d,
                    Err(e) => {
                        return Err(e);
                    },
                };
                proof {
                    gpg = pgpt_data@;
                }
                match parse_gpt(pgpt_data.as_slice(), StorageType::Emmc) {
                    Ok(parts) => parts,
                    Err(e) => {
                        return Err(e);
                    },
                }
            },
        };
        self.dev_info.partitions = partitions;
        self.dev_info.storage = StorageType::Emmc;
        proof {
            assert(spec_gpt_parseable(gpg) && spec_gpt_result(
                gpg,
                PartitionKind::Emmc(crate::storage::EmmcPartition::User),
                self.dev_info.partitions@,
            ));
        }
        Ok(())
    }

    /// First cached partition with the given name.
    fn find_partition(&self, name: &str) -> (r: Option<usize>)
        ensures
            match r {
                Some(i) => {
                    &&& i < self.dev_info.partitions@.len()
                    &&& self.dev_info.partitions@[i as int].name@ == name@
                    &&& forall|j: int|
                        0 <= j < i ==> (#[trigger] self.dev_info.partitions@[j].name@) != name@
                },
                None => forall|j: int|
                    0 <= j < self.dev_info.partitions@.len() ==> (
                    #[trigger] self.dev_info.partitions@[j].name@) != name@,
            },
    {
        let needle: String = name.to_owned();
        let mut i: usize = 0;
        while i < self.dev_info.partitions.len()
            invariant
                needle@ == name@,
                i <= self.dev_info.partitions@.len(),
                forall|j: int|
                    0 <= j < i ==> (#[trigger] self.dev_info.partitions@[j].name@) != name@,
            decreases self.dev_info.partitions@.len() - i,
        {
            if self.dev_info.partitions[i].name == needle {
                return Some(i);
            }
            i = i + 1;
        }
        None
    }

    /// Reads a whole partition by name, entering DA mode first when
    /// the port is still in its preloader state.  `NotFound` when no
    /// cached partition carries the name.
    pub fn read_partition(&mut self, name: &str) -> (r: Result<Vec<u8>, MtkError>)
        requires
            old(self).wf(),
        ensures
            final(self).wf(),
            old(self).protocol is None ==> r is Err,
            match old(self).protocol {
                None => true,
                Some(p) => p.conn.connection_type == ConnectionType::Da ==> {
                    let parts = old(self).dev_info.partitions@;
                    &&& final(self).dev_info == old(self).dev_info
                    &&& final(self).connection == old(self).connection
                    &&& final(self).connected == old(self).connected
                    &&& (final(self).protocol matches Some(p2) && p2.conn.connection_type
                        == ConnectionType::Da && p2.inc() == p.inc() && p2.da == p.da
                        && p2.using_exts == p.using_exts)
                    &&& (forall|j: int|
                        0 <= j < parts.len() ==> (#[trigger] parts[j].name@) != name@) ==> r
                        == Result::<Vec<u8>, MtkError>::Err(MtkError::NotFound)
                    &&& forall|i: int|
                        (0 <= i < parts.len() && (#[trigger] parts[i].name@) == name@ && (forall|
                            j: int,
                        |
                            0 <= j < i ==> (#[trigger] parts[j].name@) != name@))
                            ==> spec_read_flash_post(
                            p.inc(),
                            p.pos(),
                            parts[i].address,
                            parts[i].size as int,
                            r,
                            p.out(),
                            final(self).protocol->Some_0.out(),
                            final(self).protocol->Some_0.pos(),
                        )
                },
            },
            // Out of DA mode, success still binds the result to the
            // transcript: the bring-up chain, a named partition of
            // the freshly cached table, and the flash read.
            match old(self).protocol {
                None => true,
                Some(p) => (p.conn.connection_type != ConnectionType::Da && r is Ok)
                    ==> exists|mid: Device|
                    #![trigger spec_enter_ok(p, mid)]
                    {
                        &&& spec_enter_ok(p, mid)
                        &&& match mid.protocol {
                            None => false,
                            Some(pm) => exists|i: int|
                                #![trigger mid.dev_info.partitions@[i].name@]
                                {
                                    let parts = mid.dev_info.partitions@;
                                    &&& 0 <= i < parts.len()
                                    &&& parts[i].name@ == name@
                                    &&& (forall|m: int|
                                        0 <= m < i ==> (#[trigger] parts[m].name@) != name@)
                                    &&& spec_read_flash_post(
                                        pm.inc(),
                                        pm.pos(),
                                        parts[i].address,
                                        parts[i].size as int,
                                        r,
                                        pm.out(),
                                        final(self).protocol->Some_0.out(),
                                        final(self).protocol->Some_0.pos(),
                                    )
                                },
                        }
                    },
            },
    {
        if self.protocol.is_none() {
            return Err(MtkError::Unsupported);
        }
        let in_da_mode = match &self.protocol {
            Some(p) => matches!(p.conn.connection_type, ConnectionType::Da),
            None => false,
        };
        if !in_da_mode {
            if let Err(e) = self.enter_da_mode() {
                return Err(e);
            }
        }
        let ghost mid = *self;
        let ghost mut gidx: int = 0;
        let (address, size) = match self.find_partition(name) {
            Some(idx) => {
                proof {
                    gidx = idx as int;
                    let parts = self.dev_info.partitions@;
                    assert forall|i: int|
                        (0 <= i < parts.len() && (#[trigger] parts[i].name@) == name@ && (forall|
                            j: int,
                        |
                            0 <= j < i ==> (#[trigger] parts[j].name@) != name@)) implies i
                        == idx as int by {
                        if i < idx as int {
                            assert(parts[i].name@ != name@);
                        } else if i > idx as int {
                            assert(parts[idx as int].name@ != name@);
                        }
                    }
                }
                (self.dev_info.partitions[idx].address, self.dev_info.partitions[idx].size)
            },
            None => {
                return Err(MtkError::NotFound);
            },
        };
        let result = match &mut self.protocol {
            Some(p) => p.read_flash(address, size),
            None => Err(MtkError::Unsupported),
        };
        proof {
            if old(self).protocol is Some && old(self).protocol->Some_0.conn.connection_type
                != ConnectionType::Da && result is Ok {
                assert(spec_enter_ok(old(self).protocol->Some_0, mid));
                assert(mid.dev_info.partitions@[gidx].name@ == name@);
            }
        }
        result
    }

    /// Writes a partition by name.  Payloads longer than the partition
    /// are rejected; shorter ones are written as-is, the write
    /// covering exactly the payload's length.
    pub fn write_partition(&mut self, name: &str, data: &[u8]) -> (r: Result<(), MtkError>)
        requires
            old(self).wf(),
        ensures
            final(self).wf(),
            old(self).protocol is None ==> r is Err,
            match old(self).protocol {
                None => true,
                Some(p) => p.conn.connection_type == ConnectionType::Da ==> {
                    let parts = old(self).dev_info.partitions@;
                    &&& final(self).dev_info == old(self).dev_info
                    &&& final(self).connection == old(self).connection
                    &&& final(self).connected == old(self).connected
                    &&& (final(self).protocol matches Some(p2) && p2.conn.connection_type
                        == ConnectionType::Da && p2.inc() == p.inc() && p2.da == p.da
                        && p2.using_exts == p.using_exts)
                    &&& (forall|j: int|
                        0 <= j < parts.len() ==> (#[trigger] parts[j].name@) != name@) ==> r
                        == Result::<(), MtkError>::Err(MtkError::NotFound)
                    &&& forall|i: int|
                        (0 <= i < parts.len() && (#[trigger] parts[i].name@) == name@ && (forall|
                            j: int,
                        |
                            0 <= j < i ==> (#[trigger] parts[j].name@) != name@)) ==> (if data@.len()
                            > parts[i].size {
                            r == Result::<(), MtkError>::Err(MtkError::Unsupported)
                                && *final(self) == *old(self)
                        } else {
                            spec_write_flash_post(
                                p.inc(),
                                p.pos(),
                                parts[i].address,
                                data@.len() as int,
                                data@,
                                r,
                                p.out(),
                                final(self).protocol->Some_0.out(),
                                final(self).protocol->Some_0.pos(),
                            )
                        })
                },
            },
            // Out of DA mode, success still binds the write to the
            // transcript: the bring-up chain, a named partition of
            // the freshly cached table, and the flash write.
            match old(self).protocol {
                None => true,
                Some(p) => (p.conn.connection_type != ConnectionType::Da && r is Ok)
                    ==> exists|mid: Device|
                    #![trigger spec_enter_ok(p, mid)]
                    {
                        &&& spec_enter_ok(p, mid)
                        &&& match mid.protocol {
                            None => false,
                            Some(pm) => exists|i: int|
                                #![trigger mid.dev_info.partitions@[i].name@]
                                {
                                    let parts = mid.dev_info.partitions@;
                                    &&& 0 <= i < parts.len()
                                    &&& parts[i].name@ == name@
                                    &&& (forall|m: int|
                                        0 <= m < i ==> (#[trigger] parts[m].name@) != name@)
                                    &&& data@.len() <= parts[i].size
                                    &&& spec_write_flash_post(
                                        pm.inc(),
                                        pm.pos(),
                                        parts[i].address,
                                        data@.len() as int,
                                        data@,
                                        r,
                                        pm.out(),
                                        final(self).protocol->Some_0.out(),
                                        final(self).protocol->Some_0.pos(),
                                    )
                                },
                        }
                    },
            },
    {
        if self.protocol.is_none() {
            return Err(MtkError::Unsupported);
        }
        let in_da_mode = match &self.protocol {
            Some(p) => matches!(p.conn.connection_type, ConnectionType::Da),
            None => false,
        };
        if !in_da_mode {
            if let Err(e) = self.enter_da_mode() {
                return Err(e);
            }
        }
        let ghost mid = *self;
        let ghost mut gidx: int = 0;
        let (address, size) = match self.find_partition(name) {
            Some(idx) => {
                proof {
                    gidx = idx as int;
                    let parts = self.dev_info.partitions@;
                    assert forall|i: int|
                        (0 <= i < parts.len() && (#[trigger] parts[i].name@) == name@ && (forall|
                            j: int,
                        |
                            0 <= j < i ==> (#[trigger] parts[j].name@) != name@)) implies i
                        == idx as int by {
                        if i < idx as int {
                            assert(parts[i].name@ != name@);
                        } else if i > idx as int {
                            assert(parts[idx as int].name@ != name@);
                        }
                    }
                }
                (self.dev_info.partitions[idx].address, self.dev_info.partitions[idx].size)
            },
            None => {
                return Err(MtkError::NotFound);
            },
        };
        if data.len() > size {
            return Err(MtkError::Unsupported);
        }
        let result = match &mut self.protocol {
            Some(p) => p.write_flash(address, data.len(), data),
            None => Err(MtkError::Unsupported),
        };
        proof {
            if old(self).protocol is Some && old(self).protocol->Some_0.conn.connection_type
                != ConnectionType::Da && result is Ok {
                assert(spec_enter_ok(old(self).protocol->Some_0, mid));
                assert(mid.dev_info.partitions@[gidx].name@ == name@);
            }
        }
        result
    }

    /// The connection currently owning the port, on either side of the
    /// DA hand-over.
    pub fn get_connection(&self) -> (r: Result<&Connection, MtkError>)
        ensures
            match self.connection {
                Some(c) => (r matches Ok(rc) && *rc == c),
                None => match self.protocol {
                    Some(p) => (r matches Ok(rc) && *rc == p.conn),
                    None => r == Result::<&Connection, MtkError>::Err(MtkError::Io),
                },
            },
    {
        if let Some(conn) = &self.connection {
            Ok(conn)
        } else if let Some(protocol) = &self.protocol {
            Ok(&protocol.conn)
        } else {
            Err(MtkError::Io)
        }
    }

    /// The active DA protocol driver, if any.
    pub fn get_protocol(&mut self) -> (r: Option<&mut XFlash>)
        ensures
            r is Some <==> old(self).protocol is Some,
    {
        self.protocol.as_mut()
    }

    /// Rewrites the seccfg partition under the requested lock flag:
    /// reads it, parses the record, re-serialises it sealed with the
    /// plain digest, and writes it back, returning the bytes written.
    /// `None` when the partition is missing or malformed, when its
    /// seal needs an SEJ transform this façade cannot drive, or when
    /// any exchange fails.
    pub fn set_seccfg_lock_state(&mut self, lock_flag: LockFlag) -> (r: Option<Vec<u8>>)
        requires
            old(self).wf(),
        ensures
            final(self).wf(),
            old(self).protocol is None ==> r is None,
            r matches Some(b) ==> {
                &&& b@.len() == 512
                &&& spec_seccfg_parseable(b@)
                &&& spec_word_at(b@, 12) == spec_lock_values(lock_flag).0
                &&& spec_word_at(b@, 16) == spec_lock_values(lock_flag).1
            },
            // Success is owed when the port is in DA mode, a
            // sufficiently large "seccfg" partition is cached, the
            // device answers the read with a well-formed record, and
            // accepts the write-back.
            (match old(self).protocol {
                None => false,
                Some(p) => {
                    let s = p.inc();
                    let parts = old(self).dev_info.partitions@;
                    &&& p.conn.connection_type == ConnectionType::Da
                    &&& exists|i: int|
                        {
                            &&& 0 <= i < parts.len()
                            &&& (#[trigger] parts[i].name@) == "seccfg"@
                            &&& (forall|j: int|
                                0 <= j < i ==> (#[trigger] parts[j].name@) != "seccfg"@)
                            &&& parts[i].size >= 512
                            &&& match crate::xflash::spec_status_at(s, p.pos()) {
                                Some((st1, p1)) => st1 == 0 && (
                                match crate::xflash::spec_status_at(s, p1) {
                                    Some((st2, p2)) => st2 == 0 && (
                                    match crate::flash::spec_read_chunks(
                                        s,
                                        p2,
                                        0,
                                        parts[i].size as int,
                                    ) {
                                        Some((buf, p3, n)) => spec_seccfg_parseable(buf) && (
                                        match crate::xflash::spec_status_at(s, p3) {
                                            Some((w1, q1)) => w1 == 0 && (
                                            match crate::xflash::spec_status_at(s, q1) {
                                                Some((w2, q2)) => w2 == 0 && (
                                                match crate::flash::spec_write_statuses(
                                                    s,
                                                    q2,
                                                    crate::flash::spec_num_chunks(512),
                                                ) {
                                                    Some(q3) => (
                                                    match crate::xflash::spec_status_at(s, q3) {
                                                        Some((wl, q4)) => wl == 0,
                                                        None => false,
                                                    }),
                                                    None => false,
                                                }),
                                                None => false,
                                            }),
                                            None => false,
                                        }),
                                        None => false,
                                    }),
                                    None => false,
                                }),
                                None => false,
                            }
                        }
                },
            }) ==> r is Some,
            // In DA mode, the returned bytes are the transcript's:
            // the re-serialisation of the record actually read, and
            // the bytes actually written back.
            match old(self).protocol {
                None => true,
                Some(p) => p.conn.connection_type == ConnectionType::Da ==> (match r {
                    None => true,
                    Some(b) => spec_set_lock_ok(
                        p,
                        old(self).dev_info.partitions@,
                        lock_flag,
                        b@,
                        *final(self),
                    ),
                }),
            },
            // Out of DA mode, a successful update at least pins the
            // accepted bring-up on the transcript.
            match old(self).protocol {
                None => true,
                Some(p) => (p.conn.connection_type != ConnectionType::Da && r is Some)
                    ==> exists|mid: Device| #![trigger spec_enter_ok(p, mid)] spec_enter_ok(
                    p,
                    mid,
                ),
            },
    {
        if self.protocol.is_none() {
            return None;
        }
        let seccfg_raw = match self.read_partition("seccfg") {
            Ok(d) => d,
            Err(_) => {
                return None;
            },
        };
        let ghost mid = *self;
        proof {
            if old(self).protocol matches Some(pg) && pg.conn.connection_type
                == ConnectionType::Da {
                let parts = old(self).dev_info.partitions@;
                if !(exists|j: int|
                    0 <= j < parts.len() && (#[trigger] parts[j].name@) == "seccfg"@) {
                    assert(forall|j: int|
                        0 <= j < parts.len() ==> (#[trigger] parts[j].name@) != "seccfg"@);
                    assert(false);
                }
                let j = choose|j: int|
                    0 <= j < parts.len() && (#[trigger] parts[j].name@) == "seccfg"@;
                lemma_first_named(parts, "seccfg"@, j);
            }
        }
        let mut seccfg = match SecCfgV4::parse(seccfg_raw.as_slice()) {
            Ok(cfg) => cfg,
            Err(_) => {
                return None;
            },
        };
        let new_seccfg = match seccfg.create(lock_flag) {
            Ok(b) => b,
            Err(_) => {
                return None;
            },
        };
        proof {
            vstd::bytes::lemma_auto_spec_u32_to_from_le_bytes();
            assert(crate::seccfg::spec_header_bytes(
                seccfg.seccfg_ver,
                seccfg.seccfg_size,
                spec_lock_values(lock_flag).0,
                spec_lock_values(lock_flag).1,
                seccfg.sboot_runtime,
            ).len() == 28);
            lemma_lock_semantics(
                seccfg.seccfg_ver,
                seccfg.seccfg_size,
                seccfg.sboot_runtime,
                crate::seccfg::sha256_of(
                    crate::seccfg::spec_header_bytes(
                        seccfg.seccfg_ver,
                        seccfg.seccfg_size,
                        spec_lock_values(lock_flag).0,
                        spec_lock_values(lock_flag).1,
                        seccfg.sboot_runtime,
                    ),
                ),
                lock_flag,
            );
        }
        if let Err(_) = self.write_partition("seccfg", new_seccfg.as_slice()) {
            return None;
        }
        proof {
            if old(self).protocol is Some && old(self).protocol->Some_0.conn.connection_type
                == ConnectionType::Da {
                let pg = old(self).protocol->Some_0;
                let parts = old(self).dev_info.partitions@;
                let i = choose|i: int|
                    {
                        &&& 0 <= i < parts.len()
                        &&& (#[trigger] parts[i].name@) == "seccfg"@
                        &&& forall|m: int| 0 <= m < i ==> (#[trigger] parts[m].name@) != "seccfg"@
                    };
                assert(crate::flash::spec_read_flash_post(
                    pg.inc(),
                    pg.pos(),
                    parts[i].address,
                    parts[i].size as int,
                    Result::<Vec<u8>, MtkError>::Ok(seccfg_raw),
                    pg.out(),
                    mid.protocol->Some_0.out(),
                    mid.protocol->Some_0.pos(),
                ));
                assert(spec_set_lock_ok(pg, parts, lock_flag, new_seccfg@, *self));
            }
        }
        Some(new_seccfg)
    }
}

impl CryptoIO for Device {
    /// Routes a register read through the active DA protocol; a
    /// missing protocol or a failed exchange reads as zero.
    fn read32(&mut self, addr: u32) -> u32 {
        match &mut self.protocol {
            Some(p) => {
                if p.conn.channel.pos <= p.conn.channel.incoming.len() {
                    match p.read32(addr) {
                        Ok(v) => v,
                        Err(_) => 0,
                    }
                } else {
                    0
                }
            },
            None => 0,
        }
    }

    /// Routes a register write through the active DA protocol,
    /// swallowing failures.
    fn write32(&mut self, addr: u32, val: u32) {
        match &mut self.protocol {
            Some(p) => {
                if p.conn.channel.pos <= p.conn.channel.incoming.len() {
                    let _unused = p.write32(addr, val);
                } else {
                }
            },
            None => {},
        }
    }
}

} // verus!
