//! seccfg v4 codec.
//!
//! The seccfg partition holds the bootloader lock state: a 28-byte
//! little-endian header framed by the magics `0x4D4D4D4D` and
//! `0x45454545`, a 32-byte sealed SHA-256 of that header right after
//! it, and zero padding up to a multiple of 0x200.  The seal is either
//! the plain digest or the digest wrapped by one of the device's SEJ
//! transforms; which one is discovered by trial decryption.  The SEJ
//! transforms themselves run on the device, so the caller performs
//! them and hands the results back to [`SecCfgV4::resolve_algo`] and
//! [`SecCfgV4::create_with_sealed`].

use vstd::prelude::*;
use vstd::bytes::*;

use crate::error::MtkError;

use sha2::Digest;

verus! {

/// Magic word opening the seccfg header.
pub const SECCFG_MAGIC_BEGIN: u32 = 0x4D4D4D4D;

/// Magic word closing the seccfg header.
pub const SECCFG_MAGIC_END: u32 = 0x45454545;

/// Requested lock state.
#[derive(Debug, Clone, Copy, PartialEq, Eq, Structural)]
pub enum LockFlag {
    Lock,
    Unlock,
}

/// How the trailing hash is sealed.  `Raw` means the plain SHA-256;
/// the others are the device's SEJ transforms, distinguished by trial
/// decryption.
#[derive(Debug, Clone, Copy, PartialEq, Eq, Structural)]
pub enum SealAlgo {
    Raw,
    Sw,
    Hw,
    HwV3,
    HwV4,
}

/// SHA-256 digest of a byte sequence.  Relies on the `sha2` crate; the
/// digest is a function of the input bytes alone.
pub uninterp spec fn sha256_of(data: Seq<u8>) -> Seq<u8>;

/// Relies on sha2::Sha256 (FIPS 180-4 SHA-256): a 32-byte digest that
/// depends on the input bytes alone.
#[verifier::external_body]
fn sha256(data: &Vec<u8>) -> (r: Vec<u8>)
    ensures
        r@ == sha256_of(data@),
        r@.len() == 32,
{
    sha2::Sha256::digest(data.as_slice()).to_vec()
}

/// The seven little-endian header words: begin magic, version, size,
/// lock state, critical lock state, sboot runtime, end magic.
pub open spec fn spec_header_bytes(
    ver: u32,
    size: u32,
    lock: u32,
    critical: u32,
    sboot: u32,
) -> Seq<u8> {
    spec_u32_to_le_bytes(SECCFG_MAGIC_BEGIN) + spec_u32_to_le_bytes(ver) + spec_u32_to_le_bytes(
        size,
    ) + spec_u32_to_le_bytes(lock) + spec_u32_to_le_bytes(critical) + spec_u32_to_le_bytes(sboot)
        + spec_u32_to_le_bytes(SECCFG_MAGIC_END)
}

/// Lock-state and critical-lock-state words a flag sets: Lock gives
/// (1, 1), Unlock gives (3, 0).
pub open spec fn spec_lock_values(flag: LockFlag) -> (u32, u32) {
    match flag {
        LockFlag::Lock => (1u32, 1u32),
        LockFlag::Unlock => (3u32, 0u32),
    }
}

/// The little-endian u32 at offset `off` of `data`.
pub open spec fn spec_word_at(data: Seq<u8>, off: int) -> u32 {
    spec_u32_from_le_bytes(data.subrange(off, off + 4))
}

/// A blob parses as seccfg v4: long enough for header and seal, and
/// framed by both magics.
pub open spec fn spec_seccfg_parseable(data: Seq<u8>) -> bool {
    &&& data.len() >= 60
    &&& spec_word_at(data, 0) == SECCFG_MAGIC_BEGIN
    &&& spec_word_at(data, 24) == SECCFG_MAGIC_END
}

/// The serialised blob: header, 32-byte seal, zero padding to 0x200.
pub open spec fn spec_create_bytes(
    ver: u32,
    size: u32,
    lock: u32,
    critical: u32,
    sboot: u32,
    sealed: Seq<u8>,
) -> Seq<u8> {
    spec_header_bytes(ver, size, lock, critical, sboot) + sealed + Seq::new(452, |i: int| 0u8)
}

/// The parsed seccfg v4 record.
#[derive(Debug, Clone, Copy, PartialEq, Eq, Structural)]
pub struct SecCfgV4 {
    pub seccfg_ver: u32,
    pub seccfg_size: u32,
    pub lock_state: u32,
    pub critical_lock_state: u32,
    pub sboot_runtime: u32,
    pub algo: Option<SealAlgo>,
}

impl SecCfgV4 {
    /// A fresh record with the fixed version and logical size and no
    /// algorithm resolved.
    pub fn new() -> (r: SecCfgV4)
        ensures
            r.seccfg_ver == 4,
            r.seccfg_size == 20,
            r.lock_state == 0,
            r.critical_lock_state == 0,
            r.sboot_runtime == 0,
            r.algo is None,
    {
        SecCfgV4 {
            seccfg_ver: 4,
            seccfg_size: 20,
            lock_state: 0,
            critical_lock_state: 0,
            sboot_runtime: 0,
            algo: None,
        }
    }

    /// The record's header serialisation.
    pub fn header_bytes(&self) -> (r: Vec<u8>)
        ensures
            r@ == spec_header_bytes(
                self.seccfg_ver,
                self.seccfg_size,
                self.lock_state,
                self.critical_lock_state,
                self.sboot_runtime,
            ),
            r@.len() == 28,
    {
        proof {
            lemma_auto_spec_u32_to_from_le_bytes();
        }
        let mut out = u32_to_le_bytes(SECCFG_MAGIC_BEGIN);
        let mut w = u32_to_le_bytes(self.seccfg_ver);
        out.append(&mut w);
        let mut w = u32_to_le_bytes(self.seccfg_size);
        out.append(&mut w);
        let mut w = u32_to_le_bytes(self.lock_state);
        out.append(&mut w);
        let mut w = u32_to_le_bytes(self.critical_lock_state);
        out.append(&mut w);
        let mut w = u32_to_le_bytes(self.sboot_runtime);
        out.append(&mut w);
        let mut w = u32_to_le_bytes(SECCFG_MAGIC_END);
        out.append(&mut w);
        out
    }

    /// The SHA-256 the seal must decrypt to: the digest of the
    /// record's own header bytes.
    pub fn reference_hash(&self) -> (r: Vec<u8>)
        ensures
            r@ == sha256_of(
                spec_header_bytes(
                    self.seccfg_ver,
                    self.seccfg_size,
                    self.lock_state,
                    self.critical_lock_state,
                    self.sboot_runtime,
                ),
            ),
            r@.len() == 32,
    {
        let hdr = self.header_bytes();
        sha256(&hdr)
    }

    /// Parses the header and, when the seal is the plain digest of the
    /// header, resolves the algorithm to `Raw` on the spot.  A seal
    /// that is anything else needs the device's SEJ transforms: the
    /// algorithm stays unresolved until [`Self::resolve_algo`] is
    /// handed a successful trial decryption.
    pub fn parse(data: &[u8]) -> (r: Result<SecCfgV4, MtkError>)
        ensures
            r is Ok <==> spec_seccfg_parseable(data@),
            r is Err ==> r == Result::<SecCfgV4, MtkError>::Err(MtkError::Parse),
            r is Ok ==> {
                let cfg = r->Ok_0;
                &&& cfg.seccfg_ver == spec_word_at(data@, 4)
                &&& cfg.seccfg_size == spec_word_at(data@, 8)
                &&& cfg.lock_state == spec_word_at(data@, 12)
                &&& cfg.critical_lock_state == spec_word_at(data@, 16)
                &&& cfg.sboot_runtime == spec_word_at(data@, 20)
                &&& (cfg.algo == Some(SealAlgo::Raw) <==> data@.subrange(28, 60) == sha256_of(
                    spec_header_bytes(
                        cfg.seccfg_ver,
                        cfg.seccfg_size,
                        cfg.lock_state,
                        cfg.critical_lock_state,
                        cfg.sboot_runtime,
                    ),
                ))
                &&& (cfg.algo is None || cfg.algo == Some(SealAlgo::Raw))
            },
    {
        if data.len() < 60 {
            return Err(MtkError::Parse);
        }
        let magic = u32_from_le_bytes(&data[0..4]);
        let seccfg_ver = u32_from_le_bytes(&data[4..8]);
        let seccfg_size = u32_from_le_bytes(&data[8..12]);
        let lock_state = u32_from_le_bytes(&data[12..16]);
        let critical_lock_state = u32_from_le_bytes(&data[16..20]);
        let sboot_runtime = u32_from_le_bytes(&data[20..24]);
        let endflag = u32_from_le_bytes(&data[24..28]);
        if magic != SECCFG_MAGIC_BEGIN || endflag != SECCFG_MAGIC_END {
            return Err(MtkError::Parse);
        }
        let mut cfg = SecCfgV4 {
            seccfg_ver,
            seccfg_size,
            lock_state,
            critical_lock_state,
            sboot_runtime,
            algo: None,
        };
        let reference = cfg.reference_hash();
        let sealed = &data[28..60];
        if crate::utilities::bytes_equal(sealed, reference.as_slice()) {
            cfg.algo = Some(SealAlgo::Raw);
        }
        Ok(cfg)
    }

    /// Latches `algo` when a trial decryption of the seal equals the
    /// reference digest; leaves the record unchanged otherwise.  The
    /// caller runs the SEJ transform on the device and hands the
    /// result in.
    pub fn resolve_algo(&mut self, algo: SealAlgo, decrypted: &[u8]) -> (r: bool)
        ensures
            r <==> decrypted@ == sha256_of(
                spec_header_bytes(
                    old(self).seccfg_ver,
                    old(self).seccfg_size,
                    old(self).lock_state,
                    old(self).critical_lock_state,
                    old(self).sboot_runtime,
                ),
            ),
            r ==> *final(self) == (SecCfgV4 { algo: Some(algo), ..*old(self) }),
            !r ==> *final(self) == *old(self),
    {
        let reference = self.reference_hash();
        if crate::utilities::bytes_equal(decrypted, reference.as_slice()) {
            self.algo = Some(algo);
            true
        } else {
            false
        }
    }

    /// Applies a lock flag: Lock sets the lock-state words to (1, 1),
    /// Unlock to (3, 0).
    pub fn set_lock_flag(&mut self, lock_flag: LockFlag)
        ensures
            *final(self) == (SecCfgV4 {
                lock_state: spec_lock_values(lock_flag).0,
                critical_lock_state: spec_lock_values(lock_flag).1,
                ..*old(self)
            }),
    {
        match lock_flag {
            LockFlag::Lock => {
                self.lock_state = 1;
                self.critical_lock_state = 1;
            },
            LockFlag::Unlock => {
                self.lock_state = 3;
                self.critical_lock_state = 0;
            },
        }
    }

    /// Serialises the record under the given lock flag with an
    /// externally sealed hash: header, the 32 sealed bytes, zero
    /// padding to 0x200.  The caller seals the digest of the new
    /// header (see [`Self::set_lock_flag`] and
    /// [`Self::reference_hash`]) with the resolved SEJ transform.
    pub fn create_with_sealed(&mut self, lock_flag: LockFlag, sealed: &[u8]) -> (r: Vec<u8>)
        requires
            sealed@.len() == 32,
        ensures
            *final(self) == (SecCfgV4 {
                lock_state: spec_lock_values(lock_flag).0,
                critical_lock_state: spec_lock_values(lock_flag).1,
                ..*old(self)
            }),
            r@ == spec_create_bytes(
                old(self).seccfg_ver,
                old(self).seccfg_size,
                spec_lock_values(lock_flag).0,
                spec_lock_values(lock_flag).1,
                old(self).sboot_runtime,
                sealed@,
            ),
            r@.len() == 512,
    {
        self.set_lock_flag(lock_flag);
        let mut out = self.header_bytes();
        let mut s: Vec<u8> = Vec::new();
        s.extend_from_slice(sealed);
        out.append(&mut s);
        let ghost prefix = out@;
        while out.len() < 512
            invariant
                60 <= out@.len() <= 512,
                prefix.len() == 60,
                out@ == prefix + Seq::new((out@.len() - 60) as nat, |i: int| 0u8),
            decreases 512 - out@.len(),
        {
            out.push(0);
            proof {
                assert(out@ =~= prefix + Seq::new((out@.len() - 60) as nat, |i: int| 0u8));
            }
        }
        proof {
            assert(out@ =~= spec_create_bytes(
                old(self).seccfg_ver,
                old(self).seccfg_size,
                spec_lock_values(lock_flag).0,
                spec_lock_values(lock_flag).1,
                old(self).sboot_runtime,
                sealed@,
            ));
        }
        out
    }

    /// Serialises the record under the given lock flag, sealing with
    /// the plain digest.  This is the path for a record whose seal was
    /// the raw SHA-256 (or whose algorithm never resolved, matching
    /// the device-free fallback); a record sealed by an SEJ transform
    /// needs [`Self::create_with_sealed`] instead and is refused with
    /// `Unsupported`.
    pub fn create(&mut self, lock_flag: LockFlag) -> (r: Result<Vec<u8>, MtkError>)
        ensures
            r is Ok <==> (old(self).algo is None || old(self).algo == Some(SealAlgo::Raw)),
            r is Err ==> *final(self) == *old(self) && r == Result::<Vec<u8>, MtkError>::Err(
                MtkError::Unsupported,
            ),
            r is Ok ==> {
                &&& *final(self) == (SecCfgV4 {
                    lock_state: spec_lock_values(lock_flag).0,
                    critical_lock_state: spec_lock_values(lock_flag).1,
                    ..*old(self)
                })
                &&& r->Ok_0@ == spec_create_bytes(
                    old(self).seccfg_ver,
                    old(self).seccfg_size,
                    spec_lock_values(lock_flag).0,
                    spec_lock_values(lock_flag).1,
                    old(self).sboot_runtime,
                    sha256_of(
                        spec_header_bytes(
                            old(self).seccfg_ver,
                            old(self).seccfg_size,
                            spec_lock_values(lock_flag).0,
                            spec_lock_values(lock_flag).1,
                            old(self).sboot_runtime,
                        ),
                    ),
                )
                &&& r->Ok_0@.len() == 512
            },
    {
        match self.algo {
            Some(SealAlgo::Raw) | None => {},
            _ => {
                return Err(MtkError::Unsupported);
            },
        }
        self.set_lock_flag(lock_flag);
        let hash = self.reference_hash();
        let out = self.create_with_sealed(lock_flag, hash.as_slice());
        Ok(out)
    }
}

/// Lock-semantics law: a blob created under a flag parses back with
/// exactly the lock-state words that flag sets, Unlock giving (3, 0)
/// and Lock giving (1, 1), whatever the seal holds.
pub proof fn lemma_lock_semantics(
    ver: u32,
    size: u32,
    sboot: u32,
    sealed: Seq<u8>,
    flag: LockFlag,
)
    requires
        sealed.len() == 32,
    ensures
        ({
            let lock = spec_lock_values(flag).0;
            let critical = spec_lock_values(flag).1;
            let out = spec_create_bytes(ver, size, lock, critical, sboot, sealed);
            &&& spec_seccfg_parseable(out)
            &&& spec_word_at(out, 12) == lock
            &&& spec_word_at(out, 16) == critical
            &&& spec_word_at(out, 4) == ver
            &&& spec_word_at(out, 8) == size
            &&& spec_word_at(out, 20) == sboot
            &&& out.subrange(28, 60) == sealed
            &&& out.len() == 512
        }),
{
    lemma_auto_spec_u32_to_from_le_bytes();
    let lock = spec_lock_values(flag).0;
    let critical = spec_lock_values(flag).1;
    let out = spec_create_bytes(ver, size, lock, critical, sboot, sealed);
    assert(out.subrange(0, 4) =~= spec_u32_to_le_bytes(SECCFG_MAGIC_BEGIN));
    assert(out.subrange(4, 8) =~= spec_u32_to_le_bytes(ver));
    assert(out.subrange(8, 12) =~= spec_u32_to_le_bytes(size));
    assert(out.subrange(12, 16) =~= spec_u32_to_le_bytes(lock));
    assert(out.subrange(16, 20) =~= spec_u32_to_le_bytes(critical));
    assert(out.subrange(20, 24) =~= spec_u32_to_le_bytes(sboot));
    assert(out.subrange(24, 28) =~= spec_u32_to_le_bytes(SECCFG_MAGIC_END));
    assert(out.subrange(28, 60) =~= sealed);
}

/// Round-trip law for plainly sealed blobs: a valid blob whose seal is
/// the raw digest of its header, re-created under the lock flag its
/// header already carries, reproduces its first 60 bytes exactly, and
/// the result is again plainly sealed.
pub proof fn lemma_seccfg_round_trip(data: Seq<u8>, flag: LockFlag)
    requires
        spec_seccfg_parseable(data),
        data.subrange(28, 60) == sha256_of(
            spec_header_bytes(
                spec_word_at(data, 4),
                spec_word_at(data, 8),
                spec_word_at(data, 12),
                spec_word_at(data, 16),
                spec_word_at(data, 20),
            ),
        ),
        spec_word_at(data, 12) == spec_lock_values(flag).0,
        spec_word_at(data, 16) == spec_lock_values(flag).1,
    ensures
        ({
            let out = spec_create_bytes(
                spec_word_at(data, 4),
                spec_word_at(data, 8),
                spec_lock_values(flag).0,
                spec_lock_values(flag).1,
                spec_word_at(data, 20),
                sha256_of(
                    spec_header_bytes(
                        spec_word_at(data, 4),
                        spec_word_at(data, 8),
                        spec_lock_values(flag).0,
                        spec_lock_values(flag).1,
                        spec_word_at(data, 20),
                    ),
                ),
            );
            &&& out.take(60) == data.take(60)
            &&& out.len() == 512
            &&& spec_seccfg_parseable(out)
            &&& out.subrange(28, 60) == sha256_of(
                spec_header_bytes(
                    spec_word_at(out, 4),
                    spec_word_at(out, 8),
                    spec_word_at(out, 12),
                    spec_word_at(out, 16),
                    spec_word_at(out, 20),
                ),
            )
        }),
{
    lemma_auto_spec_u32_to_from_le_bytes();
    let ver = spec_word_at(data, 4);
    let size = spec_word_at(data, 8);
    let lock = spec_lock_values(flag).0;
    let critical = spec_lock_values(flag).1;
    let sboot = spec_word_at(data, 20);
    let hdr = spec_header_bytes(ver, size, lock, critical, sboot);
    let out = spec_create_bytes(ver, size, lock, critical, sboot, sha256_of(hdr));
    lemma_lock_semantics(ver, size, sboot, sha256_of(hdr), flag);
    assert(out.take(28) =~= hdr);
    assert(data.subrange(0, 4) =~= spec_u32_to_le_bytes(spec_word_at(data, 0)));
    assert(data.subrange(4, 8) =~= spec_u32_to_le_bytes(ver));
    assert(data.subrange(8, 12) =~= spec_u32_to_le_bytes(size));
    assert(data.subrange(12, 16) =~= spec_u32_to_le_bytes(lock));
    assert(data.subrange(16, 20) =~= spec_u32_to_le_bytes(critical));
    assert(data.subrange(20, 24) =~= spec_u32_to_le_bytes(sboot));
    assert(data.subrange(24, 28) =~= spec_u32_to_le_bytes(spec_word_at(data, 24)));
    assert(data.take(28) =~= data.subrange(0, 4) + data.subrange(4, 8) + data.subrange(8, 12)
        + data.subrange(12, 16) + data.subrange(16, 20) + data.subrange(20, 24) + data.subrange(
        24,
        28,
    ));
    assert(out.take(60) =~= data.take(60));
}

} // verus!
