//! Error kinds surfaced by the protocol stack.

use vstd::prelude::*;

verus! {

/// Failure kinds the stack distinguishes.
///
/// `Io` covers transport-level failures and short reads, `TimedOut` the
/// DA1 sync-byte wait, `Protocol` a non-zero device status word (with
/// the literal value), `Framing` a magic-word or header mismatch,
/// `Parse` a malformed DA file, seccfg record or GPT, `NotFound` an
/// unknown hw_code, partition or DA region, and `Unsupported` a DA type
/// or storage layout the stack does not implement.
#[derive(Debug, Clone, Copy, PartialEq, Eq, Structural)]
pub enum MtkError {
    Io,
    TimedOut,
    Protocol(u32),
    Framing,
    Parse,
    NotFound,
    Unsupported,
}

} // verus!
