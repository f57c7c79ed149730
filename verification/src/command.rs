//! BROM / preloader command opcodes.
//!
//! Every preloader command is a single-byte opcode that the device
//! echoes back before any further fields are exchanged.

use vstd::prelude::*;

verus! {

/// Opcodes of the BROM / preloader command protocol.
#[derive(Debug, Clone, Copy, PartialEq, Eq, Structural)]
pub enum Command {
    GetHwSwVer,
    GetHwCode,
    GetPlVer,
    GetBrVer,
    LegacyWrite,
    LegacyRead,
    I2cInit,
    I2cDeinit,
    I2cWrite8,
    I2cRead8,
    I2cSetSpeed,
    PwrInit,
    PwrDeinit,
    PwrRead16,
    PwrWrite16,
    Read16,
    Read32,
    Write16,
    Write16NoEcho,
    Write32,
    JumpDa,
    JumpBl,
    SendDa,
    GetTargetConfig,
    Uart1LogEn,
    SendCert,
    GetMeId,
    SendAuth,
    SlaChallenge,
    GetSocId,
    Zeroization,
    GetPlCap,
}

impl Command {
    /// The on-wire opcode byte.
    pub open spec fn spec_code(self) -> u8 {
        match self {
            Command::GetHwSwVer => 0xFC,
            Command::GetHwCode => 0xFD,
            Command::GetPlVer => 0xFE,
            Command::GetBrVer => 0xFF,
            Command::LegacyWrite => 0xA1,
            Command::LegacyRead => 0xA2,
            Command::I2cInit => 0xB0,
            Command::I2cDeinit => 0xB1,
            Command::I2cWrite8 => 0xB2,
            Command::I2cRead8 => 0xB3,
            Command::I2cSetSpeed => 0xB4,
            Command::PwrInit => 0xC4,
            Command::PwrDeinit => 0xC5,
            Command::PwrRead16 => 0xC6,
            Command::PwrWrite16 => 0xC7,
            Command::Read16 => 0xD0,
            Command::Read32 => 0xD1,
            Command::Write16 => 0xD2,
            Command::Write16NoEcho => 0xD3,
            Command::Write32 => 0xD4,
            Command::JumpDa => 0xD5,
            Command::JumpBl => 0xD6,
            Command::SendDa => 0xD7,
            Command::GetTargetConfig => 0xD8,
            Command::Uart1LogEn => 0xDB,
            Command::SendCert => 0xE0,
            Command::GetMeId => 0xE1,
            Command::SendAuth => 0xE2,
            Command::SlaChallenge => 0xE3,
            Command::GetSocId => 0xE7,
            Command::Zeroization => 0xF0,
            Command::GetPlCap => 0xF1,
        }
    }

    /// The on-wire opcode byte.
    pub fn code(self) -> (r: u8)
        ensures
            r == self.spec_code(),
    {
        match self {
            Command::GetHwSwVer => 0xFC,
            Command::GetHwCode => 0xFD,
            Command::GetPlVer => 0xFE,
            Command::GetBrVer => 0xFF,
            Command::LegacyWrite => 0xA1,
            Command::LegacyRead => 0xA2,
            Command::I2cInit => 0xB0,
            Command::I2cDeinit => 0xB1,
            Command::I2cWrite8 => 0xB2,
            Command::I2cRead8 => 0xB3,
            Command::I2cSetSpeed => 0xB4,
            Command::PwrInit => 0xC4,
            Command::PwrDeinit => 0xC5,
            Command::PwrRead16 => 0xC6,
            Command::PwrWrite16 => 0xC7,
            Command::Read16 => 0xD0,
            Command::Read32 => 0xD1,
            Command::Write16 => 0xD2,
            Command::Write16NoEcho => 0xD3,
            Command::Write32 => 0xD4,
            Command::JumpDa => 0xD5,
            Command::JumpBl => 0xD6,
            Command::SendDa => 0xD7,
            Command::GetTargetConfig => 0xD8,
            Command::Uart1LogEn => 0xDB,
            Command::SendCert => 0xE0,
            Command::GetMeId => 0xE1,
            Command::SendAuth => 0xE2,
            Command::SlaChallenge => 0xE3,
            Command::GetSocId => 0xE7,
            Command::Zeroization => 0xF0,
            Command::GetPlCap => 0xF1,
        }
    }
}

/// Whether the device's reply accepts the echoed request: the reply
/// must equal the sent bytes, byte for byte.
pub open spec fn spec_echo_accepts(sent: Seq<u8>, reply: Seq<u8>) -> bool {
    reply == sent
}

/// Echo law: the request for a command opens with its opcode, and any
/// accepted reply opens with that same opcode as its first byte.
pub proof fn lemma_echo_law(cmd: Command, reply: Seq<u8>)
    requires
        spec_echo_accepts(seq![cmd.spec_code()], reply),
    ensures
        reply.len() == 1,
        reply[0] == cmd.spec_code(),
{
}

} // verus!
