//! The error values that the programs return to the runtime.
use vstd::prelude::*;

verus! {

/// Errors a program reports; the variants and their order follow the
/// runtime's own program-error list, so that each maps to the same code.
#[derive(Debug, Clone, Copy, PartialEq, Eq, Structural)]
pub enum ProgramError {
    Custom(u32),
    InvalidArgument,
    InvalidInstructionData,
    InvalidAccountData,
    AccountDataTooSmall,
    InsufficientFunds,
    IncorrectProgramId,
    MissingRequiredSignature,
    AccountAlreadyInitialized,
    UninitializedAccount,
    NotEnoughAccountKeys,
    AccountBorrowFailed,
    MaxSeedLengthExceeded,
    InvalidSeeds,
    BorshIoError,
    AccountNotRentExempt,
    UnsupportedSysvar,
    IllegalOwner,
    MaxAccountsDataAllocationsExceeded,
    InvalidRealloc,
    MaxInstructionTraceLengthExceeded,
    BuiltinProgramsMustConsumeComputeUnits,
    InvalidAccountOwner,
    ArithmeticOverflow,
    Immutable,
    IncorrectAuthority,
}

/// A program-specific error code, as the runtime reports a custom error.
pub fn custom_error(code: u64) -> (r: ProgramError)
    requires
        code <= u32::MAX,
    ensures
        r == ProgramError::Custom(code as u32),
{
    ProgramError::Custom(code as u32)
}


/// The code the runtime reports for an error: a custom code as itself (0
/// as the first builtin code), each builtin error as its position in the
/// list shifted into the upper 32 bits.
pub open spec fn error_code(e: ProgramError) -> u64 {
    match e {
        ProgramError::Custom(c) => if c == 0 {
            0x1_0000_0000
        } else {
            c as u64
        },
        ProgramError::InvalidArgument => 0x2_0000_0000,
        ProgramError::InvalidInstructionData => 0x3_0000_0000,
        ProgramError::InvalidAccountData => 0x4_0000_0000,
        ProgramError::AccountDataTooSmall => 0x5_0000_0000,
        ProgramError::InsufficientFunds => 0x6_0000_0000,
        ProgramError::IncorrectProgramId => 0x7_0000_0000,
        ProgramError::MissingRequiredSignature => 0x8_0000_0000,
        ProgramError::AccountAlreadyInitialized => 0x9_0000_0000,
        ProgramError::UninitializedAccount => 0xa_0000_0000,
        ProgramError::NotEnoughAccountKeys => 0xb_0000_0000,
        ProgramError::AccountBorrowFailed => 0xc_0000_0000,
        ProgramError::MaxSeedLengthExceeded => 0xd_0000_0000,
        ProgramError::InvalidSeeds => 0xe_0000_0000,
        ProgramError::BorshIoError => 0xf_0000_0000,
        ProgramError::AccountNotRentExempt => 0x10_0000_0000,
        ProgramError::UnsupportedSysvar => 0x11_0000_0000,
        ProgramError::IllegalOwner => 0x12_0000_0000,
        ProgramError::MaxAccountsDataAllocationsExceeded => 0x13_0000_0000,
        ProgramError::InvalidRealloc => 0x14_0000_0000,
        ProgramError::MaxInstructionTraceLengthExceeded => 0x15_0000_0000,
        ProgramError::BuiltinProgramsMustConsumeComputeUnits => 0x16_0000_0000,
        ProgramError::InvalidAccountOwner => 0x17_0000_0000,
        ProgramError::ArithmeticOverflow => 0x18_0000_0000,
        ProgramError::Immutable => 0x19_0000_0000,
        ProgramError::IncorrectAuthority => 0x1a_0000_0000,
    }
}

/// The error that a runtime code stands for (the inverse of `error_code`);
/// a code that names no builtin error is a custom one (its low 32 bits).
pub fn error_from_code(code: u64) -> (r: ProgramError)
    ensures
        forall|e: ProgramError| error_code(e) == code ==> r == e,
        (forall|e: ProgramError| error_code(e) != code) ==> r == ProgramError::Custom(
            (code % 0x1_0000_0000) as u32,
        ),
{
    let r = if code < 0x1_0000_0000 {
        ProgramError::Custom(code as u32)
    } else {
        match code {
            0x2_0000_0000 => ProgramError::InvalidArgument,
            0x3_0000_0000 => ProgramError::InvalidInstructionData,
            0x4_0000_0000 => ProgramError::InvalidAccountData,
            0x5_0000_0000 => ProgramError::AccountDataTooSmall,
            0x6_0000_0000 => ProgramError::InsufficientFunds,
            0x7_0000_0000 => ProgramError::IncorrectProgramId,
            0x8_0000_0000 => ProgramError::MissingRequiredSignature,
            0x9_0000_0000 => ProgramError::AccountAlreadyInitialized,
            0xa_0000_0000 => ProgramError::UninitializedAccount,
            0xb_0000_0000 => ProgramError::NotEnoughAccountKeys,
            0xc_0000_0000 => ProgramError::AccountBorrowFailed,
            0xd_0000_0000 => ProgramError::MaxSeedLengthExceeded,
            0xe_0000_0000 => ProgramError::InvalidSeeds,
            0xf_0000_0000 => ProgramError::BorshIoError,
            0x10_0000_0000 => ProgramError::AccountNotRentExempt,
            0x11_0000_0000 => ProgramError::UnsupportedSysvar,
            0x12_0000_0000 => ProgramError::IllegalOwner,
            0x13_0000_0000 => ProgramError::MaxAccountsDataAllocationsExceeded,
            0x14_0000_0000 => ProgramError::InvalidRealloc,
            0x15_0000_0000 => ProgramError::MaxInstructionTraceLengthExceeded,
            0x16_0000_0000 => ProgramError::BuiltinProgramsMustConsumeComputeUnits,
            0x17_0000_0000 => ProgramError::InvalidAccountOwner,
            0x18_0000_0000 => ProgramError::ArithmeticOverflow,
            0x19_0000_0000 => ProgramError::Immutable,
            0x1a_0000_0000 => ProgramError::IncorrectAuthority,
            0x1_0000_0000 => ProgramError::Custom(0),
            _ => ProgramError::Custom((code % 0x1_0000_0000) as u32),
        }
    };
    proof {
        if code >= 0x1_0000_0000 && (!(r is Custom) || code == 0x1_0000_0000) {
            assert(error_code(r) == code);
        }
    }
    r
}

} // verus!
