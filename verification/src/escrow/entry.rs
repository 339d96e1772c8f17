//! Which instruction a transaction asks the escrow program for.
use vstd::prelude::*;
use crate::error::ProgramError;

verus! {

/// The escrow program's instructions.
#[derive(Debug, Clone, Copy, PartialEq, Eq, Structural)]
pub enum EscrowInstruction {
    Make,
    Take,
    Refund,
    InitBreaker,
    UpdateBreaker,
    PauseBreaker,
}

/// The instruction named by the first byte of the data: 0 make, 1 take,
/// 2 refund, 3 init, 4 update, 5 pause; empty data or any other byte is
/// `InvalidInstructionData`.
pub fn decode_instruction(instruction_data: &[u8]) -> (r: Result<EscrowInstruction, ProgramError>)
    ensures
        instruction_data@.len() == 0 ==> r == Err::<EscrowInstruction, ProgramError>(
            ProgramError::InvalidInstructionData,
        ),
        instruction_data@.len() > 0 ==> r == match instruction_data@[0] {
            0u8 => Ok::<EscrowInstruction, ProgramError>(EscrowInstruction::Make),
            1u8 => Ok(EscrowInstruction::Take),
            2u8 => Ok(EscrowInstruction::Refund),
            3u8 => Ok(EscrowInstruction::InitBreaker),
            4u8 => Ok(EscrowInstruction::UpdateBreaker),
            5u8 => Ok(EscrowInstruction::PauseBreaker),
            _ => Err(ProgramError::InvalidInstructionData),
        },
{
    if instruction_data.len() == 0 {
        return Err(ProgramError::InvalidInstructionData);
    }
    match instruction_data[0] {
        0u8 => Ok(EscrowInstruction::Make),
        1u8 => Ok(EscrowInstruction::Take),
        2u8 => Ok(EscrowInstruction::Refund),
        3u8 => Ok(EscrowInstruction::InitBreaker),
        4u8 => Ok(EscrowInstruction::UpdateBreaker),
        5u8 => Ok(EscrowInstruction::PauseBreaker),
        _ => Err(ProgramError::InvalidInstructionData),
    }
}

} // verus!
