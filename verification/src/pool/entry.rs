//! Which instruction a transaction asks the pool program for.
use vstd::prelude::*;
use crate::error::ProgramError;

verus! {

/// The pool program's instructions.
#[derive(Debug, Clone, Copy, PartialEq, Eq, Structural)]
pub enum PoolInstruction {
    InitPool,
    Swap,
    AddLiquidity,
    Pause,
    UpdateLimiter,
    EmergencyWithdraw,
}

/// The instruction named by the first byte of the data: 0 init, 1 swap,
/// 2 add liquidity, 3 pause, 4 update limiter, 5 emergency withdraw; empty
/// data or any other byte is `InvalidInstructionData`.
pub fn decode_instruction(instruction_data: &[u8]) -> (r: Result<PoolInstruction, ProgramError>)
    ensures
        instruction_data@.len() == 0 ==> r == Err::<PoolInstruction, ProgramError>(
            ProgramError::InvalidInstructionData,
        ),
        instruction_data@.len() > 0 ==> r == match instruction_data@[0] {
            0u8 => Ok::<PoolInstruction, ProgramError>(PoolInstruction::InitPool),
            1u8 => Ok(PoolInstruction::Swap),
            2u8 => Ok(PoolInstruction::AddLiquidity),
            3u8 => Ok(PoolInstruction::Pause),
            4u8 => Ok(PoolInstruction::UpdateLimiter),
            5u8 => Ok(PoolInstruction::EmergencyWithdraw),
            _ => Err(ProgramError::InvalidInstructionData),
        },
{
    if instruction_data.len() == 0 {
        return Err(ProgramError::InvalidInstructionData);
    }
    match instruction_data[0] {
        0u8 => Ok(PoolInstruction::InitPool),
        1u8 => Ok(PoolInstruction::Swap),
        2u8 => Ok(PoolInstruction::AddLiquidity),
        3u8 => Ok(PoolInstruction::Pause),
        4u8 => Ok(PoolInstruction::UpdateLimiter),
        5u8 => Ok(PoolInstruction::EmergencyWithdraw),
        _ => Err(ProgramError::InvalidInstructionData),
    }
}

} // verus!
