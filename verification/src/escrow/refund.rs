//! The refund instruction: the maker takes the escrowed tokens back.
use vstd::prelude::*;
use crate::account::{AccountInput, address_eq, address_at};
use crate::error::{ProgramError, custom_error};
use crate::escrow::state::{Escrow, ERR_UNAUTHORIZED, lemma_escrow_reads_back};
use crate::escrow::take::read_u64_escrow;
use crate::le::u64_le;

verus! {

pub const DISC: u8 = 2;

/// What an accepted refund goes on to do: move `amount` from the vault back
/// to the maker, close the vault (signing with the escrow's `bump`), and
/// move the escrow's lamports to the maker.
#[derive(PartialEq, Eq, Structural)]
pub struct RefundPlan {
    pub amount: u64,
    pub bump: u8,
}

/// The outcome of a refund. Accounts: maker (signer), maker's account for
/// mint a, vault, escrow, token program.
pub open spec fn refund_result(accounts: Seq<AccountInput>) -> Result<RefundPlan, ProgramError> {
    if accounts.len() < 5 {
        Err(ProgramError::NotEnoughAccountKeys)
    } else if !accounts[0].is_signer {
        Err(ProgramError::MissingRequiredSignature)
    } else if accounts[0].key@ != accounts[3].data@.subrange(0, 32) {
        Err(ProgramError::Custom(6000))
    } else {
        Ok(
            RefundPlan {
                amount: u64_le(accounts[3].data@, 96) as u64,
                bump: accounts[3].data@[112],
            },
        )
    }
}

/// Decides the refund instruction: only the maker stored in the escrow may
/// take the tokens back.
pub fn process(accounts: &[AccountInput], _ix_data: &[u8]) -> (r: Result<RefundPlan, ProgramError>)
    requires
        accounts@.len() >= 5 && accounts@[0].is_signer ==> accounts@[3].data@.len()
            >= Escrow::LEN,
    ensures
        r == refund_result(accounts@),
{
    if accounts.len() < 5 {
        return Err(ProgramError::NotEnoughAccountKeys);
    }
    let maker = &accounts[0];
    let escrow = &accounts[3];
    if !maker.is_signer {
        return Err(ProgramError::MissingRequiredSignature);
    }
    let escrow_data = escrow.data.as_slice();
    let stored_maker = address_at(escrow_data, Escrow::OFFSET_MAKER);
    let amount = read_u64_escrow(escrow_data);
    let bump = escrow_data[Escrow::OFFSET_BUMP];
    if !address_eq(&maker.key, &stored_maker) {
        return Err(custom_error(ERR_UNAUTHORIZED));
    }
    Ok(RefundPlan { amount, bump })
}

/// A refund gives back what the make stored: the maker of an escrow gets its
/// whole amount back, signing with its bump; any other signer is refused.
pub proof fn lemma_refund_of_made_escrow(e: Escrow, accounts: Seq<AccountInput>)
    requires
        accounts.len() >= 5,
        accounts[0].is_signer,
        accounts[3].data@ == e.layout(),
    ensures
        accounts[0].key@ == e.maker@ ==> refund_result(accounts) == Ok::<RefundPlan, ProgramError>(
            RefundPlan { amount: e.amount, bump: e.bump },
        ),
        accounts[0].key@ != e.maker@ ==> refund_result(accounts) == Err::<RefundPlan, ProgramError>(
            ProgramError::Custom(6000),
        ),
{
    lemma_escrow_reads_back(e);
}

} // verus!
