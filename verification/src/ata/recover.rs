//! Recover-nested: move the tokens of an associated account that belongs to
//! another associated account (instead of to the wallet) into the wallet's
//! own associated account, and close the nested one.
use vstd::prelude::*;
use crate::account::{Address, AccountInput, address_eq};
use crate::error::{ProgramError, error_code, error_from_code};
use crate::ata::token::{is_token_account_data, is_mint_data, token_account_fields, mint_decimals};
use crate::le::u64_le;
use crate::pda::{derived_program_address, derive_program_address};

verus! {

/// What an accepted recovery goes on to do: transfer `amount` (with the
/// mint's `decimals`) from the nested account to the destination through
/// the token program at `nested_token_program`, then close the nested
/// account into the wallet, both signed by the owner account with `bump`.
#[derive(Debug, PartialEq, Eq, Structural)]
pub struct RecoverPlan {
    pub amount: u64,
    pub decimals: u8,
    pub bump: u8,
    pub nested_token_program: usize,
}

/// The index of the nested token program: the eighth account when given,
/// else the owner's token program (the seventh).
pub open spec fn nested_program_index(accounts: Seq<AccountInput>) -> int {
    if accounts.len() > 7 {
        7
    } else {
        6
    }
}

/// The check that an address derived from three seeds is the account given.
pub open spec fn derivation_error(
    seeds: Seq<Seq<u8>>,
    program_id: Address,
    expected: Seq<u8>,
) -> Option<ProgramError> {
    match derived_program_address(seeds, program_id@) {
        None => Some(ProgramError::InvalidAccountData),
        Some(found) => if found.0 != expected {
            Some(ProgramError::InvalidSeeds)
        } else {
            None
        },
    }
}

/// The outcome of recover-nested. Accounts: nested account, nested mint,
/// destination account, owner account, owner mint, wallet, owner token
/// program, and optionally the nested token program. The owner, nested and
/// destination accounts must be the associated addresses of (wallet, owner
/// mint, owner program), (owner account, nested mint, nested program) and
/// (wallet, nested mint, nested program); the wallet must sign; the owner
/// mint and owner account must belong to the owner program, and the owner
/// account to the wallet; the nested account must belong to the nested
/// program and to the owner account; the nested mint must belong to the
/// nested program and be a mint.
pub open spec fn recover_result(program_id: Address, accounts: Seq<AccountInput>) -> Result<
    RecoverPlan,
    ProgramError,
> {
    if accounts.len() < 7 {
        Err(ProgramError::NotEnoughAccountKeys)
    } else {
        let nested_ata = accounts[0];
        let nested_mint = accounts[1];
        let destination = accounts[2];
        let owner_ata = accounts[3];
        let owner_mint = accounts[4];
        let wallet = accounts[5];
        let owner_program = accounts[6];
        let nested_program = accounts[nested_program_index(accounts)];
        match derived_program_address(
            seq![wallet.key@, owner_mint.key@, owner_program.key@],
            program_id@,
        ) {
            None => Err(ProgramError::InvalidAccountData),
            Some(owner_found) => if owner_found.0 != owner_ata.key@ {
                Err(ProgramError::InvalidSeeds)
            } else if let Some(e) = derivation_error(
                seq![owner_ata.key@, nested_mint.key@, nested_program.key@],
                program_id,
                nested_ata.key@,
            ) {
                Err(e)
            } else if let Some(e) = derivation_error(
                seq![wallet.key@, nested_mint.key@, nested_program.key@],
                program_id,
                destination.key@,
            ) {
                Err(e)
            } else if !wallet.is_signer {
                Err(ProgramError::MissingRequiredSignature)
            } else if owner_mint.owner@ != owner_program.key@ {
                Err(ProgramError::IllegalOwner)
            } else if owner_ata.owner@ != owner_program.key@ {
                Err(ProgramError::IllegalOwner)
            } else if !is_token_account_data(owner_ata.data@) {
                Err(ProgramError::InvalidAccountData)
            } else if owner_ata.data@.subrange(32, 64) != wallet.key@ {
                Err(ProgramError::IllegalOwner)
            } else if nested_ata.owner@ != nested_program.key@ {
                Err(ProgramError::IllegalOwner)
            } else if !is_token_account_data(nested_ata.data@) {
                Err(ProgramError::InvalidAccountData)
            } else if nested_ata.data@.subrange(32, 64) != owner_ata.key@ {
                Err(ProgramError::IllegalOwner)
            } else if nested_mint.owner@ != nested_program.key@ {
                Err(ProgramError::IllegalOwner)
            } else if !is_mint_data(nested_mint.data@) {
                Err(ProgramError::InvalidAccountData)
            } else {
                Ok(
                    RecoverPlan {
                        amount: u64_le(nested_ata.data@, 64) as u64,
                        decimals: nested_mint.data@[44],
                        bump: owner_found.1,
                        nested_token_program: nested_program_index(accounts) as usize,
                    },
                )
            },
        }
    }
}

/// Checks that the address derived from three seeds is `expected`.
fn check_derived(
    seed0: &Address,
    seed1: &Address,
    seed2: &Address,
    program_id: &Address,
    expected: &Address,
) -> (r: Result<u8, ProgramError>)
    ensures
        derivation_error(seq![seed0@, seed1@, seed2@], *program_id, expected@) matches Some(e) ==> r
            == Err::<u8, ProgramError>(e),
        derivation_error(seq![seed0@, seed1@, seed2@], *program_id, expected@) is None ==> (
        r matches Ok(bump) && derived_program_address(seq![seed0@, seed1@, seed2@], program_id@)
            == Some((expected@, bump))),
{
    match derive_program_address(seed0, seed1, seed2, program_id) {
        None => Err(ProgramError::InvalidAccountData),
        Some((derived, bump)) => if !address_eq(&derived, expected) {
            Err(ProgramError::InvalidSeeds)
        } else {
            Ok(bump)
        },
    }
}

/// Decides recover-nested (see `recover_result`).
pub fn process_instruction(
    program_id: &Address,
    accounts: &[AccountInput],
    _instruction_data: &[u8],
) -> (r: Result<RecoverPlan, ProgramError>)
    ensures
        r == recover_result(*program_id, accounts@),
{
    if accounts.len() < 7 {
        return Err(ProgramError::NotEnoughAccountKeys);
    }
    let nested_ata = &accounts[0];
    let nested_mint = &accounts[1];
    let destination = &accounts[2];
    let owner_ata = &accounts[3];
    let owner_mint = &accounts[4];
    let wallet = &accounts[5];
    let owner_program = &accounts[6];
    let nested_index: usize = if accounts.len() > 7 {
        7
    } else {
        6
    };
    let nested_program = &accounts[nested_index];
    let bump_seed = match check_derived(
        &wallet.key,
        &owner_mint.key,
        &owner_program.key,
        program_id,
        &owner_ata.key,
    ) {
        Ok(b) => b,
        Err(e) => {
            return Err(e);
        },
    };
    if let Err(e) = check_derived(
        &owner_ata.key,
        &nested_mint.key,
        &nested_program.key,
        program_id,
        &nested_ata.key,
    ) {
        return Err(e);
    }
    if let Err(e) = check_derived(
        &wallet.key,
        &nested_mint.key,
        &nested_program.key,
        program_id,
        &destination.key,
    ) {
        return Err(e);
    }
    if !wallet.is_signer {
        return Err(ProgramError::MissingRequiredSignature);
    }
    if !address_eq(&owner_mint.owner, &owner_program.key) {
        return Err(ProgramError::IllegalOwner);
    }
    if !address_eq(&owner_ata.owner, &owner_program.key) {
        return Err(ProgramError::IllegalOwner);
    }
    let owner_account = match token_account_fields(owner_ata.data.as_slice()) {
        Ok(a) => a,
        Err(code) => {
            return Err(error_from_code(code));
        },
    };
    if !address_eq(&owner_account.owner, &wallet.key) {
        return Err(ProgramError::IllegalOwner);
    }
    if !address_eq(&nested_ata.owner, &nested_program.key) {
        return Err(ProgramError::IllegalOwner);
    }
    let nested_account = match token_account_fields(nested_ata.data.as_slice()) {
        Ok(a) => a,
        Err(code) => {
            return Err(error_from_code(code));
        },
    };
    if !address_eq(&nested_account.owner, &owner_ata.key) {
        return Err(ProgramError::IllegalOwner);
    }
    if !address_eq(&nested_mint.owner, &nested_program.key) {
        return Err(ProgramError::IllegalOwner);
    }
    let decimals = match mint_decimals(nested_mint.data.as_slice()) {
        Ok(d) => d,
        Err(code) => {
            return Err(error_from_code(code));
        },
    };
    let amount = nested_account.amount;
    Ok(RecoverPlan { amount, decimals, bump: bump_seed, nested_token_program: nested_index })
}

/// A recovery moves the nested tokens on the nested mint's terms: the
/// amount is the nested account's whole balance (the u64 at 64 of its data)
/// and the decimals are those of the nested mint (byte 44 of its data).
/// Nothing in the owner mint's data counts: giving it other data (same
/// address, owner and signer flag) leaves the outcome as it was.
pub proof fn lemma_recover_on_nested_terms(
    program_id: Address,
    accounts: Seq<AccountInput>,
    other_owner_mint: AccountInput,
)
    requires
        accounts.len() >= 7,
        other_owner_mint.key == accounts[4].key,
        other_owner_mint.owner == accounts[4].owner,
        other_owner_mint.is_signer == accounts[4].is_signer,
    ensures
        recover_result(program_id, accounts) matches Ok(plan) ==> plan.decimals
            == accounts[1].data@[44],
        recover_result(program_id, accounts) matches Ok(plan) ==> plan.amount == u64_le(
            accounts[0].data@,
            64,
        ),
        recover_result(program_id, accounts.update(4, other_owner_mint)) == recover_result(
            program_id,
            accounts,
        ),
{
    let after = accounts.update(4, other_owner_mint);
    assert(after[0] == accounts[0] && after[1] == accounts[1] && after[2] == accounts[2]
        && after[3] == accounts[3] && after[5] == accounts[5] && after[6] == accounts[6]);
    assert(nested_program_index(after) == nested_program_index(accounts));
    assert(after[nested_program_index(after)] == accounts[nested_program_index(accounts)]);
    assert(after[4].key@ == accounts[4].key@ && after[4].owner@ == accounts[4].owner@);
}

} // verus!
