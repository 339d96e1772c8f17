//! What the programs learn from the token programs' account layouts, all of
//! it computed by the token-2022 crate.
use vstd::prelude::*;
use crate::account::Address;
use crate::error::{ProgramError, error_code};
use crate::le::u64_le;

verus! {

/// The account extensions the create-idempotent program may ask for.
#[derive(Debug, Clone, Copy, PartialEq, Eq, Structural)]
pub enum AccountExtension {
    ImmutableOwner,
    TransferFeeAmount,
    NonTransferableAccount,
    TransferHookAccount,
    PausableAccount,
}

/// The length of an extension's value in a token account.
pub open spec fn extension_value_len(e: AccountExtension) -> int {
    match e {
        AccountExtension::ImmutableOwner => 0,
        AccountExtension::TransferFeeAmount => 8,
        AccountExtension::NonTransferableAccount => 0,
        AccountExtension::TransferHookAccount => 1,
        AccountExtension::PausableAccount => 0,
    }
}

/// The bytes the TLV entries of `exts` take: a 4-byte header and the value
/// for each.
pub open spec fn extensions_len(exts: Seq<AccountExtension>) -> int
    decreases exts.len(),
{
    if exts.len() == 0 {
        0
    } else {
        extensions_len(exts.drop_last()) + 4 + extension_value_len(exts.last())
    }
}

/// The entries of `exts` take between 4 and 13 bytes each.
pub proof fn lemma_extensions_len_bounds(exts: Seq<AccountExtension>)
    ensures
        4 * exts.len() <= extensions_len(exts) <= 13 * exts.len(),
    decreases exts.len(),
{
    if exts.len() > 0 {
        lemma_extensions_len_bounds(exts.drop_last());
    }
}

/// Whether some extension occurs twice.
pub open spec fn has_duplicate(exts: Seq<AccountExtension>) -> bool {
    exists|i: int, j: int| 0 <= i < j < exts.len() && exts[i] == exts[j]
}

/// The token-account length for these extensions: the bare 165-byte account
/// when there are none, otherwise 165 bytes, the account-type byte and the
/// TLV entries; a repeated extension is refused.
pub open spec fn account_len_for(exts: Seq<AccountExtension>) -> Result<int, ProgramError> {
    if exts.len() == 0 {
        Ok(165)
    } else if has_duplicate(exts) {
        Err(ProgramError::InvalidInstructionData)
    } else {
        Ok(166 + extensions_len(exts))
    }
}

/// Calls `try_calculate_account_len::<Account>` of the token-2022 crate.
/// Claimed (as its source shows for these five account extensions, all of
/// them account extensions with a known value length): the length is that
/// of `account_len_for`, a duplicate gives `InvalidInstructionData`, whose
/// runtime code is returned.
#[verifier::external_body]
pub(crate) fn calculate_account_len(exts: &[AccountExtension]) -> (r: Result<usize, u64>)
    ensures
        match account_len_for(exts@) {
            Ok(n) => r == Ok::<usize, u64>(n as usize),
            Err(e) => r == Err::<usize, u64>(error_code(e)),
        },
{
    let types: Vec<pinocchio_token_2022::state::ExtensionType> = exts.iter().map(|e| match e {
        AccountExtension::ImmutableOwner => pinocchio_token_2022::state::ExtensionType::ImmutableOwner,
        AccountExtension::TransferFeeAmount => pinocchio_token_2022::state::ExtensionType::TransferFeeAmount,
        AccountExtension::NonTransferableAccount => pinocchio_token_2022::state::ExtensionType::NonTransferableAccount,
        AccountExtension::TransferHookAccount => pinocchio_token_2022::state::ExtensionType::TransferHookAccount,
        AccountExtension::PausableAccount => pinocchio_token_2022::state::ExtensionType::PausableAccount,
    }).collect();
    pinocchio_token_2022::state::try_calculate_account_len::<pinocchio_token_2022::state::Account>(
        &types,
    ).map_err(|e| u64::from(e))
}

/// The fields of a token account the programs read.
pub struct TokenAccountFields {
    pub mint: Address,
    pub owner: Address,
    pub amount: u64,
}

/// The runtime code of `InvalidAccountData`.
pub open spec fn invalid_account_data_code() -> u64 {
    error_code(ProgramError::InvalidAccountData)
}

/// The mint of token-account data: bytes 0 to 32.
pub open spec fn stored_mint(d: Seq<u8>) -> Seq<u8> {
    d.subrange(0, 32)
}

/// The owner of token-account data: bytes 32 to 64.
pub open spec fn stored_owner(d: Seq<u8>) -> Seq<u8> {
    d.subrange(32, 64)
}

/// The amount of token-account data: the little-endian u64 at 64.
pub open spec fn stored_amount(d: Seq<u8>) -> int {
    u64_le(d, 64)
}

/// Whether `d` is laid out as a token account (with or without extensions):
/// exactly 165 bytes, or longer with the account-type byte at 165 set to
/// `Account` (2), and never the 355 bytes of a multisig.
pub open spec fn is_token_account_data(d: Seq<u8>) -> bool {
    d.len() != 355 && (d.len() == 165 || (d.len() > 165 && d[165] == 2))
}

/// Calls `StateWithExtensions::<Account>::from_bytes` of the token-2022
/// crate and reads the base account's mint, owner and amount. Claimed (as
/// its source shows): it succeeds exactly on `is_token_account_data`, else
/// fails with `InvalidAccountData` (its runtime code is returned); the mint, owner and amount are the
/// bytes 0..32, 32..64 and the little-endian u64 at 64.
#[verifier::external_body]
pub(crate) fn token_account_fields(data: &[u8]) -> (r: Result<TokenAccountFields, u64>)
    ensures
        is_token_account_data(data@) <==> r is Ok,
        r matches Err(c) ==> c == invalid_account_data_code(),
        r matches Ok(f) ==> f.mint@ == stored_mint(data@),
        r matches Ok(f) ==> f.owner@ == stored_owner(data@),
        r matches Ok(f) ==> f.amount == stored_amount(data@),
{
    match pinocchio_token_2022::state::StateWithExtensions::<pinocchio_token_2022::state::Account>::from_bytes(data) {
        Ok(state) => Ok(TokenAccountFields {
            mint: state.base.mint().to_bytes(),
            owner: state.base.owner().to_bytes(),
            amount: state.base.amount(),
        }),
        Err(e) => Err(u64::from(e)),
    }
}

/// Whether `d` is laid out as a mint (with or without extensions): exactly
/// 82 bytes, or longer than 165 with zero padding from 82 to 165 and the
/// account-type byte at 165 set to `Mint` (1), and never 355 bytes.
pub open spec fn is_mint_data(d: Seq<u8>) -> bool {
    d.len() != 355 && (d.len() == 82 || (d.len() > 165 && (forall|i: int|
        82 <= i < 165 ==> d[i] == 0) && d[165] == 1))
}

/// Calls `StateWithExtensions::<Mint>::from_bytes` of the token-2022 crate
/// and reads the mint's decimals. Claimed (as its source shows): it
/// succeeds exactly on `is_mint_data`, else fails with `InvalidAccountData` (its runtime code is
/// returned); the decimals are byte 44.
#[verifier::external_body]
pub(crate) fn mint_decimals(data: &[u8]) -> (r: Result<u8, u64>)
    ensures
        is_mint_data(data@) <==> r is Ok,
        r matches Err(c) ==> c == invalid_account_data_code(),
        r matches Ok(d) ==> d == data@[44],
{
    match pinocchio_token_2022::state::StateWithExtensions::<pinocchio_token_2022::state::Mint>::from_bytes(data) {
        Ok(state) => Ok(state.base.decimals()),
        Err(e) => Err(u64::from(e)),
    }
}

/// The address of the SPL Token program.
pub open spec fn spl_token_id() -> Seq<u8> {
    seq![
        6u8, 221, 246, 225, 215, 101, 161, 147, 217, 203, 225, 70, 206, 235, 121, 172, 28, 180,
        133, 237, 95, 91, 55, 145, 58, 140, 245, 133, 126, 255, 0, 169,
    ]
}

/// The address of the system program: 32 zero bytes.
pub open spec fn system_program_id() -> Seq<u8> {
    Seq::new(32, |i: int| 0u8)
}

/// Reads `pinocchio_token::ID`. Claimed: it is the SPL Token program's
/// address ("TokenkegQfeZyiNwAJbNbGKPFXCWuBvf9Ss623VQ5DA").
#[verifier::external_body]
pub(crate) fn token_program_id() -> (r: Address)
    ensures
        r@ == spl_token_id(),
{
    pinocchio_token::ID.to_bytes()
}

/// Calls `pinocchio_system::id()`. Claimed: it is the system program's
/// address ("11111111111111111111111111111111", all zero bytes).
#[verifier::external_body]
pub(crate) fn system_id() -> (r: Address)
    ensures
        r@ == system_program_id(),
{
    pinocchio_system::id().to_bytes()
}

/// Reads `Account::BASE_LEN` of the token-2022 crate. Claimed: 165, the
/// size of its base token-account layout.
#[verifier::external_body]
pub(crate) fn token_account_base_len() -> (r: usize)
    ensures
        r == 165,
{
    pinocchio_token_2022::state::Account::BASE_LEN
}

/// Reads `Mint::BASE_LEN` of the token-2022 crate. Claimed: 82, the size of
/// its base mint layout.
#[verifier::external_body]
pub(crate) fn mint_base_len() -> (r: usize)
    ensures
        r == 82,
{
    pinocchio_token_2022::state::Mint::BASE_LEN
}

} // verus!
