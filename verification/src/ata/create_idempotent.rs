//! Create-idempotent: make sure the wallet's associated account for a mint
//! exists, creating it when it does not.
use vstd::prelude::*;
use crate::account::{Address, AccountInput, address_eq};
use crate::error::{ProgramError, error_code, error_from_code};
use crate::ata::token::{
    AccountExtension, account_len_for, calculate_account_len, token_account_fields,
    is_token_account_data, has_duplicate, extensions_len, spl_token_id, system_program_id, token_program_id, system_id,
    token_account_base_len, mint_base_len,
};
use crate::le::{u16_le, read_u16_at};
use crate::pda::{derived_program_address, derive_program_address};

verus! {

/// Length of the account-type byte.
pub const ACCOUNT_TYPE_SIZE: usize = 1;

/// Length of a TLV entry's header: a 2-byte type and a 2-byte length.
pub const TLV_HEADER_LEN: usize = 4;

/// A token-2022 account with only the immutable-owner extension: the 165
/// base bytes, the account-type byte and one empty TLV entry.
pub const TOKEN_2022_BASE_ACCOUNT_DATA_SIZE: u64 = 170;

/// The account extension that a mint extension of type `t` calls for:
/// transfer-fee config (1), non-transferable (9), transfer hook (14) and
/// pausable (26) each have one; other types none.
pub open spec fn account_extension_for(t: int) -> Option<AccountExtension> {
    if t == 1 {
        Some(AccountExtension::TransferFeeAmount)
    } else if t == 9 {
        Some(AccountExtension::NonTransferableAccount)
    } else if t == 14 {
        Some(AccountExtension::TransferHookAccount)
    } else if t == 26 {
        Some(AccountExtension::PausableAccount)
    } else {
        None
    }
}

/// The account extensions called for by the TLV entries of mint data `d`
/// from `offset` on: the walk stops at a header that does not fit, at type
/// 0 and at a type above 28; each entry is skipped by its header and its
/// stated length.
pub open spec fn scan_extensions(d: Seq<u8>, offset: int) -> Seq<AccountExtension>
    decreases (if offset <= d.len() {
        d.len() - offset
    } else {
        0
    }),
{
    if offset < 0 || offset + 4 > d.len() {
        seq![]
    } else {
        let t = u16_le(d, offset);
        let l = u16_le(d, offset + 2);
        if t == 0 || t > 28 {
            seq![]
        } else {
            let rest = scan_extensions(d, offset + 4 + l);
            match account_extension_for(t) {
                Some(e) => seq![e] + rest,
                None => rest,
            }
        }
    }
}

/// Where the create-idempotent program starts reading a mint's TLV entries:
/// right after the 82-byte base mint and one account-type byte.
pub open spec fn scan_start() -> int {
    83
}

/// The extensions a new account for mint data `d` needs: the immutable
/// owner, then those the mint's entries call for.
pub open spec fn needed_extensions(d: Seq<u8>) -> Seq<AccountExtension> {
    seq![AccountExtension::ImmutableOwner] + scan_extensions(d, scan_start())
}

/// The account extension that the mint extension type `t` calls for.
fn extension_for(t: u16) -> (r: Option<AccountExtension>)
    ensures
        r == account_extension_for(t as int),
{
    match t {
        1 => Some(AccountExtension::TransferFeeAmount),
        9 => Some(AccountExtension::NonTransferableAccount),
        14 => Some(AccountExtension::TransferHookAccount),
        26 => Some(AccountExtension::PausableAccount),
        _ => None,
    }
}

/// The scan of the entries from `offset` ends when the next header would
/// not fit.
proof fn lemma_scan_ends(d: Seq<u8>, offset: int)
    requires
        offset + 4 > d.len(),
    ensures
        scan_extensions(d, offset) == Seq::<AccountExtension>::empty(),
{
}

/// Collects the extensions a new account for a mint with data `mint_data`
/// needs (see `needed_extensions`). The program keeps them in a fixed
/// array of eight, so at most seven may come from the mint.
pub fn collect_extensions(mint_data: &[u8]) -> (r: Vec<AccountExtension>)
    requires
        scan_extensions(mint_data@, scan_start()).len() <= 7,
    ensures
        r@ == needed_extensions(mint_data@),
{
    let mut extensions: Vec<AccountExtension> = Vec::new();
    extensions.push(AccountExtension::ImmutableOwner);
    let len = mint_data.len();
    let mut offset: usize = mint_base_len() + ACCOUNT_TYPE_SIZE;
    let ghost full = scan_extensions(mint_data@, scan_start());
    let ghost mut seen: Seq<AccountExtension> = seq![];
    loop
        invariant_except_break
            seen + scan_extensions(mint_data@, offset as int) == full,
        invariant
            len == mint_data@.len(),
            83 <= offset,
            full.len() <= 7,
            full == scan_extensions(mint_data@, scan_start()),
            extensions@ == seq![AccountExtension::ImmutableOwner] + seen,
        ensures
            extensions@ == seq![AccountExtension::ImmutableOwner] + full,
        decreases len + 1 - offset,
    {
        if offset > len || len - offset < TLV_HEADER_LEN {
            proof {
                lemma_scan_ends(mint_data@, offset as int);
                assert(seen =~= full);
            }
            break;
        }
        let ext_type = read_u16_at(mint_data, offset);
        let ext_len = read_u16_at(mint_data, offset + 2) as usize;
        if ext_type == 0 || ext_type > 28 {
            assert(scan_extensions(mint_data@, offset as int) == Seq::<AccountExtension>::empty());
            assert(seen =~= full);
            break;
        }
        let ghost next = scan_extensions(mint_data@, offset + 4 + ext_len);
        match extension_for(ext_type) {
            Some(e) => {
                proof {
                    assert(scan_extensions(mint_data@, offset as int) == seq![e] + next);
                    assert(seen + seq![e] + next =~= full);
                    assert((seen + seq![e]).len() <= full.len());
                }
                extensions.push(e);
                proof {
                    seen = seen + seq![e];
                }
                assert(extensions@ =~= seq![AccountExtension::ImmutableOwner] + seen);
            },
            None => {
                assert(scan_extensions(mint_data@, offset as int) == next);
            },
        }
        let step = TLV_HEADER_LEN + ext_len;
        if step > len - offset {
            proof {
                lemma_scan_ends(mint_data@, offset + step);
                assert(seen =~= full);
            }
            break;
        }
        offset = offset + step;
    }
    extensions
}

/// Whether the mint's entries call for more than seven extensions, more
/// than the program's fixed array holds.
fn too_many_extensions(mint_data: &[u8]) -> (r: bool)
    ensures
        r <==> scan_extensions(mint_data@, scan_start()).len() > 7,
{
    let len = mint_data.len();
    let mut count: usize = 0;
    let mut offset: usize = mint_base_len() + ACCOUNT_TYPE_SIZE;
    let ghost full = scan_extensions(mint_data@, scan_start());
    let ghost mut seen: Seq<AccountExtension> = seq![];
    loop
        invariant_except_break
            seen + scan_extensions(mint_data@, offset as int) == full,
        invariant
            len == mint_data@.len(),
            83 <= offset,
            count <= 7,
            full == scan_extensions(mint_data@, scan_start()),
            seen.len() == count,
        ensures
            full.len() == count,
        decreases len + 1 - offset,
    {
        if offset > len || len - offset < TLV_HEADER_LEN {
            proof {
                lemma_scan_ends(mint_data@, offset as int);
                assert(seen =~= full);
            }
            break;
        }
        let ext_type = read_u16_at(mint_data, offset);
        let ext_len = read_u16_at(mint_data, offset + 2) as usize;
        if ext_type == 0 || ext_type > 28 {
            assert(scan_extensions(mint_data@, offset as int) == Seq::<AccountExtension>::empty());
            assert(seen =~= full);
            break;
        }
        let ghost next = scan_extensions(mint_data@, offset + 4 + ext_len);
        match extension_for(ext_type) {
            Some(e) => {
                proof {
                    assert(scan_extensions(mint_data@, offset as int) == seq![e] + next);
                    assert(seen + seq![e] + next =~= full);
                    seen = seen + seq![e];
                    assert(full.len() >= seen.len());
                }
                count = count + 1;
                if count > 7 {
                    return true;
                }
            },
            None => {
                assert(scan_extensions(mint_data@, offset as int) == next);
            },
        }
        let step = TLV_HEADER_LEN + ext_len;
        if step > len - offset {
            proof {
                lemma_scan_ends(mint_data@, offset + step);
                assert(seen =~= full);
            }
            break;
        }
        offset = offset + step;
    }
    false
}

/// What a create-idempotent instruction decided: the account already exists
/// as it should (nothing to do), or it is to be created with `account_len`
/// bytes for the token program, signing with `bump`, and initialized for
/// the wallet and mint (with the immutable owner when the program is not
/// SPL Token).
#[derive(Debug, PartialEq, Eq, Structural)]
pub enum CreateOutcome {
    AlreadyExists,
    Create { bump: u8, account_len: u64, is_spl_token: bool },
}

/// Whether the instruction gets as far as sizing a token-2022 account from
/// the mint's extensions (and so walks the mint's TLV entries).
pub open spec fn create_reaches_scan(program_id: Address, accounts: Seq<AccountInput>) -> bool {
    &&& accounts.len() >= 6
    &&& derived_program_address(
        seq![accounts[2].key@, accounts[3].key@, accounts[5].key@],
        program_id@,
    ) matches Some(found)
    &&& accounts[1].key@ == found.0
    &&& !(accounts[1].owner@ == accounts[5].key@ && is_token_account_data(accounts[1].data@))
    &&& accounts[1].owner@ == system_program_id()
    &&& accounts[5].key@ != spl_token_id()
    &&& accounts[3].data@.len() != 82
}

/// The outcome of create-idempotent. Accounts: funder, associated account,
/// wallet, mint, system program, token program. The associated account must
/// be the address derived from wallet, mint and token program. If it is
/// already a token account of that program, it must belong to the wallet and
/// the mint, and nothing more is done. Otherwise it must still belong to the
/// system program, and is created: 165 bytes for SPL Token; for another
/// token program 170 bytes for a plain 82-byte mint, else the length the
/// needed extensions call for.
pub open spec fn create_result(program_id: Address, accounts: Seq<AccountInput>) -> Result<
    CreateOutcome,
    ProgramError,
> {
    if accounts.len() < 6 {
        Err(ProgramError::NotEnoughAccountKeys)
    } else {
        let ata = accounts[1];
        let wallet = accounts[2];
        let mint = accounts[3];
        let token_program = accounts[5];
        match derived_program_address(
            seq![wallet.key@, mint.key@, token_program.key@],
            program_id@,
        ) {
            None => Err(ProgramError::InvalidAccountData),
            Some(found) => if found.0 != ata.key@ {
                Err(ProgramError::InvalidSeeds)
            } else if ata.owner@ == token_program.key@ && is_token_account_data(ata.data@) {
                if ata.data@.subrange(32, 64) != wallet.key@ {
                    Err(ProgramError::IllegalOwner)
                } else if ata.data@.subrange(0, 32) != mint.key@ {
                    Err(ProgramError::InvalidAccountData)
                } else {
                    Ok(CreateOutcome::AlreadyExists)
                }
            } else if ata.owner@ != system_program_id() {
                Err(ProgramError::IllegalOwner)
            } else if token_program.key@ == spl_token_id() {
                Ok(CreateOutcome::Create { bump: found.1, account_len: 165, is_spl_token: true })
            } else if mint.data@.len() == 82 {
                Ok(CreateOutcome::Create { bump: found.1, account_len: 170, is_spl_token: false })
            } else {
                match account_len_for(needed_extensions(mint.data@)) {
                    Ok(n) => Ok(
                        CreateOutcome::Create {
                            bump: found.1,
                            account_len: n as u64,
                            is_spl_token: false,
                        },
                    ),
                    Err(e) => Err(e),
                }
            },
        }
    }
}

/// Whether the instruction gets as far as walking the mint's entries (see
/// `create_reaches_scan`).
fn reaches_scan(program_id: &Address, accounts: &[AccountInput]) -> (r: bool)
    ensures
        r == create_reaches_scan(*program_id, accounts@),
{
    if accounts.len() < 6 {
        return false;
    }
    let ata = &accounts[1];
    let token_program = &accounts[5];
    let derived = match derive_program_address(
        &accounts[2].key,
        &accounts[3].key,
        &token_program.key,
        program_id,
    ) {
        Some(p) => p.0,
        None => {
            return false;
        },
    };
    if !address_eq(&derived, &ata.key) {
        return false;
    }
    if address_eq(&ata.owner, &token_program.key) {
        if let Ok(_) = token_account_fields(ata.data.as_slice()) {
            return false;
        }
    }
    let system = system_id();
    let spl_token = token_program_id();
    address_eq(&ata.owner, &system) && !address_eq(&token_program.key, &spl_token)
        && accounts[3].data.len() != mint_base_len()
}

/// Decides create-idempotent like `process_instruction`, on every input:
/// `None` where the mint's entries call for more extensions than the
/// program's fixed array holds (where the program itself stops with a
/// panic).
pub fn try_process_instruction(
    program_id: &Address,
    accounts: &[AccountInput],
    instruction_data: &[u8],
) -> (r: Option<Result<CreateOutcome, ProgramError>>)
    ensures
        r is None <==> create_reaches_scan(*program_id, accounts@) && scan_extensions(
            accounts@[3].data@,
            scan_start(),
        ).len() > 7,
        r matches Some(x) ==> x == create_result(*program_id, accounts@),
{
    if accounts.len() >= 6 && too_many_extensions(accounts[3].data.as_slice()) && reaches_scan(
        program_id,
        accounts,
    ) {
        None
    } else {
        Some(process_instruction(program_id, accounts, instruction_data))
    }
}

/// Decides create-idempotent (see `create_result`).
pub fn process_instruction(
    program_id: &Address,
    accounts: &[AccountInput],
    _instruction_data: &[u8],
) -> (r: Result<CreateOutcome, ProgramError>)
    requires
        create_reaches_scan(*program_id, accounts@) ==> scan_extensions(
            accounts@[3].data@,
            scan_start(),
        ).len() <= 7,
    ensures
        r == create_result(*program_id, accounts@),
{
    if accounts.len() < 6 {
        return Err(ProgramError::NotEnoughAccountKeys);
    }
    let ata = &accounts[1];
    let wallet = &accounts[2];
    let mint = &accounts[3];
    let token_program = &accounts[5];
    let (derived, bump_seed) = match derive_program_address(
        &wallet.key,
        &mint.key,
        &token_program.key,
        program_id,
    ) {
        Some(p) => p,
        None => {
            return Err(ProgramError::InvalidAccountData);
        },
    };
    if !address_eq(&derived, &ata.key) {
        return Err(ProgramError::InvalidSeeds);
    }
    if address_eq(&ata.owner, &token_program.key) {
        if let Ok(existing) = token_account_fields(ata.data.as_slice()) {
            if !address_eq(&existing.owner, &wallet.key) {
                return Err(ProgramError::IllegalOwner);
            }
            if !address_eq(&existing.mint, &mint.key) {
                return Err(ProgramError::InvalidAccountData);
            }
            return Ok(CreateOutcome::AlreadyExists);
        }
    }
    let system = system_id();
    if !address_eq(&ata.owner, &system) {
        return Err(ProgramError::IllegalOwner);
    }
    let spl_token = token_program_id();
    let is_spl_token = address_eq(&token_program.key, &spl_token);
    let account_len: u64 = if is_spl_token {
        token_account_base_len() as u64
    } else {
        let mint_data = mint.data.as_slice();
        if mint_data.len() == mint_base_len() {
            TOKEN_2022_BASE_ACCOUNT_DATA_SIZE
        } else {
            let extensions = collect_extensions(mint_data);
            match calculate_account_len(extensions.as_slice()) {
                Ok(n) => {
                    proof {
                        crate::ata::token::lemma_extensions_len_bounds(extensions@);
                    }
                    n as u64
                },
                Err(code) => {
                    let e = error_from_code(code);
                    proof {
                        assert(account_len_for(extensions@) matches Err(e0) && error_code(e0)
                            == code);
                    }
                    return Err(e);
                },
            }
        }
    };
    Ok(CreateOutcome::Create { bump: bump_seed, account_len, is_spl_token })
}

/// Create-idempotent is idempotent: once the associated account holds a
/// token account of the token program for the wallet and the mint (what a
/// creation leaves behind), the instruction answers that it already exists
/// and does nothing more.
pub proof fn lemma_create_again_does_nothing(
    program_id: Address,
    accounts: Seq<AccountInput>,
    created: AccountInput,
)
    requires
        create_result(program_id, accounts) matches Ok(CreateOutcome::Create { .. }),
        created.key == accounts[1].key,
        created.owner == accounts[5].key,
        is_token_account_data(created.data@),
        created.data@.subrange(0, 32) == accounts[3].key@,
        created.data@.subrange(32, 64) == accounts[2].key@,
    ensures
        create_result(program_id, accounts.update(1, created)) == Ok::<
            CreateOutcome,
            ProgramError,
        >(CreateOutcome::AlreadyExists),
{
    let after = accounts.update(1, created);
    assert(after[2] == accounts[2] && after[3] == accounts[3] && after[5] == accounts[5]);
}

/// A mint without extension data (its 82 base bytes only) needs the
/// immutable owner alone, and the 170 bytes the program uses for it are the
/// length the token-2022 layout gives that extension.
pub proof fn lemma_plain_mint_account_len(d: Seq<u8>)
    requires
        d.len() == 82,
    ensures
        needed_extensions(d) == seq![AccountExtension::ImmutableOwner],
        account_len_for(needed_extensions(d)) == Ok::<int, ProgramError>(
            TOKEN_2022_BASE_ACCOUNT_DATA_SIZE as int,
        ),
{
    lemma_scan_ends(d, scan_start());
    assert(needed_extensions(d) =~= seq![AccountExtension::ImmutableOwner]);
    let exts = seq![AccountExtension::ImmutableOwner];
    assert(exts.drop_last() =~= Seq::<AccountExtension>::empty());
    assert(extensions_len(exts) == 4) by {
        reveal_with_fuel(extensions_len, 2);
    }
    assert(!has_duplicate(exts));
}

/// The walk over a mint's entries never asks for the immutable owner.
proof fn lemma_scan_lacks_immutable_owner(d: Seq<u8>, offset: int)
    ensures
        forall|i: int|
            0 <= i < scan_extensions(d, offset).len() ==> scan_extensions(d, offset)[i]
                != AccountExtension::ImmutableOwner,
    decreases (if offset <= d.len() {
        d.len() - offset
    } else {
        0
    }),
{
    if offset < 0 || offset + 4 > d.len() {
    } else {
        let t = u16_le(d, offset);
        let l = u16_le(d, offset + 2);
        if t == 0 || t > 28 {
        } else {
            lemma_scan_lacks_immutable_owner(d, offset + 4 + l);
            let rest = scan_extensions(d, offset + 4 + l);
            match account_extension_for(t) {
                Some(e) => {
                    assert forall|i: int|
                        0 <= i < scan_extensions(d, offset).len() implies scan_extensions(
                        d,
                        offset,
                    )[i] != AccountExtension::ImmutableOwner by {
                        if i > 0 {
                            assert(scan_extensions(d, offset)[i] == rest[i - 1]);
                        }
                    }
                },
                None => {},
            }
        }
    }
}

/// The extensions a new account needs repeat none as long as the mint's
/// entries call for none twice: the immutable owner that comes first is
/// never asked for again.
pub proof fn lemma_needed_extensions_distinct(d: Seq<u8>)
    requires
        !has_duplicate(scan_extensions(d, scan_start())),
    ensures
        !has_duplicate(needed_extensions(d)),
{
    let scanned = scan_extensions(d, scan_start());
    let all = needed_extensions(d);
    lemma_scan_lacks_immutable_owner(d, scan_start());
    assert forall|i: int, j: int| 0 <= i < j < all.len() implies all[i] != all[j] by {
        if i == 0 {
            assert(all[j] == scanned[j - 1]);
        } else {
            assert(all[i] == scanned[i - 1] && all[j] == scanned[j - 1]);
        }
    }
}

} // verus!
