//! The make instruction: a maker opens an escrow.
use vstd::prelude::*;
use crate::account::{Address, AccountInput, address_eq};
use crate::error::{ProgramError, custom_error};
use crate::escrow::circuit_breaker::{cb_seed, find_cb_address};
use crate::escrow::state::{CircuitBreaker, Escrow, ERR_INVALID_ACCOUNT, ERR_PAUSED};
use crate::le::{
    u64_le, i64_of_bits, le_bytes_u64, le_bytes_i64, splice, read_u64_at, read_i64_at,
    write_u64_at, write_i64_at, write_bytes_at, copy_bytes,
};
use crate::pda::{found_program_address, try_find_program_address, seeds_view};

verus! {

pub const DISC: u8 = 0;

/// The seed prefix of escrow addresses: the bytes of "escrow".
pub open spec fn escrow_seed() -> Seq<u8> {
    seq![101u8, 115, 99, 114, 111, 119]
}

/// The bytes of "escrow".
pub fn escrow_seed_bytes() -> (r: Vec<u8>)
    ensures
        r@ == escrow_seed(),
{
    let r = vec![101u8, 115, 99, 114, 111, 119];
    assert(r@ =~= escrow_seed());
    r
}

/// Searches the escrow address of `maker` under `program_id`.
pub fn find_escrow_address(maker: &Address, program_id: &Address) -> (r: Option<(Address, u8)>)
    ensures
        r is None <==> found_program_address(seq![escrow_seed(), maker@], program_id@) is None,
        r matches Some(p) ==> found_program_address(seq![escrow_seed(), maker@], program_id@)
            == Some((p.0@, p.1)),
{
    let mut seeds: Vec<Vec<u8>> = Vec::new();
    seeds.push(escrow_seed_bytes());
    seeds.push(copy_bytes(maker.as_slice()));
    assert(seeds_view(seeds@) =~= seq![escrow_seed(), maker@]);
    try_find_program_address(&seeds, program_id)
}

/// Reads the little-endian `u64` at `data[offset .. offset + 8]`, or fails
/// with `InvalidInstructionData` when `data` is too short.
pub fn read_u64(data: &[u8], offset: usize) -> (r: Result<u64, ProgramError>)
    requires
        offset + 8 <= usize::MAX,
    ensures
        data@.len() < offset + 8 ==> r == Err::<u64, ProgramError>(
            ProgramError::InvalidInstructionData,
        ),
        data@.len() >= offset + 8 ==> r == Ok::<u64, ProgramError>(
            u64_le(data@, offset as int) as u64,
        ),
{
    let end = offset + 8;
    if data.len() < end {
        return Err(ProgramError::InvalidInstructionData);
    }
    Ok(read_u64_at(data, offset))
}

/// Reads the little-endian `i64` at `data[offset .. offset + 8]`, if `data`
/// is long enough.
pub fn read_i64(data: &[u8], offset: usize) -> (r: Option<i64>)
    requires
        offset + 8 <= usize::MAX,
    ensures
        data@.len() < offset + 8 ==> r is None,
        data@.len() >= offset + 8 ==> r == Some(i64_of_bits(u64_le(data@, offset as int)) as i64),
{
    let end = offset + 8;
    if data.len() < end {
        return None;
    }
    Some(read_i64_at(data, offset))
}

/// Writes `val` little-endian at `data[offset .. offset + 8]`.
pub fn write_u64(data: &mut Vec<u8>, offset: usize, val: u64)
    requires
        offset + 8 <= old(data)@.len(),
    ensures
        final(data)@ == splice(old(data)@, offset as int, le_bytes_u64(val)),
{
    write_u64_at(data, offset, val);
}

/// Writes `val` little-endian at `data[offset .. offset + 8]`.
pub fn write_i64(data: &mut Vec<u8>, offset: usize, val: i64)
    requires
        offset + 8 <= old(data)@.len(),
    ensures
        final(data)@ == splice(old(data)@, offset as int, le_bytes_i64(val)),
{
    write_i64_at(data, offset, val);
}

/// What an accepted make goes on to do: create the escrow account (`space`
/// bytes, `lamports` lamports, owned by the program), store the offer in it
/// and move `amount` from the maker's account to the vault.
#[derive(PartialEq, Eq, Structural)]
pub struct MakePlan {
    pub amount: u64,
    pub expiry: i64,
    pub bump: u8,
    pub lamports: u64,
    pub space: u64,
}

/// The expiry a make asks for (i64 at 9; never, `i64::MAX`, when absent).
pub open spec fn make_expiry(ix: Seq<u8>) -> i64 {
    if ix.len() >= 17 {
        i64_of_bits(u64_le(ix, 9)) as i64
    } else {
        i64::MAX
    }
}

/// Whether the searches for the escrow's and the breaker's addresses,
/// which a signed make with an amount makes (the second once the escrow
/// matched), find one each (where one finds none the program aborts).
pub open spec fn make_finds_addresses(
    program_id: Address,
    accounts: Seq<AccountInput>,
    ix: Seq<u8>,
) -> bool {
    accounts.len() >= 9 && accounts[0].is_signer && ix.len() >= 9 ==> {
        let maker = accounts[0].key@;
        &&& found_program_address(seq![escrow_seed(), maker], program_id@) is Some
        &&& accounts[5].key@ == (found_program_address(seq![escrow_seed(), maker], program_id@)->0).0
            ==> found_program_address(seq![cb_seed(), maker], program_id@) is Some
    }
}

/// The outcome of a make. Accounts: maker (signer), mint a, mint b, maker's
/// account for mint a, vault, escrow, breaker, system program, token program.
/// Instruction data: amount (u64 at 1, required), expiry (i64 at 9).
pub open spec fn make_result(program_id: Address, accounts: Seq<AccountInput>, ix: Seq<u8>) -> Result<
    MakePlan,
    ProgramError,
> {
    if accounts.len() < 9 {
        Err(ProgramError::NotEnoughAccountKeys)
    } else if !accounts[0].is_signer {
        Err(ProgramError::MissingRequiredSignature)
    } else if ix.len() < 9 {
        Err(ProgramError::InvalidInstructionData)
    } else {
        let maker = accounts[0].key@;
        let escrow_found = found_program_address(seq![escrow_seed(), maker], program_id@)->0;
        let cb_found = found_program_address(seq![cb_seed(), maker], program_id@)->0;
        if accounts[5].key@ != escrow_found.0 {
            Err(ProgramError::Custom(6003))
        } else if accounts[6].key@ != cb_found.0 {
            Err(ProgramError::Custom(6003))
        } else if accounts[6].data@.len() >= CircuitBreaker::LEN && accounts[6].data@[32] != 0 {
            Err(ProgramError::Custom(6001))
        } else {
            Ok(
                MakePlan {
                    amount: u64_le(ix, 1) as u64,
                    expiry: make_expiry(ix),
                    bump: escrow_found.1,
                    lamports: 1_000_000,
                    space: 113,
                },
            )
        }
    }
}

/// Decides the make instruction: the escrow and the breaker must sit at the
/// addresses derived from the maker, and a breaker account that holds a
/// whole breaker must not be paused.
pub fn process(program_id: &Address, accounts: &[AccountInput], ix_data: &[u8]) -> (r: Result<
    MakePlan,
    ProgramError,
>)
    requires
        make_finds_addresses(*program_id, accounts@, ix_data@),
    ensures
        r == make_result(*program_id, accounts@, ix_data@),
{
    if accounts.len() < 9 {
        return Err(ProgramError::NotEnoughAccountKeys);
    }
    let maker = &accounts[0];
    let escrow = &accounts[5];
    let cb_pda = &accounts[6];
    if !maker.is_signer {
        return Err(ProgramError::MissingRequiredSignature);
    }
    let amount = match read_u64(ix_data, 1) {
        Ok(v) => v,
        Err(e) => {
            return Err(e);
        },
    };
    let expiry = match read_i64(ix_data, 9) {
        Some(v) => v,
        None => i64::MAX,
    };
    let (escrow_key, bump) = find_escrow_address(&maker.key, program_id).unwrap();
    if !address_eq(&escrow.key, &escrow_key) {
        return Err(custom_error(ERR_INVALID_ACCOUNT));
    }
    let (cb_key, _cb_bump) = find_cb_address(&maker.key, program_id).unwrap();
    if !address_eq(&cb_pda.key, &cb_key) {
        return Err(custom_error(ERR_INVALID_ACCOUNT));
    }
    if cb_pda.data.len() >= CircuitBreaker::LEN {
        if cb_pda.data[CircuitBreaker::OFFSET_PAUSED] != 0 {
            return Err(custom_error(ERR_PAUSED));
        }
    }
    Ok(MakePlan { amount, expiry, bump, lamports: 1_000_000, space: 113 })
}

/// Decides the make instruction like `process`, on every input: `None`
/// where a search for the escrow's or the breaker's address finds none
/// (where the program aborts).
pub fn try_process(program_id: &Address, accounts: &[AccountInput], ix_data: &[u8]) -> (r: Option<
    Result<MakePlan, ProgramError>,
>)
    ensures
        r is None <==> !make_finds_addresses(*program_id, accounts@, ix_data@),
        r matches Some(x) ==> x == make_result(*program_id, accounts@, ix_data@),
{
    if accounts.len() >= 9 && accounts[0].is_signer && ix_data.len() >= 9 {
        let maker = &accounts[0].key;
        match find_escrow_address(maker, program_id) {
            None => {
                return None;
            },
            Some((escrow_key, _)) => {
                if address_eq(&accounts[5].key, &escrow_key) && find_cb_address(
                    maker,
                    program_id,
                ).is_none() {
                    return None;
                }
            },
        }
    }
    Some(process(program_id, accounts, ix_data))
}

/// The escrow a make stores.
pub open spec fn made_escrow(maker: Address, mint_a: Address, mint_b: Address, plan: MakePlan) -> Escrow {
    Escrow { maker, mint_a, mint_b, amount: plan.amount, expiry: plan.expiry, bump: plan.bump }
}

/// Stores the offer into the escrow account created for it: every one of
/// the 113 bytes is written.
pub fn write_escrow(
    data: &mut Vec<u8>,
    maker: &Address,
    mint_a: &Address,
    mint_b: &Address,
    plan: &MakePlan,
)
    requires
        old(data)@.len() >= Escrow::LEN,
    ensures
        final(data)@ == splice(old(data)@, 0, made_escrow(*maker, *mint_a, *mint_b, *plan).layout()),
{
    let ghost d0 = data@;
    write_bytes_at(data, Escrow::OFFSET_MAKER, maker.as_slice());
    write_bytes_at(data, Escrow::OFFSET_MINT_A, mint_a.as_slice());
    write_bytes_at(data, Escrow::OFFSET_MINT_B, mint_b.as_slice());
    write_u64(data, Escrow::OFFSET_AMOUNT, plan.amount);
    write_i64(data, Escrow::OFFSET_EXPIRY, plan.expiry);
    data.set(Escrow::OFFSET_BUMP, plan.bump);
    assert(data@ =~= splice(d0, 0, made_escrow(*maker, *mint_a, *mint_b, *plan).layout()));
}

/// A make keeps the maker's terms: the planned amount is the u64 at offset
/// 1 of the data, and when the data holds an expiry (17 bytes or more) the
/// planned expiry is the i64 at offset 9, whose encoding is exactly the
/// eight bytes sent; only shorter data leaves the escrow without expiry
/// (`i64::MAX`).
pub proof fn lemma_make_keeps_terms(program_id: Address, accounts: Seq<AccountInput>, ix: Seq<u8>)
    ensures
        make_result(program_id, accounts, ix) matches Ok(plan) ==> plan.amount == u64_le(ix, 1),
        make_result(program_id, accounts, ix) matches Ok(plan) ==> (ix.len() >= 17 ==> plan.expiry
            == i64_of_bits(u64_le(ix, 9))),
        make_result(program_id, accounts, ix) matches Ok(plan) ==> (ix.len() >= 17
            ==> le_bytes_i64(plan.expiry) == ix.subrange(9, 17)),
        make_result(program_id, accounts, ix) matches Ok(plan) ==> (ix.len() < 17 ==> plan.expiry
            == i64::MAX),
{
    if ix.len() >= 17 {
        let b = ix.subrange(9, 17);
        crate::le::lemma_u64_decode_encode(b);
        assert(u64_le(b, 0) == u64_le(ix, 9));
        let u = u64_le(ix, 9);
        assert(crate::le::bits_of_i64(i64_of_bits(u)) == u);
    }
}

} // verus!
