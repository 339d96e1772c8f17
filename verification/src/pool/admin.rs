//! The authority's instructions: pause, tune the limiter, emergency withdraw.
use vstd::prelude::*;
use crate::account::{Address, AccountInput, stored_authority_is, address_at};
use crate::error::{ProgramError, custom_error};
use crate::pool::state::{PoolState, ERR_UNAUTHORIZED};
use crate::pool::swap::swap_error;
use crate::pool::liquidity::add_error;
use crate::le::{
    u64_le, le_bytes_u64, splice, read_u64_at, write_u64_at, copy_bytes,
    lemma_read_after_write_u64,
};

verus! {

pub const PAUSE_DISC: u8 = 3;

pub const UPDATE_CB_DISC: u8 = 4;

pub const EMERGENCY_DISC: u8 = 5;

/// Whether the stored authority (the first 32 bytes of `data`) is `caller`.
pub fn verify_auth(caller: &Address, data: &[u8]) -> (r: bool)
    requires
        data@.len() >= 32,
    ensures
        r == (data@.subrange(0, 32) == caller@),
{
    stored_authority_is(caller, data)
}

/// Reads the little-endian `u64` at `data[offset .. offset + 8]`, or fails
/// with `InvalidInstructionData` when `data` is too short.
pub fn read_u64(data: &[u8], offset: usize) -> (r: Result<u64, ProgramError>)
    requires
        offset + 8 <= usize::MAX,
    ensures
        data@.len() < offset + 8 ==> r == Err::<u64, ProgramError>(
            ProgramError::InvalidInstructionData,
        ),
        data@.len() >= offset + 8 ==> r == Ok::<u64, ProgramError>(
            u64_le(data@, offset as int) as u64,
        ),
{
    if data.len() < offset + 8 {
        return Err(ProgramError::InvalidInstructionData);
    }
    Ok(read_u64_at(data, offset))
}

/// The balance of a token account (u64 at 64).
pub fn read_u64_tok(data: &[u8]) -> (r: u64)
    requires
        data@.len() >= 72,
    ensures
        r == u64_le(data@, 64),
{
    read_u64_at(data, 64)
}

/// Writes `val` little-endian at `data[offset .. offset + 8]`.
pub fn write_u64(data: &mut Vec<u8>, offset: usize, val: u64)
    requires
        offset + 8 <= old(data)@.len(),
    ensures
        final(data)@ == splice(old(data)@, offset as int, le_bytes_u64(val)),
{
    write_u64_at(data, offset, val);
}

/// Whether the first account signed and is the authority stored in the
/// second account's (the pool's) data.
pub open spec fn authorized(accounts: Seq<AccountInput>) -> bool {
    accounts[0].is_signer && accounts[1].data@.subrange(0, 32) == accounts[0].key@
}

/// The first check an authority instruction over `min_accounts` accounts
/// fails, if any.
pub open spec fn admin_error(accounts: Seq<AccountInput>, min_accounts: int) -> Option<
    ProgramError,
> {
    if accounts.len() < min_accounts {
        Some(ProgramError::NotEnoughAccountKeys)
    } else if !accounts[0].is_signer {
        Some(ProgramError::MissingRequiredSignature)
    } else if !authorized(accounts) {
        Some(ProgramError::Custom(7002))
    } else {
        None
    }
}

/// The flag a pause instruction stores: byte 1 of its data, 1 when absent.
pub open spec fn pause_flag(ix: Seq<u8>) -> u8 {
    if ix.len() > 1 {
        ix[1]
    } else {
        1
    }
}

/// Decides the pause instruction and returns the pool's new data: the
/// stored authority sets the paused flag (0 unpauses). Accounts: authority
/// (signer), pool.
pub fn process_pause(accounts: &[AccountInput], ix_data: &[u8]) -> (r: Result<
    Vec<u8>,
    ProgramError,
>)
    requires
        accounts@.len() >= 2 && accounts@[0].is_signer ==> accounts@[1].data@.len() >= 32,
        accounts@.len() >= 2 && authorized(accounts@) ==> accounts@[1].data@.len() >= 205,
    ensures
        admin_error(accounts@, 2) matches Some(e) ==> r == Err::<Vec<u8>, ProgramError>(e),
        admin_error(accounts@, 2) is None ==> (r matches Ok(d) && d@ == accounts@[1].data@.update(
            204,
            pause_flag(ix_data@),
        )),
{
    if accounts.len() < 2 {
        return Err(ProgramError::NotEnoughAccountKeys);
    }
    let authority = &accounts[0];
    let pool_state = &accounts[1];
    if !authority.is_signer {
        return Err(ProgramError::MissingRequiredSignature);
    }
    if !verify_auth(&authority.key, pool_state.data.as_slice()) {
        return Err(custom_error(ERR_UNAUTHORIZED));
    }
    let mut pool_data = copy_bytes(pool_state.data.as_slice());
    let paused = if ix_data.len() > 1 {
        ix_data[1]
    } else {
        1
    };
    pool_data.set(PoolState::OFFSET_PAUSED, paused);
    Ok(pool_data)
}

/// The pool data after a limiter update: the window (u64 at 1) when the
/// instruction holds 9 bytes, the threshold (u64 at 9) when it holds 17.
pub open spec fn updated_limiter(d: Seq<u8>, ix: Seq<u8>) -> Seq<u8> {
    let d1 = if ix.len() >= 9 {
        splice(d, 205, le_bytes_u64(u64_le(ix, 1) as u64))
    } else {
        d
    };
    if ix.len() >= 17 {
        splice(d1, 213, le_bytes_u64(u64_le(ix, 9) as u64))
    } else {
        d1
    }
}

/// Decides the limiter update and returns the pool's new data. Accounts:
/// authority (signer), pool.
pub fn process_update_cb(accounts: &[AccountInput], ix_data: &[u8]) -> (r: Result<
    Vec<u8>,
    ProgramError,
>)
    requires
        accounts@.len() >= 2 && accounts@[0].is_signer ==> accounts@[1].data@.len() >= 32,
        accounts@.len() >= 2 && authorized(accounts@) ==> {
            &&& ix_data@.len() >= 9 ==> accounts@[1].data@.len() >= 213
            &&& ix_data@.len() >= 17 ==> accounts@[1].data@.len() >= 221
        },
    ensures
        admin_error(accounts@, 2) matches Some(e) ==> r == Err::<Vec<u8>, ProgramError>(e),
        admin_error(accounts@, 2) is None ==> (r matches Ok(d) && d@ == updated_limiter(
            accounts@[1].data@,
            ix_data@,
        )),
{
    if accounts.len() < 2 {
        return Err(ProgramError::NotEnoughAccountKeys);
    }
    let authority = &accounts[0];
    let pool_state = &accounts[1];
    if !authority.is_signer {
        return Err(ProgramError::MissingRequiredSignature);
    }
    if !verify_auth(&authority.key, pool_state.data.as_slice()) {
        return Err(custom_error(ERR_UNAUTHORIZED));
    }
    let mut pool_data = copy_bytes(pool_state.data.as_slice());
    if ix_data.len() >= 9 {
        let v = match read_u64(ix_data, 1) {
            Ok(v) => v,
            Err(e) => {
                return Err(e);
            },
        };
        write_u64(&mut pool_data, PoolState::OFFSET_CB_WINDOW, v);
    }
    if ix_data.len() >= 17 {
        let v = match read_u64(ix_data, 9) {
            Ok(v) => v,
            Err(e) => {
                return Err(e);
            },
        };
        write_u64(&mut pool_data, PoolState::OFFSET_CB_THRESH, v);
    }
    Ok(pool_data)
}

/// What an accepted emergency withdrawal goes on to do: move each non-zero
/// reserve balance to the authority's account for that mint, signing as the
/// pool with its seeds (the two mints and the bump).
pub struct EmergencyPlan {
    pub withdraw_a: Option<u64>,
    pub withdraw_b: Option<u64>,
    pub bump: u8,
    pub mint_a: Address,
    pub mint_b: Address,
}

/// A balance to move, or none when it is zero.
pub open spec fn nonzero(amount: u64) -> Option<u64> {
    if amount > 0 {
        Some(amount)
    } else {
        None
    }
}

/// Decides the emergency withdrawal. Accounts: authority (signer), pool,
/// reserve a, reserve b, destination a, destination b, token program.
pub fn process_emergency(accounts: &[AccountInput], _ix_data: &[u8]) -> (r: Result<
    EmergencyPlan,
    ProgramError,
>)
    requires
        accounts@.len() >= 7 && accounts@[0].is_signer ==> accounts@[1].data@.len() >= 32,
        accounts@.len() >= 7 && authorized(accounts@) ==> {
            &&& accounts@[1].data@.len() >= PoolState::LEN
            &&& accounts@[2].data@.len() >= 72
            &&& accounts@[3].data@.len() >= 72
        },
    ensures
        admin_error(accounts@, 7) matches Some(e) ==> r == Err::<EmergencyPlan, ProgramError>(e),
        admin_error(accounts@, 7) is None ==> (r matches Ok(p) && {
            &&& p.withdraw_a == nonzero(u64_le(accounts@[2].data@, 64) as u64)
            &&& p.withdraw_b == nonzero(u64_le(accounts@[3].data@, 64) as u64)
            &&& p.bump == accounts@[1].data@[237]
            &&& p.mint_a@ == accounts@[1].data@.subrange(32, 64)
            &&& p.mint_b@ == accounts@[1].data@.subrange(64, 96)
        }),
{
    if accounts.len() < 7 {
        return Err(ProgramError::NotEnoughAccountKeys);
    }
    let authority = &accounts[0];
    let pool_state = &accounts[1];
    let reserve_a = &accounts[2];
    let reserve_b = &accounts[3];
    if !authority.is_signer {
        return Err(ProgramError::MissingRequiredSignature);
    }
    let pool_data = pool_state.data.as_slice();
    if !verify_auth(&authority.key, pool_data) {
        return Err(custom_error(ERR_UNAUTHORIZED));
    }
    let amount_a = read_u64_tok(reserve_a.data.as_slice());
    let amount_b = read_u64_tok(reserve_b.data.as_slice());
    let bump = pool_data[PoolState::OFFSET_BUMP];
    let mint_a = address_at(pool_data, PoolState::OFFSET_MINT_A);
    let mint_b = address_at(pool_data, PoolState::OFFSET_MINT_B);
    let withdraw_a = if amount_a > 0 {
        Some(amount_a)
    } else {
        None
    };
    let withdraw_b = if amount_b > 0 {
        Some(amount_b)
    } else {
        None
    };
    Ok(EmergencyPlan { withdraw_a, withdraw_b, bump, mint_a, mint_b })
}

/// A limiter update that carries both fields stores them: reading the
/// window and the threshold back gives the values sent, and every other
/// byte of the pool stays as it was.
pub proof fn lemma_limiter_update_reads_back(d: Seq<u8>, ix: Seq<u8>)
    requires
        d.len() >= 221,
        ix.len() >= 17,
    ensures
        updated_limiter(d, ix).len() == d.len(),
        u64_le(updated_limiter(d, ix), 205) == u64_le(ix, 1),
        u64_le(updated_limiter(d, ix), 213) == u64_le(ix, 9),
        updated_limiter(d, ix).subrange(0, 205) == d.subrange(0, 205),
        updated_limiter(d, ix).subrange(221, d.len() as int) == d.subrange(221, d.len() as int),
{
    let w = u64_le(ix, 1) as u64;
    let t = u64_le(ix, 9) as u64;
    let d1 = splice(d, 205, le_bytes_u64(w));
    lemma_read_after_write_u64(d, 205, w);
    let d2 = splice(d1, 213, le_bytes_u64(t));
    lemma_read_after_write_u64(d1, 213, t);
    assert(d2 == updated_limiter(d, ix));
    assert(d2[205] == d1[205] && d2[206] == d1[206] && d2[207] == d1[207] && d2[208] == d1[208]
        && d2[209] == d1[209] && d2[210] == d1[210] && d2[211] == d1[211] && d2[212] == d1[212]);
    assert(d2.subrange(0, 205) =~= d.subrange(0, 205));
    assert(d2.subrange(221, d.len() as int) =~= d.subrange(221, d.len() as int));
}

/// Pausing a running pool and then unpausing it gives back the pool data
/// it had: a pause instruction changes the paused flag and nothing else.
pub proof fn lemma_pool_pause_then_unpause(d: Seq<u8>, pause_ix: Seq<u8>, unpause_ix: Seq<u8>)
    requires
        d.len() >= 205,
        d[204] == 0,
        pause_flag(unpause_ix) == 0,
    ensures
        d.update(204, pause_flag(pause_ix))[204] == pause_flag(pause_ix),
        d.update(204, pause_flag(pause_ix)).update(204, pause_flag(unpause_ix)) == d,
{
    assert(d.update(204, pause_flag(pause_ix)).update(204, pause_flag(unpause_ix)) =~= d);
}

/// A paused pool refuses swaps and deposits: once a pause instruction has
/// set the flag, every signed swap with enough accounts and every signed
/// deposit with enough accounts fails with the paused error.
pub proof fn lemma_paused_pool_refuses(
    d: Seq<u8>,
    pause_ix: Seq<u8>,
    accounts: Seq<AccountInput>,
    ix: Seq<u8>,
)
    requires
        d.len() >= 205,
        pause_flag(pause_ix) != 0,
        accounts.len() >= 7,
        accounts[0].is_signer,
        accounts[1].data@ == d.update(204, pause_flag(pause_ix)),
    ensures
        swap_error(accounts, ix) == Some(ProgramError::Custom(7000)),
        accounts.len() >= 9 ==> add_error(accounts) == Some(ProgramError::Custom(7000)),
{
}

} // verus!
