//! Instructions that create, tune and pause the circuit breaker.
use vstd::prelude::*;
use crate::account::{Address, AccountInput, address_eq, stored_authority_is};
use crate::error::{ProgramError, custom_error};
use crate::escrow::state::{
    CircuitBreaker, CircuitBreakerConfig, WindowState, ERR_INVALID_ACCOUNT, ERR_UNAUTHORIZED,
};
use crate::le::{
    u64_le, le_bytes_u64, le_bytes_i64, splice, read_u64_at, write_u64_at, write_i64_at,
    write_bytes_at, copy_bytes, lemma_read_after_write_u64,
};
use crate::pda::{found_program_address, try_find_program_address, seeds_view};
use crate::escrow::make::{escrow_seed, make_result};
use crate::escrow::take::take_error;
use crate::le::i64_of_bits;

verus! {

pub const INIT_DISC: u8 = 3;

pub const UPDATE_DISC: u8 = 4;

pub const PAUSE_DISC: u8 = 5;

/// The seed prefix of circuit-breaker addresses: the bytes of "circuit-breaker".
pub open spec fn cb_seed() -> Seq<u8> {
    seq![99u8, 105, 114, 99, 117, 105, 116, 45, 98, 114, 101, 97, 107, 101, 114]
}

/// The bytes of "circuit-breaker".
pub fn cb_seed_bytes() -> (r: Vec<u8>)
    ensures
        r@ == cb_seed(),
{
    let r = vec![99u8, 105, 114, 99, 117, 105, 116, 45, 98, 114, 101, 97, 107, 101, 114];
    assert(r@ =~= cb_seed());
    r
}

/// Searches the circuit-breaker address of `authority` under `program_id`.
pub fn find_cb_address(authority: &Address, program_id: &Address) -> (r: Option<(Address, u8)>)
    ensures
        r is None <==> found_program_address(seq![cb_seed(), authority@], program_id@) is None,
        r matches Some(p) ==> found_program_address(seq![cb_seed(), authority@], program_id@)
            == Some((p.0@, p.1)),
{
    let mut seeds: Vec<Vec<u8>> = Vec::new();
    seeds.push(cb_seed_bytes());
    seeds.push(copy_bytes(authority.as_slice()));
    assert(seeds_view(seeds@) =~= seq![cb_seed(), authority@]);
    try_find_program_address(&seeds, program_id)
}

/// Whether the stored authority (the first 32 bytes of `data`) is `caller`.
pub fn verify_auth(caller: &Address, data: &[u8]) -> (r: bool)
    requires
        data@.len() >= 32,
    ensures
        r == (data@.subrange(0, 32) == caller@),
{
    stored_authority_is(caller, data)
}

/// Reads the little-endian `u64` at `data[offset .. offset + 8]`, or fails
/// with `InvalidInstructionData` when `data` is too short.
pub fn read_u64_cb(data: &[u8], offset: usize) -> (r: Result<u64, ProgramError>)
    requires
        offset + 8 <= usize::MAX,
    ensures
        data@.len() < offset + 8 ==> r == Err::<u64, ProgramError>(
            ProgramError::InvalidInstructionData,
        ),
        data@.len() >= offset + 8 ==> r == Ok::<u64, ProgramError>(
            u64_le(data@, offset as int) as u64,
        ),
{
    if data.len() < offset + 8 {
        return Err(ProgramError::InvalidInstructionData);
    }
    Ok(read_u64_at(data, offset))
}

/// Writes `val` little-endian at `data[offset .. offset + 8]`.
pub fn write_u64_cb(data: &mut Vec<u8>, offset: usize, val: u64)
    requires
        offset + 8 <= old(data)@.len(),
    ensures
        final(data)@ == splice(old(data)@, offset as int, le_bytes_u64(val)),
{
    write_u64_at(data, offset, val);
}

/// Writes `val` little-endian at `data[offset .. offset + 8]`.
pub fn write_i64_cb(data: &mut Vec<u8>, offset: usize, val: i64)
    requires
        offset + 8 <= old(data)@.len(),
    ensures
        final(data)@ == splice(old(data)@, offset as int, le_bytes_i64(val)),
{
    write_i64_at(data, offset, val);
}

/// The window length an init instruction asks for (60 seconds when absent).
pub open spec fn init_window_sec(ix: Seq<u8>) -> u64 {
    if ix.len() >= 9 {
        u64_le(ix, 1) as u64
    } else {
        60
    }
}

/// The threshold type an init instruction asks for (1, absolute, when absent).
pub open spec fn init_threshold_type(ix: Seq<u8>) -> u8 {
    if ix.len() > 9 {
        ix[9]
    } else {
        1
    }
}

/// The threshold an init instruction asks for (1 000 000 when absent).
pub open spec fn init_threshold(ix: Seq<u8>) -> u64 {
    if ix.len() >= 18 {
        u64_le(ix, 10) as u64
    } else {
        1_000_000
    }
}

/// What an accepted init instruction goes on to do: create the breaker
/// account (`space` bytes, `lamports` lamports, owned by the program) and
/// store these settings in it.
#[derive(PartialEq, Eq, Structural)]
pub struct CbInitPlan {
    pub window_sec: u64,
    pub threshold_type: u8,
    pub threshold: u64,
    pub bump: u8,
    pub lamports: u64,
    pub space: u64,
}

/// The breaker that an init stores: unpaused, empty window.
pub open spec fn initial_breaker(authority: Address, plan: CbInitPlan) -> CircuitBreaker {
    CircuitBreaker {
        authority,
        paused: 0,
        config: CircuitBreakerConfig {
            window_seconds: plan.window_sec,
            threshold_type: plan.threshold_type,
            threshold: plan.threshold,
        },
        window: WindowState { last_value: 0, last_timestamp: 0 },
        bump: plan.bump,
    }
}

/// Whether the search for the breaker's address, which an init by a signer
/// makes, finds one (where it finds none the program aborts).
pub open spec fn init_finds_breaker(program_id: Address, accounts: Seq<AccountInput>) -> bool {
    accounts.len() >= 3 && accounts[0].is_signer ==> found_program_address(
        seq![cb_seed(), accounts[0].key@],
        program_id@,
    ) is Some
}

/// The outcome of an init instruction. Accounts: authority (signer), the
/// breaker's address, the system program. Instruction data: window (u64 at
/// 1), threshold type (byte 9), threshold (u64 at 10), each with a default.
/// The breaker must sit at the address derived from "circuit-breaker" and
/// the authority.
pub open spec fn breaker_init_result(
    program_id: Address,
    accounts: Seq<AccountInput>,
    ix: Seq<u8>,
) -> Result<CbInitPlan, ProgramError> {
    if accounts.len() < 3 {
        Err(ProgramError::NotEnoughAccountKeys)
    } else if !accounts[0].is_signer {
        Err(ProgramError::MissingRequiredSignature)
    } else {
        let found = found_program_address(seq![cb_seed(), accounts[0].key@], program_id@)->0;
        if accounts[1].key@ != found.0 {
            Err(ProgramError::Custom(6003))
        } else {
            Ok(
                CbInitPlan {
                    window_sec: init_window_sec(ix),
                    threshold_type: init_threshold_type(ix),
                    threshold: init_threshold(ix),
                    bump: found.1,
                    lamports: 1_000_000,
                    space: 67,
                },
            )
        }
    }
}

/// Decides the init instruction (see `breaker_init_result`).
pub fn process_init(program_id: &Address, accounts: &[AccountInput], ix_data: &[u8]) -> (r: Result<
    CbInitPlan,
    ProgramError,
>)
    requires
        init_finds_breaker(*program_id, accounts@),
    ensures
        r == breaker_init_result(*program_id, accounts@, ix_data@),
{
    if accounts.len() < 3 {
        return Err(ProgramError::NotEnoughAccountKeys);
    }
    let authority = &accounts[0];
    let cb_pda = &accounts[1];
    if !authority.is_signer {
        return Err(ProgramError::MissingRequiredSignature);
    }
    let window_sec = match read_u64_cb(ix_data, 1) {
        Ok(v) => v,
        Err(_) => 60,
    };
    let threshold_type = if ix_data.len() > 9 {
        ix_data[9]
    } else {
        1
    };
    let threshold = match read_u64_cb(ix_data, 10) {
        Ok(v) => v,
        Err(_) => 1_000_000,
    };
    let (cb_key, bump) = find_cb_address(&authority.key, program_id).unwrap();
    if !address_eq(&cb_pda.key, &cb_key) {
        return Err(custom_error(ERR_INVALID_ACCOUNT));
    }
    Ok(CbInitPlan { window_sec, threshold_type, threshold, bump, lamports: 1_000_000, space: 67 })
}

/// Decides the init instruction like `process_init`, on every input: `None`
/// where the search for the breaker's address finds none (where the
/// program aborts).
pub fn try_process_init(program_id: &Address, accounts: &[AccountInput], ix_data: &[u8]) -> (r:
    Option<Result<CbInitPlan, ProgramError>>)
    ensures
        r is None <==> !init_finds_breaker(*program_id, accounts@),
        r matches Some(x) ==> x == breaker_init_result(*program_id, accounts@, ix_data@),
{
    if accounts.len() >= 3 && accounts[0].is_signer {
        if find_cb_address(&accounts[0].key, program_id).is_none() {
            return None;
        }
    }
    Some(process_init(program_id, accounts, ix_data))
}

/// Stores a freshly initialized breaker into the account data created for
/// it: every one of the 67 bytes is written.
pub fn write_initial_breaker(data: &mut Vec<u8>, authority: &Address, plan: &CbInitPlan)
    requires
        old(data)@.len() >= CircuitBreaker::LEN,
    ensures
        final(data)@ == splice(old(data)@, 0, initial_breaker(*authority, *plan).layout()),
{
    let ghost d0 = data@;
    write_bytes_at(data, CircuitBreaker::OFFSET_AUTHORITY, authority.as_slice());
    data.set(CircuitBreaker::OFFSET_PAUSED, 0);
    write_u64_cb(data, CircuitBreaker::OFFSET_WINDOW_SEC, plan.window_sec);
    data.set(CircuitBreaker::OFFSET_THRESHOLD_TYPE, plan.threshold_type);
    write_u64_cb(data, CircuitBreaker::OFFSET_THRESHOLD, plan.threshold);
    write_u64_cb(data, CircuitBreaker::OFFSET_LAST_VALUE, 0);
    write_i64_cb(data, CircuitBreaker::OFFSET_LAST_TS, 0);
    data.set(CircuitBreaker::OFFSET_BUMP, plan.bump);
    assert(data@ =~= splice(d0, 0, initial_breaker(*authority, *plan).layout()));
}

/// Whether the first account signed and is the authority stored in the
/// second account's data.
pub open spec fn authorized(accounts: Seq<AccountInput>) -> bool {
    accounts[0].is_signer && accounts[1].data@.subrange(0, 32) == accounts[0].key@
}

/// The breaker data after an update instruction: the window (u64 at 1)
/// when the data holds 9 bytes, the threshold type (byte 9) when it holds
/// 10, the threshold (u64 at 10) when it holds all 18 bytes of it.
pub open spec fn updated_breaker(d: Seq<u8>, ix: Seq<u8>) -> Seq<u8> {
    let d1 = if ix.len() >= 9 {
        splice(d, 33, le_bytes_u64(u64_le(ix, 1) as u64))
    } else {
        d
    };
    let d2 = if ix.len() >= 10 {
        d1.update(41, ix[9])
    } else {
        d1
    };
    if ix.len() >= 18 {
        splice(d2, 42, le_bytes_u64(u64_le(ix, 10) as u64))
    } else {
        d2
    }
}

/// Decides the update instruction and returns the breaker's new data.
/// Accounts: authority (signer), breaker. Only the stored authority may
/// update; the fields present in the instruction data are overwritten.
pub fn process_update(accounts: &[AccountInput], ix_data: &[u8]) -> (r: Result<
    Vec<u8>,
    ProgramError,
>)
    requires
        accounts@.len() >= 2 && accounts@[0].is_signer ==> accounts@[1].data@.len() >= 32,
        accounts@.len() >= 2 && authorized(accounts@) ==> {
            &&& ix_data@.len() >= 9 ==> accounts@[1].data@.len() >= 41
            &&& ix_data@.len() >= 10 ==> accounts@[1].data@.len() >= 42
            &&& ix_data@.len() >= 18 ==> accounts@[1].data@.len() >= 50
        },
    ensures
        accounts@.len() < 2 ==> r == Err::<Vec<u8>, ProgramError>(
            ProgramError::NotEnoughAccountKeys,
        ),
        accounts@.len() >= 2 && !accounts@[0].is_signer ==> r == Err::<Vec<u8>, ProgramError>(
            ProgramError::MissingRequiredSignature,
        ),
        accounts@.len() >= 2 && accounts@[0].is_signer && !authorized(accounts@) ==> r == Err::<
            Vec<u8>,
            ProgramError,
        >(ProgramError::Custom(6000)),
        accounts@.len() >= 2 && authorized(accounts@) ==> (r matches Ok(d) && d@ == updated_breaker(
            accounts@[1].data@,
            ix_data@,
        )),
{
    if accounts.len() < 2 {
        return Err(ProgramError::NotEnoughAccountKeys);
    }
    let authority = &accounts[0];
    let cb_pda = &accounts[1];
    if !authority.is_signer {
        return Err(ProgramError::MissingRequiredSignature);
    }
    if !verify_auth(&authority.key, cb_pda.data.as_slice()) {
        return Err(custom_error(ERR_UNAUTHORIZED));
    }
    let mut cb_data = copy_bytes(cb_pda.data.as_slice());
    let ghost d0 = cb_data@;
    if ix_data.len() >= 9 {
        let v = match read_u64_cb(ix_data, 1) {
            Ok(v) => v,
            Err(e) => {
                return Err(e);
            },
        };
        write_u64_cb(&mut cb_data, CircuitBreaker::OFFSET_WINDOW_SEC, v);
    }
    let ghost d1 = cb_data@;
    if ix_data.len() >= 10 {
        cb_data.set(CircuitBreaker::OFFSET_THRESHOLD_TYPE, ix_data[9]);
    }
    if ix_data.len() >= 18 {
        let v = match read_u64_cb(ix_data, 10) {
            Ok(v) => v,
            Err(e) => {
                return Err(e);
            },
        };
        write_u64_cb(&mut cb_data, CircuitBreaker::OFFSET_THRESHOLD, v);
    }
    Ok(cb_data)
}

/// The flag a pause instruction stores: byte 1 of its data, 1 when absent.
pub open spec fn pause_flag(ix: Seq<u8>) -> u8 {
    if ix.len() > 1 {
        ix[1]
    } else {
        1
    }
}

/// Decides the pause instruction and returns the breaker's new data: the
/// stored authority sets the paused flag (0 unpauses).
pub fn process_pause(accounts: &[AccountInput], ix_data: &[u8]) -> (r: Result<
    Vec<u8>,
    ProgramError,
>)
    requires
        accounts@.len() >= 2 && accounts@[0].is_signer ==> accounts@[1].data@.len() >= 32,
        accounts@.len() >= 2 && authorized(accounts@) ==> accounts@[1].data@.len() >= 33,
    ensures
        accounts@.len() < 2 ==> r == Err::<Vec<u8>, ProgramError>(
            ProgramError::NotEnoughAccountKeys,
        ),
        accounts@.len() >= 2 && !accounts@[0].is_signer ==> r == Err::<Vec<u8>, ProgramError>(
            ProgramError::MissingRequiredSignature,
        ),
        accounts@.len() >= 2 && accounts@[0].is_signer && !authorized(accounts@) ==> r == Err::<
            Vec<u8>,
            ProgramError,
        >(ProgramError::Custom(6000)),
        accounts@.len() >= 2 && authorized(accounts@) ==> (r matches Ok(d) && d@
            == accounts@[1].data@.update(32, pause_flag(ix_data@))),
{
    if accounts.len() < 2 {
        return Err(ProgramError::NotEnoughAccountKeys);
    }
    let authority = &accounts[0];
    let cb_pda = &accounts[1];
    if !authority.is_signer {
        return Err(ProgramError::MissingRequiredSignature);
    }
    if !verify_auth(&authority.key, cb_pda.data.as_slice()) {
        return Err(custom_error(ERR_UNAUTHORIZED));
    }
    let mut cb_data = copy_bytes(cb_pda.data.as_slice());
    let paused = if ix_data.len() > 1 {
        ix_data[1]
    } else {
        1
    };
    cb_data.set(CircuitBreaker::OFFSET_PAUSED, paused);
    Ok(cb_data)
}

/// An update that carries all its fields stores them: reading the window,
/// the threshold type and the threshold back gives the values sent, and the
/// authority, the paused flag, the window's memory and the bump stay as
/// they were.
pub proof fn lemma_update_reads_back(d: Seq<u8>, ix: Seq<u8>)
    requires
        d.len() >= 50,
        ix.len() >= 18,
    ensures
        updated_breaker(d, ix).len() == d.len(),
        u64_le(updated_breaker(d, ix), 33) == u64_le(ix, 1),
        updated_breaker(d, ix)[41] == ix[9],
        u64_le(updated_breaker(d, ix), 42) == u64_le(ix, 10),
        updated_breaker(d, ix).subrange(0, 33) == d.subrange(0, 33),
        updated_breaker(d, ix).subrange(50, d.len() as int) == d.subrange(50, d.len() as int),
{
    let w = u64_le(ix, 1) as u64;
    let t = u64_le(ix, 10) as u64;
    let d1 = splice(d, 33, le_bytes_u64(w));
    lemma_read_after_write_u64(d, 33, w);
    let d2 = d1.update(41, ix[9]);
    let d3 = splice(d2, 42, le_bytes_u64(t));
    lemma_read_after_write_u64(d2, 42, t);
    assert(d3 == updated_breaker(d, ix));
    assert(d3[33] == d2[33] && d3[34] == d2[34] && d3[35] == d2[35] && d3[36] == d2[36]
        && d3[37] == d2[37] && d3[38] == d2[38] && d3[39] == d2[39] && d3[40] == d2[40]);
    assert(d2[33] == d1[33] && d2[34] == d1[34] && d2[35] == d1[35] && d2[36] == d1[36]
        && d2[37] == d1[37] && d2[38] == d1[38] && d2[39] == d1[39] && d2[40] == d1[40]);
    assert(d3.subrange(0, 33) =~= d.subrange(0, 33));
    assert(d3.subrange(50, d.len() as int) =~= d.subrange(50, d.len() as int));
}

/// Pausing a running breaker and then unpausing it gives back the data it
/// had: a pause instruction changes the paused flag and nothing else.
pub proof fn lemma_pause_then_unpause(d: Seq<u8>, pause_ix: Seq<u8>, unpause_ix: Seq<u8>)
    requires
        d.len() >= 33,
        d[32] == 0,
        pause_flag(unpause_ix) == 0,
    ensures
        d.update(32, pause_flag(pause_ix))[32] == pause_flag(pause_ix),
        d.update(32, pause_flag(pause_ix)).update(32, pause_flag(unpause_ix)) == d,
{
    assert(d.update(32, pause_flag(pause_ix)).update(32, pause_flag(unpause_ix)) =~= d);
}

/// A paused breaker blocks its owner's escrows: once a pause instruction
/// has set the flag of a whole breaker, a make that reaches the breaker
/// check (signed, with an amount, at the derived escrow and breaker
/// addresses) and a take that reaches it (signed, naming the escrow's maker
/// and mints, not expired) both fail with the paused error.
pub proof fn lemma_paused_breaker_blocks(
    program_id: Address,
    d: Seq<u8>,
    pause_ix: Seq<u8>,
    make_accounts: Seq<AccountInput>,
    make_ix: Seq<u8>,
    take_accounts: Seq<AccountInput>,
)
    requires
        d.len() >= CircuitBreaker::LEN,
        pause_flag(pause_ix) != 0,
    ensures
        ({
            let maker = make_accounts[0].key@;
            &&& make_accounts.len() >= 9
            &&& make_accounts[0].is_signer
            &&& make_ix.len() >= 9
            &&& make_accounts[5].key@ == (found_program_address(
                seq![escrow_seed(), maker],
                program_id@,
            )->0).0
            &&& make_accounts[6].key@ == (found_program_address(seq![cb_seed(), maker], program_id@)->0).0
            &&& make_accounts[6].data@ == d.update(32, pause_flag(pause_ix))
        }) ==> make_result(program_id, make_accounts, make_ix) == Err::<
            crate::escrow::make::MakePlan,
            ProgramError,
        >(ProgramError::Custom(6001)),
        ({
            let e = take_accounts[8].data@;
            &&& take_accounts.len() >= 11
            &&& take_accounts[0].is_signer
            &&& e.subrange(0, 32) == take_accounts[1].key@
            &&& take_accounts[2].key@ == e.subrange(32, 64)
            &&& take_accounts[3].key@ == e.subrange(64, 96)
            &&& i64_of_bits(u64_le(e, 104)) >= 0
            &&& take_accounts[9].data@ == d.update(32, pause_flag(pause_ix))
        }) ==> take_error(take_accounts) == Some(ProgramError::Custom(6001)),
{
}

/// An update stores each field its data carries, and only those: the
/// window (u64 at 33) from 9 bytes of data on, the threshold type (byte 41)
/// from 10, the threshold (u64 at 42) from 18; a field the data does not
/// carry keeps its bytes, and so do the authority, the paused flag, the
/// window's memory and the bump.
pub proof fn lemma_update_stores_present_fields(d: Seq<u8>, ix: Seq<u8>)
    requires
        d.len() >= 50,
    ensures
        updated_breaker(d, ix).len() == d.len(),
        ix.len() >= 9 ==> u64_le(updated_breaker(d, ix), 33) == u64_le(ix, 1),
        ix.len() < 9 ==> updated_breaker(d, ix).subrange(33, 41) == d.subrange(33, 41),
        ix.len() >= 10 ==> updated_breaker(d, ix)[41] == ix[9],
        ix.len() < 10 ==> updated_breaker(d, ix)[41] == d[41],
        ix.len() >= 18 ==> u64_le(updated_breaker(d, ix), 42) == u64_le(ix, 10),
        ix.len() < 18 ==> updated_breaker(d, ix).subrange(42, 50) == d.subrange(42, 50),
        updated_breaker(d, ix).subrange(0, 33) == d.subrange(0, 33),
        updated_breaker(d, ix).subrange(50, d.len() as int) == d.subrange(50, d.len() as int),
{
    let d1 = if ix.len() >= 9 {
        splice(d, 33, le_bytes_u64(u64_le(ix, 1) as u64))
    } else {
        d
    };
    if ix.len() >= 9 {
        lemma_read_after_write_u64(d, 33, u64_le(ix, 1) as u64);
    }
    let d2 = if ix.len() >= 10 {
        d1.update(41, ix[9])
    } else {
        d1
    };
    let d3 = if ix.len() >= 18 {
        splice(d2, 42, le_bytes_u64(u64_le(ix, 10) as u64))
    } else {
        d2
    };
    if ix.len() >= 18 {
        lemma_read_after_write_u64(d2, 42, u64_le(ix, 10) as u64);
    }
    assert(d3 == updated_breaker(d, ix));
    assert(d3[33] == d1[33] && d3[34] == d1[34] && d3[35] == d1[35] && d3[36] == d1[36]
        && d3[37] == d1[37] && d3[38] == d1[38] && d3[39] == d1[39] && d3[40] == d1[40]);
    assert(d3.subrange(0, 33) =~= d.subrange(0, 33));
    assert(d3.subrange(50, d.len() as int) =~= d.subrange(50, d.len() as int));
    if ix.len() < 9 {
        assert(d3.subrange(33, 41) =~= d.subrange(33, 41));
    }
    if ix.len() < 18 {
        assert(d3.subrange(42, 50) =~= d.subrange(42, 50));
    }
}

} // verus!
