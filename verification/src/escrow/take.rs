//! The take instruction and the breaker's window check.
use vstd::prelude::*;
use crate::account::{AccountInput, address_eq, address_at};
use crate::error::{ProgramError, custom_error};
use crate::escrow::state::{
    CircuitBreaker, Escrow, ERR_CB_TRIGGERED, ERR_EXPIRED, ERR_INVALID_ACCOUNT, ERR_PAUSED,
    lemma_escrow_reads_back,
};
use crate::le::{
    u64_le, i64_of_bits, le_bytes_u64, le_bytes_i64, splice, read_u64_at, read_i64_at,
    write_u64_at, write_i64_at, copy_bytes, lemma_read_after_write_u64,
};
use crate::window::{window_aggregate, decay, aggregate, decayed_value, sat_sub_i64};

verus! {

pub const DISC: u8 = 1;

/// The amount stored in an escrow account (u64 at 96).
pub fn read_u64_escrow(data: &[u8]) -> (r: u64)
    requires
        data@.len() >= Escrow::OFFSET_AMOUNT + 8,
    ensures
        r == u64_le(data@, Escrow::OFFSET_AMOUNT as int),
{
    read_u64_at(data, Escrow::OFFSET_AMOUNT)
}

/// The expiry stored in an escrow account (i64 at 104).
pub fn read_i64_escrow(data: &[u8]) -> (r: i64)
    requires
        data@.len() >= Escrow::OFFSET_EXPIRY + 8,
    ensures
        r == i64_of_bits(u64_le(data@, Escrow::OFFSET_EXPIRY as int)),
{
    read_i64_at(data, Escrow::OFFSET_EXPIRY)
}

/// Reads the little-endian `u64` at `data[offset .. offset + 8]`.
pub fn read_u64_data(data: &[u8], offset: usize) -> (r: u64)
    requires
        offset + 8 <= data@.len(),
    ensures
        r == u64_le(data@, offset as int),
{
    read_u64_at(data, offset)
}

/// Reads the little-endian `i64` at `data[offset .. offset + 8]`.
pub fn read_i64_data(data: &[u8], offset: usize) -> (r: i64)
    requires
        offset + 8 <= data@.len(),
    ensures
        r == i64_of_bits(u64_le(data@, offset as int)),
{
    read_i64_at(data, offset)
}

/// Writes `val` little-endian at `data[offset .. offset + 8]`.
pub fn write_u64_data(data: &mut Vec<u8>, offset: usize, val: u64)
    requires
        offset + 8 <= old(data)@.len(),
    ensures
        final(data)@ == splice(old(data)@, offset as int, le_bytes_u64(val)),
{
    write_u64_at(data, offset, val);
}

/// Writes `val` little-endian at `data[offset .. offset + 8]`.
pub fn write_i64_data(data: &mut Vec<u8>, offset: usize, val: i64)
    requires
        offset + 8 <= old(data)@.len(),
    ensures
        final(data)@ == splice(old(data)@, offset as int, le_bytes_i64(val)),
{
    write_i64_at(data, offset, val);
}

/// The limit of the breaker: with threshold type 0 the share
/// `threshold / u64::MAX` of the balance, otherwise `threshold` itself.
pub open spec fn window_limit(threshold_type: u8, threshold: u64, balance: u64) -> int {
    if threshold_type == 0 {
        (balance * threshold) / (u64::MAX as int)
    } else {
        threshold as int
    }
}

/// The aggregate a breaker with data `d` reaches when `amount` moves at `now`.
pub open spec fn breaker_aggregate(d: Seq<u8>, amount: u64, now: i64) -> int {
    window_aggregate(
        u64_le(d, 50) as u64,
        u64_le(d, 33) as u64,
        i64_of_bits(u64_le(d, 58)) as i64,
        now,
        amount,
    )
}

/// Whether the breaker with data `d` lets `amount` through at `now`.
pub open spec fn window_accepts(d: Seq<u8>, amount: u64, now: i64, balance: u64) -> bool {
    breaker_aggregate(d, amount, now) <= window_limit(d[41], u64_le(d, 42) as u64, balance)
}

/// The breaker data after an accepted `amount` at `now`: the aggregate and
/// the time are recorded.
pub open spec fn window_recorded(d: Seq<u8>, amount: u64, now: i64) -> Seq<u8> {
    splice(
        splice(d, 50, le_bytes_u64(breaker_aggregate(d, amount, now) as u64)),
        58,
        le_bytes_i64(now),
    )
}

proof fn lemma_share_of_balance(balance: u64, threshold: u64)
    ensures
        0 <= balance * threshold <= u64::MAX * u64::MAX,
        0 <= (balance * threshold) / (u64::MAX as int) <= u64::MAX,
{
    let p = balance * threshold;
    assert(0 <= p <= u64::MAX * u64::MAX) by (nonlinear_arith)
        requires
            0 <= balance <= u64::MAX,
            0 <= threshold <= u64::MAX,
            p == balance * threshold,
    ;
    assert(0 <= p / (u64::MAX as int) <= u64::MAX) by (nonlinear_arith)
        requires
            0 <= p <= u64::MAX * u64::MAX,
    ;
}

/// Checks an operation of `amount` at `current_ts` against the breaker
/// stored in `data`, and records it when it passes: the decayed window plus
/// `amount` (saturating) must not exceed the limit. Returns whether it
/// passed; a refused operation leaves the data as it was.
pub fn check_and_update_window(
    data: &mut Vec<u8>,
    amount: u64,
    current_ts: i64,
    account_balance: u64,
) -> (r: Result<bool, Result<(), ProgramError>>)
    requires
        old(data)@.len() >= 66,
    ensures
        r == Ok::<bool, Result<(), ProgramError>>(
            window_accepts(old(data)@, amount, current_ts, account_balance),
        ),
        window_accepts(old(data)@, amount, current_ts, account_balance) ==> final(data)@
            == window_recorded(old(data)@, amount, current_ts),
        !window_accepts(old(data)@, amount, current_ts, account_balance) ==> final(data)@ == old(
            data,
        )@,
{
    let window_sec = read_u64_data(data.as_slice(), CircuitBreaker::OFFSET_WINDOW_SEC);
    let threshold_type = data[CircuitBreaker::OFFSET_THRESHOLD_TYPE];
    let threshold = read_u64_data(data.as_slice(), CircuitBreaker::OFFSET_THRESHOLD);
    let last_value = read_u64_data(data.as_slice(), CircuitBreaker::OFFSET_LAST_VALUE);
    let last_ts = read_i64_data(data.as_slice(), CircuitBreaker::OFFSET_LAST_TS);

    let decayed = decay(last_value, window_sec, last_ts, current_ts);
    let new_aggregated = decayed.saturating_add(amount);

    let limit = if threshold_type == 0 {
        proof {
            lemma_share_of_balance(account_balance, threshold);
        }
        let p = (account_balance as u128) * (threshold as u128);
        (p / (u64::MAX as u128)) as u64
    } else {
        threshold
    };

    if new_aggregated <= limit {
        write_u64_data(data, CircuitBreaker::OFFSET_LAST_VALUE, new_aggregated);
        write_i64_data(data, CircuitBreaker::OFFSET_LAST_TS, current_ts);
        Ok(true)
    } else {
        Ok(false)
    }
}

/// A breaker that accepts an operation records an aggregate that is within
/// its limit: reading the last value back gives the aggregate, and it does
/// not exceed the limit.
pub proof fn lemma_recorded_within_limit(d: Seq<u8>, amount: u64, now: i64, balance: u64)
    requires
        d.len() >= 66,
        window_accepts(d, amount, now, balance),
    ensures
        u64_le(window_recorded(d, amount, now), 50) == breaker_aggregate(d, amount, now),
        u64_le(window_recorded(d, amount, now), 50) <= window_limit(
            d[41],
            u64_le(d, 42) as u64,
            balance,
        ),
{
    let agg = breaker_aggregate(d, amount, now);
    let lv = u64_le(d, 50) as u64;
    let w = u64_le(d, 33) as u64;
    let lts = i64_of_bits(u64_le(d, 58)) as i64;
    crate::window::lemma_decay_bounded(lv, w, sat_sub_i64(now as int, lts as int));
    assert(0 <= agg <= u64::MAX);
    let d1 = splice(d, 50, le_bytes_u64(agg as u64));
    lemma_read_after_write_u64(d, 50, agg as u64);
    let field = le_bytes_i64(now);
    let d2 = splice(d1, 58, field);
    assert(d2[50] == d1[50] && d2[51] == d1[51] && d2[52] == d1[52] && d2[53] == d1[53]
        && d2[54] == d1[54] && d2[55] == d1[55] && d2[56] == d1[56] && d2[57] == d1[57]);
}

/// What an accepted take goes on to do: move `amount` from the vault to the
/// taker and from the taker to the maker, close the vault (signing with the
/// escrow's `bump`), and store `cb_data` as the breaker's new data when the
/// breaker was checked.
pub struct TakePlan {
    pub amount: u64,
    pub bump: u8,
    pub cb_data: Option<Vec<u8>>,
}

/// Whether `data` holds a whole breaker.
pub open spec fn holds_breaker(data: Seq<u8>) -> bool {
    data.len() >= CircuitBreaker::LEN
}

/// The first check a take fails, if any. Accounts: taker, maker, mint a,
/// mint b, maker's account for mint b, taker's accounts for a and b, vault,
/// escrow, breaker, token program.
pub open spec fn take_error(accounts: Seq<AccountInput>) -> Option<ProgramError> {
    if accounts.len() < 11 {
        Some(ProgramError::NotEnoughAccountKeys)
    } else if !accounts[0].is_signer {
        Some(ProgramError::MissingRequiredSignature)
    } else {
        let e = accounts[8].data@;
        let cb = accounts[9].data@;
        let amount = u64_le(e, 96) as u64;
        if e.subrange(0, 32) != accounts[1].key@ {
            Some(ProgramError::Custom(6003))
        } else if accounts[2].key@ != e.subrange(32, 64) {
            Some(ProgramError::Custom(6003))
        } else if accounts[3].key@ != e.subrange(64, 96) {
            Some(ProgramError::Custom(6003))
        } else if i64_of_bits(u64_le(e, 104)) < 0 {
            Some(ProgramError::Custom(6004))
        } else if holds_breaker(cb) && cb[32] != 0 {
            Some(ProgramError::Custom(6001))
        } else if holds_breaker(cb) && !window_accepts(cb, amount, 0, amount) {
            Some(ProgramError::Custom(6002))
        } else {
            None
        }
    }
}

/// Decides the take instruction. The escrow must name the maker and the
/// two mints given, must not have expired (the current time is taken as 0),
/// and a breaker account that holds a whole breaker must be unpaused and
/// let the escrowed amount through (its limit computed on that same amount).
pub fn process(accounts: &[AccountInput], _ix_data: &[u8]) -> (r: Result<TakePlan, ProgramError>)
    requires
        accounts@.len() >= 11 && accounts@[0].is_signer ==> accounts@[8].data@.len() >= 112,
        take_error(accounts@) is None ==> accounts@[8].data@.len() >= 113,
    ensures
        take_error(accounts@) matches Some(e) ==> r == Err::<TakePlan, ProgramError>(e),
        take_error(accounts@) is None ==> (r matches Ok(plan) && {
            &&& plan.amount == u64_le(accounts@[8].data@, 96)
            &&& plan.bump == accounts@[8].data@[112]
            &&& holds_breaker(accounts@[9].data@) ==> (plan.cb_data matches Some(c) && c@
                == window_recorded(accounts@[9].data@, plan.amount, 0))
            &&& !holds_breaker(accounts@[9].data@) ==> plan.cb_data is None
        }),
{
    if accounts.len() < 11 {
        return Err(ProgramError::NotEnoughAccountKeys);
    }
    let taker = &accounts[0];
    let maker = &accounts[1];
    let mint_a = &accounts[2];
    let mint_b = &accounts[3];
    let escrow = &accounts[8];
    let cb_pda = &accounts[9];
    if !taker.is_signer {
        return Err(ProgramError::MissingRequiredSignature);
    }
    let escrow_data = escrow.data.as_slice();
    let stored_maker = address_at(escrow_data, Escrow::OFFSET_MAKER);
    let stored_mint_a = address_at(escrow_data, Escrow::OFFSET_MINT_A);
    let stored_mint_b = address_at(escrow_data, Escrow::OFFSET_MINT_B);
    let amount = read_u64_escrow(escrow_data);
    let expiry = read_i64_escrow(escrow_data);

    if !address_eq(&stored_maker, &maker.key) {
        return Err(custom_error(ERR_INVALID_ACCOUNT));
    }
    if !address_eq(&mint_a.key, &stored_mint_a) {
        return Err(custom_error(ERR_INVALID_ACCOUNT));
    }
    if !address_eq(&mint_b.key, &stored_mint_b) {
        return Err(custom_error(ERR_INVALID_ACCOUNT));
    }
    let current_ts: i64 = 0;
    if expiry < current_ts {
        return Err(custom_error(ERR_EXPIRED));
    }
    let mut cb_update: Option<Vec<u8>> = None;
    if cb_pda.data.len() >= CircuitBreaker::LEN {
        let mut cb_data = copy_bytes(cb_pda.data.as_slice());
        if cb_data[CircuitBreaker::OFFSET_PAUSED] != 0 {
            return Err(custom_error(ERR_PAUSED));
        }
        let passed = match check_and_update_window(&mut cb_data, amount, current_ts, amount) {
            Ok(b) => b,
            Err(_) => false,
        };
        if !passed {
            return Err(custom_error(ERR_CB_TRIGGERED));
        }
        cb_update = Some(cb_data);
    }
    let bump = escrow_data[Escrow::OFFSET_BUMP];
    Ok(TakePlan { amount, bump, cb_data: cb_update })
}

/// A take reads back what the make stored: the escrow made for this maker
/// and these two mints, not yet expired and with no breaker to consult, is
/// taken whole, its amount and bump being the ones it was made with.
pub proof fn lemma_take_of_made_escrow(e: Escrow, accounts: Seq<AccountInput>)
    requires
        accounts.len() >= 11,
        accounts[0].is_signer,
        accounts[8].data@ == e.layout(),
        accounts[1].key@ == e.maker@,
        accounts[2].key@ == e.mint_a@,
        accounts[3].key@ == e.mint_b@,
        e.expiry >= 0,
        !holds_breaker(accounts[9].data@),
    ensures
        take_error(accounts) is None,
        u64_le(accounts[8].data@, 96) == e.amount,
        accounts[8].data@[112] == e.bump,
{
    lemma_escrow_reads_back(e);
}

} // verus!
