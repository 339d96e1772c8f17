//! Creating a pool, pricing a swap and the pool's rate limiter.
use vstd::prelude::*;
use crate::account::{Address, AccountInput, address_eq, address_at};
use crate::error::{ProgramError, custom_error};
use crate::pool::state::{PoolState, ERR_CB_TRIGGERED, ERR_INSUFFICIENT, ERR_PAUSED};
use crate::le::{
    u16_le, u64_le, i64_of_bits, le_bytes_u16, le_bytes_u64, le_bytes_i64, splice, read_u16_at,
    read_u64_at, read_i64_at, write_u16_at, write_u64_at, write_i64_at, write_bytes_at, copy_bytes,
    lemma_read_after_write_u64, lemma_u64_field,
};
use crate::pda::{found_program_address, try_find_program_address, seeds_view};
use crate::window::{
    window_aggregate, decay, low_u64, sat_sub_i64, lemma_decay_bounded,
};

verus! {

pub const INIT_DISC: u8 = 0;

pub const SWAP_DISC: u8 = 1;

/// The seed prefix of pool addresses: the bytes of "stable-swap-pool".
pub open spec fn pool_seed() -> Seq<u8> {
    seq![115u8, 116, 97, 98, 108, 101, 45, 115, 119, 97, 112, 45, 112, 111, 111, 108]
}

/// The bytes of "stable-swap-pool".
pub fn pool_seed_bytes() -> (r: Vec<u8>)
    ensures
        r@ == pool_seed(),
{
    let r = vec![115u8, 116, 97, 98, 108, 101, 45, 115, 119, 97, 112, 45, 112, 111, 111, 108];
    assert(r@ =~= pool_seed());
    r
}

/// Searches the pool address for the two mints under `program_id`.
pub fn find_pool_address(mint_a: &Address, mint_b: &Address, program_id: &Address) -> (r: Option<
    (Address, u8),
>)
    ensures
        r is None <==> found_program_address(seq![pool_seed(), mint_a@, mint_b@], program_id@) is None,
        r matches Some(p) ==> found_program_address(seq![pool_seed(), mint_a@, mint_b@], program_id@)
            == Some((p.0@, p.1)),
{
    let mut seeds: Vec<Vec<u8>> = Vec::new();
    seeds.push(pool_seed_bytes());
    seeds.push(copy_bytes(mint_a.as_slice()));
    seeds.push(copy_bytes(mint_b.as_slice()));
    assert(seeds_view(seeds@) =~= seq![pool_seed(), mint_a@, mint_b@]);
    try_find_program_address(&seeds, program_id)
}

/// Reads the little-endian `u64` at `data[offset .. offset + 8]`, or fails
/// with `InvalidInstructionData` when `data` is too short.
pub fn read_u64(data: &[u8], offset: usize) -> (r: Result<u64, ProgramError>)
    requires
        offset + 8 <= usize::MAX,
    ensures
        data@.len() < offset + 8 ==> r == Err::<u64, ProgramError>(
            ProgramError::InvalidInstructionData,
        ),
        data@.len() >= offset + 8 ==> r == Ok::<u64, ProgramError>(
            u64_le(data@, offset as int) as u64,
        ),
{
    if data.len() < offset + 8 {
        return Err(ProgramError::InvalidInstructionData);
    }
    Ok(read_u64_at(data, offset))
}

/// Reads the little-endian `u64` at `data[offset .. offset + 8]`.
pub fn read_u64_from(data: &[u8], offset: usize) -> (r: u64)
    requires
        offset + 8 <= data@.len(),
    ensures
        r == u64_le(data@, offset as int),
{
    read_u64_at(data, offset)
}

/// The balance of a token account (u64 at 64).
pub fn read_u64_tok(data: &[u8]) -> (r: u64)
    requires
        data@.len() >= 72,
    ensures
        r == u64_le(data@, 64),
{
    read_u64_at(data, 64)
}

/// Reads the little-endian `i64` at `data[offset .. offset + 8]`.
pub fn read_i64(data: &[u8], offset: usize) -> (r: i64)
    requires
        offset + 8 <= data@.len(),
    ensures
        r == i64_of_bits(u64_le(data@, offset as int)),
{
    read_i64_at(data, offset)
}

/// Reads the little-endian `u16` at `data[offset .. offset + 2]`.
pub fn read_u16(data: &[u8], offset: usize) -> (r: u16)
    requires
        offset + 2 <= data@.len(),
    ensures
        r == u16_le(data@, offset as int),
{
    read_u16_at(data, offset)
}

/// Writes `val` little-endian at `data[offset .. offset + 8]`.
pub fn write_u64(data: &mut Vec<u8>, offset: usize, val: u64)
    requires
        offset + 8 <= old(data)@.len(),
    ensures
        final(data)@ == splice(old(data)@, offset as int, le_bytes_u64(val)),
{
    write_u64_at(data, offset, val);
}

/// Writes `val` little-endian at `data[offset .. offset + 8]`.
pub fn write_i64(data: &mut Vec<u8>, offset: usize, val: i64)
    requires
        offset + 8 <= old(data)@.len(),
    ensures
        final(data)@ == splice(old(data)@, offset as int, le_bytes_i64(val)),
{
    write_i64_at(data, offset, val);
}

/// Writes `val` little-endian at `data[offset .. offset + 2]`.
pub fn write_u16(data: &mut Vec<u8>, offset: usize, val: u16)
    requires
        offset + 2 <= old(data)@.len(),
    ensures
        final(data)@ == splice(old(data)@, offset as int, le_bytes_u16(val)),
{
    write_u16_at(data, offset, val);
}

/// The fee taken from `amount_in` at `fee_bps` basis points (low 64 bits).
pub open spec fn swap_fee(amount_in: u64, fee_bps: u16) -> int {
    ((amount_in * fee_bps) / 10000) % 0x1_0000_0000_0000_0000
}

/// `amount_in` less the fee, saturating at 0.
pub open spec fn amount_after_fee(amount_in: u64, fee_bps: u16) -> int {
    if swap_fee(amount_in, fee_bps) > amount_in {
        0
    } else {
        amount_in - swap_fee(amount_in, fee_bps)
    }
}

/// The input reserve after the swap: the input reserve plus the input less
/// the fee.
pub open spec fn swap_new_in(amount_in: u64, reserve_in: u64, fee_bps: u16) -> int {
    reserve_in + amount_after_fee(amount_in, fee_bps)
}

/// The output reserve after the swap. Below an amplification of 1000 the
/// pool prices as a constant product: the reserves' product divided by the
/// new input reserve, rounded down. From 1000 on it prices one for one: the
/// reserves' sum less the new input reserve, at least 0.
pub open spec fn swap_new_out(
    amount_in: u64,
    reserve_in: u64,
    reserve_out: u64,
    amp: u64,
    fee_bps: u16,
) -> int {
    let new_in = swap_new_in(amount_in, reserve_in, fee_bps);
    if amp >= 1000 {
        if reserve_in + reserve_out > new_in {
            reserve_in + reserve_out - new_in
        } else {
            0
        }
    } else {
        (reserve_in * reserve_out) / new_in
    }
}

/// Whether the pricing can be carried out: below an amplification of 1000
/// it divides by the new input reserve, which must not be 0 (it aborts
/// there).
pub open spec fn swap_fits(
    amount_in: u64,
    reserve_in: u64,
    reserve_out: u64,
    amp: u64,
    fee_bps: u16,
) -> bool {
    amp >= 1000 || swap_new_in(amount_in, reserve_in, fee_bps) > 0
}

/// The amount a swap pays out: the output reserve less the priced output
/// reserve, saturating at 0.
pub open spec fn swap_output(
    amount_in: u64,
    reserve_in: u64,
    reserve_out: u64,
    amp: u64,
    fee_bps: u16,
) -> int {
    let o = swap_new_out(amount_in, reserve_in, reserve_out, amp, fee_bps);
    if o > reserve_out {
        0
    } else {
        reserve_out - o
    }
}

/// The input less the fee, computed.
fn input_after_fee(amount_in: u64, fee_bps: u16) -> (r: u64)
    ensures
        r == amount_after_fee(amount_in, fee_bps),
{
    assert((amount_in as int) * (fee_bps as int) <= u64::MAX * u16::MAX) by (nonlinear_arith)
        requires
            0 <= amount_in <= u64::MAX,
            0 <= fee_bps <= u16::MAX,
    ;
    let fee = low_u64(((amount_in as u128) * (fee_bps as u128)) / 10000);
    amount_in.saturating_sub(fee)
}

/// Whether `swap_fits` holds, computed.
pub fn compute_swap_fits(
    amount_in: u64,
    reserve_in: u64,
    reserve_out: u64,
    amp: u64,
    fee_bps: u16,
) -> (r: bool)
    ensures
        r == swap_fits(amount_in, reserve_in, reserve_out, amp, fee_bps),
{
    let amount_with_fee = input_after_fee(amount_in, fee_bps);
    amp >= 1000 || (reserve_in as u128) + (amount_with_fee as u128) > 0
}

/// Prices a swap of `amount_in` against the two reserves (see `swap_output`);
/// always some amount.
pub fn compute_swap(
    amount_in: u64,
    reserve_in: u64,
    reserve_out: u64,
    amp: u64,
    fee_bps: u16,
) -> (r: Option<u64>)
    requires
        swap_fits(amount_in, reserve_in, reserve_out, amp, fee_bps),
    ensures
        r == Some(swap_output(amount_in, reserve_in, reserve_out, amp, fee_bps) as u64),
{
    let amount_with_fee = input_after_fee(amount_in, fee_bps);
    let new_in = (reserve_in as u128) + (amount_with_fee as u128);
    let new_out: u128 = if amp >= 1000 {
        ((reserve_in as u128) + (reserve_out as u128)).saturating_sub(new_in)
    } else {
        assert((reserve_in as int) * (reserve_out as int) <= u64::MAX * u64::MAX)
            by (nonlinear_arith)
            requires
                0 <= reserve_in <= u64::MAX,
                0 <= reserve_out <= u64::MAX,
        ;
        ((reserve_in as u128) * (reserve_out as u128)) / new_in
    };
    proof {
        lemma_new_out_within_reserve(amount_in, reserve_in, reserve_out, amp, fee_bps);
    }
    Some(reserve_out - (new_out as u64))
}

/// The priced output reserve never exceeds the output reserve.
proof fn lemma_new_out_within_reserve(
    amount_in: u64,
    reserve_in: u64,
    reserve_out: u64,
    amp: u64,
    fee_bps: u16,
)
    requires
        swap_fits(amount_in, reserve_in, reserve_out, amp, fee_bps),
    ensures
        0 <= swap_new_out(amount_in, reserve_in, reserve_out, amp, fee_bps) <= reserve_out,
{
    let new_in = swap_new_in(amount_in, reserve_in, fee_bps);
    if amp < 1000 {
        let p = reserve_in * reserve_out;
        assert(0 <= p <= new_in * reserve_out) by (nonlinear_arith)
            requires
                p == reserve_in * reserve_out,
                0 <= reserve_in <= new_in,
                0 <= reserve_out,
        ;
        assert(0 <= p / new_in <= reserve_out) by (nonlinear_arith)
            requires
                0 <= p <= new_in * reserve_out,
                new_in > 0,
        ;
    }
}

/// The aggregate the pool's limiter reaches when `amount` moves at `ts`.
pub open spec fn pool_aggregate(d: Seq<u8>, amount: u64, ts: i64) -> int {
    window_aggregate(
        u64_le(d, 221) as u64,
        u64_le(d, 205) as u64,
        i64_of_bits(u64_le(d, 229)) as i64,
        ts,
        amount,
    )
}

/// Whether the pool's limiter lets `amount` through at `ts`: the aggregate
/// must not exceed the threshold.
pub open spec fn limiter_accepts(d: Seq<u8>, amount: u64, ts: i64) -> bool {
    pool_aggregate(d, amount, ts) <= u64_le(d, 213)
}

/// The pool data after the limiter accepted `amount` at `ts`.
pub open spec fn limiter_recorded(d: Seq<u8>, amount: u64, ts: i64) -> Seq<u8> {
    splice(splice(d, 221, le_bytes_u64(pool_aggregate(d, amount, ts) as u64)), 229, le_bytes_i64(ts))
}

/// Checks `amount` at time `ts` against the pool's limiter and records it
/// when it passes. A refused amount leaves the data as it was.
pub fn check_cb(data: &mut Vec<u8>, amount: u64, ts: i64) -> (r: Result<bool, ProgramError>)
    requires
        old(data)@.len() >= 237,
    ensures
        r == Ok::<bool, ProgramError>(limiter_accepts(old(data)@, amount, ts)),
        limiter_accepts(old(data)@, amount, ts) ==> final(data)@ == limiter_recorded(
            old(data)@,
            amount,
            ts,
        ),
        !limiter_accepts(old(data)@, amount, ts) ==> final(data)@ == old(data)@,
{
    let window = read_u64_from(data.as_slice(), PoolState::OFFSET_CB_WINDOW);
    let threshold = read_u64_from(data.as_slice(), PoolState::OFFSET_CB_THRESH);
    let last_val = read_u64_from(data.as_slice(), PoolState::OFFSET_CB_LAST_VAL);
    let last_ts = read_i64(data.as_slice(), PoolState::OFFSET_CB_LAST_TS);
    let decayed = decay(last_val, window, last_ts, ts);
    let new_agg = decayed.saturating_add(amount);
    if new_agg <= threshold {
        write_u64(data, PoolState::OFFSET_CB_LAST_VAL, new_agg);
        write_i64(data, PoolState::OFFSET_CB_LAST_TS, ts);
        Ok(true)
    } else {
        Ok(false)
    }
}

/// What an accepted pool creation goes on to do: create the pool account
/// (`space` bytes, `lamports` lamports, owned by the program) and store the
/// initial pool in it.
#[derive(PartialEq, Eq, Structural)]
pub struct PoolInitPlan {
    pub amp: u64,
    pub bump: u8,
    pub lamports: u64,
    pub space: u64,
}

/// The outcome of creating a pool. Accounts: authority (signer), mint a,
/// mint b, pool, system program, token program. Instruction data: the
/// amplification (u64 at 1, 100 when absent).
pub open spec fn init_result(program_id: Address, accounts: Seq<AccountInput>, ix: Seq<u8>) -> Result<
    PoolInitPlan,
    ProgramError,
> {
    if accounts.len() < 6 {
        Err(ProgramError::NotEnoughAccountKeys)
    } else if !accounts[0].is_signer {
        Err(ProgramError::MissingRequiredSignature)
    } else {
        let found = found_program_address(
            seq![pool_seed(), accounts[1].key@, accounts[2].key@],
            program_id@,
        )->0;
        if accounts[3].key@ != found.0 {
            Err(ProgramError::InvalidAccountData)
        } else {
            Ok(
                PoolInitPlan {
                    amp: if ix.len() >= 9 {
                        u64_le(ix, 1) as u64
                    } else {
                        100
                    },
                    bump: found.1,
                    lamports: 1_000_000,
                    space: 238,
                },
            )
        }
    }
}

/// Whether the search for the pool's address, which a signed creation
/// makes, finds one (where it finds none the program aborts).
pub open spec fn init_finds_pool(program_id: Address, accounts: Seq<AccountInput>) -> bool {
    accounts.len() >= 6 && accounts[0].is_signer ==> found_program_address(
        seq![pool_seed(), accounts[1].key@, accounts[2].key@],
        program_id@,
    ) is Some
}

/// Decides the creation of a pool: it must sit at the address derived from
/// "stable-swap-pool" and the two mints.
pub fn process_init(program_id: &Address, accounts: &[AccountInput], ix_data: &[u8]) -> (r: Result<
    PoolInitPlan,
    ProgramError,
>)
    requires
        init_finds_pool(*program_id, accounts@),
    ensures
        r == init_result(*program_id, accounts@, ix_data@),
{
    if accounts.len() < 6 {
        return Err(ProgramError::NotEnoughAccountKeys);
    }
    let authority = &accounts[0];
    let mint_a = &accounts[1];
    let mint_b = &accounts[2];
    let pool_state = &accounts[3];
    if !authority.is_signer {
        return Err(ProgramError::MissingRequiredSignature);
    }
    let amp = match read_u64(ix_data, 1) {
        Ok(v) => v,
        Err(_) => 100,
    };
    let (pool_key, bump) = find_pool_address(&mint_a.key, &mint_b.key, program_id).unwrap();
    if !address_eq(&pool_state.key, &pool_key) {
        return Err(ProgramError::InvalidAccountData);
    }
    Ok(PoolInitPlan { amp, bump, lamports: 1_000_000, space: 238 })
}

/// Decides the creation of a pool like `process_init`, on every input:
/// `None` where the search for the pool's address finds none (where the
/// program aborts).
pub fn try_process_init(program_id: &Address, accounts: &[AccountInput], ix_data: &[u8]) -> (r:
    Option<Result<PoolInitPlan, ProgramError>>)
    ensures
        r is None <==> !init_finds_pool(*program_id, accounts@),
        r matches Some(x) ==> x == init_result(*program_id, accounts@, ix_data@),
{
    if accounts.len() >= 6 && accounts[0].is_signer {
        if find_pool_address(&accounts[1].key, &accounts[2].key, program_id).is_none() {
            return None;
        }
    }
    Some(process_init(program_id, accounts, ix_data))
}

/// The pool data after creation: authority, mints, amplification, a trade
/// fee of 25 and an admin fee of 5 basis points, unpaused, a 60-second
/// window with a threshold of 10^9, an empty record and the bump; the
/// reserve and LP-mint fields (bytes 96 to 192) are left as they were.
pub open spec fn initial_pool(
    d: Seq<u8>,
    authority: Address,
    mint_a: Address,
    mint_b: Address,
    plan: PoolInitPlan,
) -> Seq<u8> {
    authority@ + mint_a@ + mint_b@ + d.subrange(96, 192) + le_bytes_u64(plan.amp) + le_bytes_u16(
        25,
    ) + le_bytes_u16(5) + seq![0u8] + le_bytes_u64(60) + le_bytes_u64(1_000_000_000)
        + le_bytes_u64(0) + le_bytes_i64(0) + seq![plan.bump] + d.skip(238)
}

/// Stores a freshly created pool into the account data created for it.
pub fn write_initial_pool(
    data: &mut Vec<u8>,
    authority: &Address,
    mint_a: &Address,
    mint_b: &Address,
    plan: &PoolInitPlan,
)
    requires
        old(data)@.len() >= PoolState::LEN,
    ensures
        final(data)@ == initial_pool(old(data)@, *authority, *mint_a, *mint_b, *plan),
{
    let ghost d0 = data@;
    write_bytes_at(data, PoolState::OFFSET_AUTHORITY, authority.as_slice());
    write_bytes_at(data, PoolState::OFFSET_MINT_A, mint_a.as_slice());
    proof {
        lemma_splice_adjacent(d0, 0, authority@, mint_a@);
    }
    write_bytes_at(data, PoolState::OFFSET_MINT_B, mint_b.as_slice());
    proof {
        lemma_splice_adjacent(d0, 0, authority@ + mint_a@, mint_b@);
    }
    let ghost head = authority@ + mint_a@ + mint_b@;
    let ghost d1 = splice(d0, 0, head);
    assert(data@ == d1);
    write_u64(data, PoolState::OFFSET_AMP, plan.amp);
    let ghost t = le_bytes_u64(plan.amp);
    write_u16(data, PoolState::OFFSET_TRADE_FEE, 25);
    proof {
        lemma_splice_adjacent(d1, 192, t, le_bytes_u16(25));
    }
    let ghost t = t + le_bytes_u16(25);
    write_u16(data, PoolState::OFFSET_ADMIN_FEE, 5);
    proof {
        lemma_splice_adjacent(d1, 192, t, le_bytes_u16(5));
    }
    let ghost t = t + le_bytes_u16(5);
    let ghost before = data@;
    data.set(PoolState::OFFSET_PAUSED, 0);
    proof {
        assert(data@ =~= splice(before, 204, seq![0u8]));
        lemma_splice_adjacent(d1, 192, t, seq![0u8]);
    }
    let ghost t = t + seq![0u8];
    write_u64(data, PoolState::OFFSET_CB_WINDOW, 60);
    proof {
        lemma_splice_adjacent(d1, 192, t, le_bytes_u64(60));
    }
    let ghost t = t + le_bytes_u64(60);
    write_u64(data, PoolState::OFFSET_CB_THRESH, 1_000_000_000);
    proof {
        lemma_splice_adjacent(d1, 192, t, le_bytes_u64(1_000_000_000));
    }
    let ghost t = t + le_bytes_u64(1_000_000_000);
    write_u64(data, PoolState::OFFSET_CB_LAST_VAL, 0);
    proof {
        lemma_splice_adjacent(d1, 192, t, le_bytes_u64(0));
    }
    let ghost t = t + le_bytes_u64(0);
    write_i64(data, PoolState::OFFSET_CB_LAST_TS, 0);
    proof {
        lemma_splice_adjacent(d1, 192, t, le_bytes_i64(0));
    }
    let ghost t = t + le_bytes_i64(0);
    let ghost before = data@;
    data.set(PoolState::OFFSET_BUMP, plan.bump);
    proof {
        assert(data@ =~= splice(before, 237, seq![plan.bump]));
        lemma_splice_adjacent(d1, 192, t, seq![plan.bump]);
    }
    let ghost t = t + seq![plan.bump];
    assert(data@ == splice(d1, 192, t));
    assert(data@ =~= initial_pool(d0, *authority, *mint_a, *mint_b, *plan));
}

/// Two writes side by side are one write of both.
pub proof fn lemma_splice_adjacent(d: Seq<u8>, off: int, x: Seq<u8>, y: Seq<u8>)
    requires
        0 <= off,
        off + x.len() + y.len() <= d.len(),
    ensures
        splice(splice(d, off, x), off + x.len(), y) == splice(d, off, x + y),
{
    assert(splice(splice(d, off, x), off + x.len(), y) =~= splice(d, off, x + y));
}

/// A priced swap: what goes in and what comes out.
#[derive(PartialEq, Eq, Structural)]
pub struct SwapQuote {
    pub amount_in: u64,
    pub amount_out: u64,
}

/// The reserve balances, the amplification and the fee a swap is priced on.
pub open spec fn swap_price(accounts: Seq<AccountInput>, ix: Seq<u8>) -> int {
    swap_output(
        u64_le(ix, 1) as u64,
        u64_le(accounts[4].data@, 64) as u64,
        u64_le(accounts[5].data@, 64) as u64,
        u64_le(accounts[1].data@, 192) as u64,
        u16_le(accounts[1].data@, 200) as u16,
    )
}

/// Whether the pricing of the swap that `accounts` and `ix` ask for fits.
pub open spec fn swap_price_fits(accounts: Seq<AccountInput>, ix: Seq<u8>) -> bool {
    swap_fits(
        u64_le(ix, 1) as u64,
        u64_le(accounts[4].data@, 64) as u64,
        u64_le(accounts[5].data@, 64) as u64,
        u64_le(accounts[1].data@, 192) as u64,
        u16_le(accounts[1].data@, 200) as u16,
    )
}

/// The least output a swap accepts (u64 at 9, 0 when absent).
pub open spec fn swap_min_out(ix: Seq<u8>) -> int {
    if ix.len() >= 17 {
        u64_le(ix, 9)
    } else {
        0
    }
}

/// Whether a swap gets as far as pricing: enough accounts, a signer, an
/// unpaused pool and an input amount.
pub open spec fn swap_reaches_pricing(accounts: Seq<AccountInput>, ix: Seq<u8>) -> bool {
    accounts.len() >= 7 && accounts[0].is_signer && accounts[1].data@[204] == 0 && ix.len() >= 9
}

/// The first check a swap fails before the time is read, if any.
/// Accounts: user (signer), pool, user's source and destination accounts,
/// input and output reserves, token program. Instruction data: the input
/// amount (u64 at 1, required) and the least output (u64 at 9).
pub open spec fn swap_error(accounts: Seq<AccountInput>, ix: Seq<u8>) -> Option<ProgramError> {
    if accounts.len() < 7 {
        Some(ProgramError::NotEnoughAccountKeys)
    } else if !accounts[0].is_signer {
        Some(ProgramError::MissingRequiredSignature)
    } else if accounts[1].data@[204] != 0 {
        Some(ProgramError::Custom(7000))
    } else if ix.len() < 9 {
        Some(ProgramError::InvalidInstructionData)
    } else if swap_price(accounts, ix) < swap_min_out(ix) {
        Some(ProgramError::Custom(7003))
    } else {
        None
    }
}

/// Decides a swap up to the point where the program reads the clock: the
/// pool must not be paused and the priced output must reach the least
/// output asked for. The rate limiter is applied by `commit_swap` once the
/// time is known.
pub fn process_swap(accounts: &[AccountInput], ix_data: &[u8]) -> (r: Result<
    SwapQuote,
    ProgramError,
>)
    requires
        accounts@.len() >= 7 && accounts@[0].is_signer ==> accounts@[1].data@.len() >= 205,
        swap_reaches_pricing(accounts@, ix_data@) ==> {
            &&& accounts@[4].data@.len() >= 72
            &&& accounts@[5].data@.len() >= 72
            &&& swap_price_fits(accounts@, ix_data@)
        },
    ensures
        swap_error(accounts@, ix_data@) matches Some(e) ==> r == Err::<SwapQuote, ProgramError>(e),
        swap_error(accounts@, ix_data@) is None ==> r == Ok::<SwapQuote, ProgramError>(
            SwapQuote {
                amount_in: u64_le(ix_data@, 1) as u64,
                amount_out: swap_price(accounts@, ix_data@) as u64,
            },
        ),
{
    if accounts.len() < 7 {
        return Err(ProgramError::NotEnoughAccountKeys);
    }
    let user = &accounts[0];
    let pool_state = &accounts[1];
    let reserve_in = &accounts[4];
    let reserve_out = &accounts[5];
    if !user.is_signer {
        return Err(ProgramError::MissingRequiredSignature);
    }
    let pool_data = pool_state.data.as_slice();
    if pool_data[PoolState::OFFSET_PAUSED] != 0 {
        return Err(custom_error(ERR_PAUSED));
    }
    let amount_in = match read_u64(ix_data, 1) {
        Ok(v) => v,
        Err(e) => {
            return Err(e);
        },
    };
    let min_out = match read_u64(ix_data, 9) {
        Ok(v) => v,
        Err(_) => 0,
    };
    let amp = read_u64_from(pool_data, PoolState::OFFSET_AMP);
    let trade_fee = read_u16(pool_data, PoolState::OFFSET_TRADE_FEE);
    let reserve_in_amt = read_u64_tok(reserve_in.data.as_slice());
    let reserve_out_amt = read_u64_tok(reserve_out.data.as_slice());
    let amount_out = match compute_swap(amount_in, reserve_in_amt, reserve_out_amt, amp, trade_fee) {
        Some(v) => v,
        None => {
            return Err(custom_error(ERR_INSUFFICIENT));
        },
    };
    if amount_out < min_out {
        return Err(custom_error(ERR_INSUFFICIENT));
    }
    Ok(SwapQuote { amount_in, amount_out })
}

/// What a swap that passed the limiter goes on to do: store `pool_data`
/// (the limiter's new record), move the input from the user to the input
/// reserve, and the output from the output reserve to the user, signing as
/// the pool with its seeds (the two mints and the bump).
pub struct SwapCommit {
    pub pool_data: Vec<u8>,
    pub bump: u8,
    pub mint_a: Address,
    pub mint_b: Address,
}

/// Applies the pool's rate limiter to a priced swap of `amount_in` at the
/// clock's time `current_ts`: refuses with the breaker error when the
/// limiter does not let it through.
pub fn commit_swap(pool_data: &[u8], amount_in: u64, current_ts: i64) -> (r: Result<
    SwapCommit,
    ProgramError,
>)
    requires
        pool_data@.len() >= 237,
        limiter_accepts(pool_data@, amount_in, current_ts) ==> pool_data@.len() >= PoolState::LEN,
    ensures
        !limiter_accepts(pool_data@, amount_in, current_ts) ==> r == Err::<SwapCommit, ProgramError>(
            ProgramError::Custom(7001),
        ),
        limiter_accepts(pool_data@, amount_in, current_ts) ==> (r matches Ok(c) && {
            &&& c.pool_data@ == limiter_recorded(pool_data@, amount_in, current_ts)
            &&& c.bump == pool_data@[237]
            &&& c.mint_a@ == pool_data@.subrange(32, 64)
            &&& c.mint_b@ == pool_data@.subrange(64, 96)
        }),
{
    let mut data = copy_bytes(pool_data);
    let passed = match check_cb(&mut data, amount_in, current_ts) {
        Ok(b) => b,
        Err(_) => false,
    };
    if !passed {
        return Err(custom_error(ERR_CB_TRIGGERED));
    }
    let bump = pool_data[PoolState::OFFSET_BUMP];
    let mint_a = address_at(pool_data, PoolState::OFFSET_MINT_A);
    let mint_b = address_at(pool_data, PoolState::OFFSET_MINT_B);
    Ok(SwapCommit { pool_data: data, bump, mint_a, mint_b })
}

/// What a priced swap pays out: never more than the output reserve, the fee
/// never takes more than the input, and a swap whose input survives the fee
/// always pays something out of a non-empty output reserve. Below an
/// amplification of 1000 the output reserve left is the largest whose
/// product with the new input reserve does not exceed the reserves' product.
pub proof fn lemma_swap_output_bounds(
    amount_in: u64,
    reserve_in: u64,
    reserve_out: u64,
    amp: u64,
    fee_bps: u16,
)
    requires
        swap_fits(amount_in, reserve_in, reserve_out, amp, fee_bps),
    ensures
        0 <= swap_output(amount_in, reserve_in, reserve_out, amp, fee_bps) <= reserve_out,
        0 <= amount_after_fee(amount_in, fee_bps) <= amount_in,
        amount_after_fee(amount_in, fee_bps) > 0 && reserve_out > 0 ==> swap_output(
            amount_in,
            reserve_in,
            reserve_out,
            amp,
            fee_bps,
        ) > 0,
        amp < 1000 ==> ({
            let new_in = swap_new_in(amount_in, reserve_in, fee_bps);
            let left = reserve_out - swap_output(amount_in, reserve_in, reserve_out, amp, fee_bps);
            &&& new_in * left <= reserve_in * reserve_out
            &&& reserve_in * reserve_out < new_in * (left + 1)
        }),
{
    lemma_new_out_within_reserve(amount_in, reserve_in, reserve_out, amp, fee_bps);
    let awf = amount_after_fee(amount_in, fee_bps);
    let new_in = swap_new_in(amount_in, reserve_in, fee_bps);
    let o = swap_new_out(amount_in, reserve_in, reserve_out, amp, fee_bps);
    if amp < 1000 {
        let p = reserve_in * reserve_out;
        assert(new_in * (p / new_in) <= p && p < new_in * (p / new_in + 1)) by (nonlinear_arith)
            requires
                new_in > 0,
                p >= 0,
        ;
        if awf > 0 && reserve_out > 0 {
            assert(p < new_in * reserve_out) by (nonlinear_arith)
                requires
                    p == reserve_in * reserve_out,
                    new_in == reserve_in + awf,
                    awf > 0,
                    reserve_out > 0,
                    reserve_in >= 0,
            ;
            assert(p / new_in < reserve_out) by (nonlinear_arith)
                requires
                    p < new_in * reserve_out,
                    new_in > 0,
                    p >= 0,
            ;
        }
    }
}

/// A limiter that lets an amount through records an aggregate within its
/// threshold: reading the last value back gives the aggregate, which does
/// not exceed the threshold, and the time read back is the time of the swap.
pub proof fn lemma_limiter_recorded_within_threshold(d: Seq<u8>, amount: u64, ts: i64)
    requires
        d.len() >= 237,
        limiter_accepts(d, amount, ts),
    ensures
        u64_le(limiter_recorded(d, amount, ts), 221) == pool_aggregate(d, amount, ts),
        u64_le(limiter_recorded(d, amount, ts), 221) <= u64_le(d, 213),
        u64_le(limiter_recorded(d, amount, ts), 213) == u64_le(d, 213),
        i64_of_bits(u64_le(limiter_recorded(d, amount, ts), 229)) == ts,
{
    let agg = pool_aggregate(d, amount, ts);
    let lv = u64_le(d, 221) as u64;
    let w = u64_le(d, 205) as u64;
    let lts = i64_of_bits(u64_le(d, 229)) as i64;
    lemma_decay_bounded(lv, w, sat_sub_i64(ts as int, lts as int));
    assert(0 <= agg <= u64::MAX);
    let d1 = splice(d, 221, le_bytes_u64(agg as u64));
    lemma_read_after_write_u64(d, 221, agg as u64);
    let bits = crate::le::bits_of_i64(ts as int);
    crate::le::lemma_i64_bits_roundtrip(ts);
    let d2 = splice(d1, 229, le_bytes_u64(bits as u64));
    lemma_read_after_write_u64(d1, 229, bits as u64);
    assert(d2 == limiter_recorded(d, amount, ts));
    assert(d2[221] == d1[221] && d2[222] == d1[222] && d2[223] == d1[223] && d2[224] == d1[224]
        && d2[225] == d1[225] && d2[226] == d1[226] && d2[227] == d1[227] && d2[228] == d1[228]);
    assert(d2[213] == d[213] && d2[214] == d[214] && d2[215] == d[215] && d2[216] == d[216]
        && d2[217] == d[217] && d2[218] == d[218] && d2[219] == d[219] && d2[220] == d[220]);
}

/// Reading a freshly created pool gives back what creation stored: the
/// authority and mints, the amplification, fees of 25 and 5 basis points,
/// unpaused, a 60-second window with a threshold of 10^9, an empty record at
/// time 0, and the bump.
pub proof fn lemma_initial_pool_reads_back(
    d: Seq<u8>,
    authority: Address,
    mint_a: Address,
    mint_b: Address,
    plan: PoolInitPlan,
)
    requires
        d.len() >= PoolState::LEN,
    ensures
        initial_pool(d, authority, mint_a, mint_b, plan).len() == d.len(),
        initial_pool(d, authority, mint_a, mint_b, plan).subrange(0, 32) == authority@,
        initial_pool(d, authority, mint_a, mint_b, plan).subrange(32, 64) == mint_a@,
        initial_pool(d, authority, mint_a, mint_b, plan).subrange(64, 96) == mint_b@,
        u64_le(initial_pool(d, authority, mint_a, mint_b, plan), 192) == plan.amp,
        u16_le(initial_pool(d, authority, mint_a, mint_b, plan), 200) == 25,
        u16_le(initial_pool(d, authority, mint_a, mint_b, plan), 202) == 5,
        initial_pool(d, authority, mint_a, mint_b, plan)[204] == 0,
        u64_le(initial_pool(d, authority, mint_a, mint_b, plan), 205) == 60,
        u64_le(initial_pool(d, authority, mint_a, mint_b, plan), 213) == 1_000_000_000,
        u64_le(initial_pool(d, authority, mint_a, mint_b, plan), 221) == 0,
        u64_le(initial_pool(d, authority, mint_a, mint_b, plan), 229) == 0,
        initial_pool(d, authority, mint_a, mint_b, plan)[237] == plan.bump,
{
    let p = initial_pool(d, authority, mint_a, mint_b, plan);
    assert(p.subrange(0, 32) =~= authority@);
    assert(p.subrange(32, 64) =~= mint_a@);
    assert(p.subrange(64, 96) =~= mint_b@);
    assert(p.subrange(192, 200) =~= le_bytes_u64(plan.amp));
    lemma_u64_field(p, 192, plan.amp);
    crate::le::lemma_u16_encode_decode(25);
    crate::le::lemma_u16_encode_decode(5);
    assert(p[200] == le_bytes_u16(25)[0] && p[201] == le_bytes_u16(25)[1]);
    assert(p[202] == le_bytes_u16(5)[0] && p[203] == le_bytes_u16(5)[1]);
    assert(p.subrange(205, 213) =~= le_bytes_u64(60));
    lemma_u64_field(p, 205, 60);
    assert(p.subrange(213, 221) =~= le_bytes_u64(1_000_000_000));
    lemma_u64_field(p, 213, 1_000_000_000);
    assert(p.subrange(221, 229) =~= le_bytes_u64(0));
    lemma_u64_field(p, 221, 0);
    assert(p.subrange(229, 237) =~= le_bytes_u64(0));
    lemma_u64_field(p, 229, 0);
}

/// A limiter with nothing recorded lets through any amount up to its
/// threshold, whenever it comes.
pub proof fn lemma_empty_limiter_accepts(d: Seq<u8>, amount: u64, ts: i64)
    requires
        d.len() >= 237,
        u64_le(d, 221) == 0,
        amount <= u64_le(d, 213),
    ensures
        limiter_accepts(d, amount, ts),
{
    let w = u64_le(d, 205) as u64;
    let lts = i64_of_bits(u64_le(d, 229)) as i64;
    lemma_decay_bounded(0, w, sat_sub_i64(ts as int, lts as int));
}

/// The minimum output is optional: a swap whose data holds the input amount
/// but not the whole minimum output (9 to 16 bytes) is never refused for its
/// data, and is decided exactly as the same swap sent with a minimum output
/// of 0.
pub proof fn lemma_swap_min_out_optional(accounts: Seq<AccountInput>, ix: Seq<u8>)
    requires
        9 <= ix.len() < 17,
    ensures
        swap_error(accounts, ix) != Some(ProgramError::InvalidInstructionData),
        swap_error(accounts, ix) == swap_error(
            accounts,
            ix.subrange(0, 9) + Seq::new(8, |i: int| 0u8),
        ),
{
    let ext = ix.subrange(0, 9) + Seq::new(8, |i: int| 0u8);
    assert(ext.len() == 17);
    assert(ext[1] == ix[1] && ext[2] == ix[2] && ext[3] == ix[3] && ext[4] == ix[4] && ext[5]
        == ix[5] && ext[6] == ix[6] && ext[7] == ix[7] && ext[8] == ix[8]);
    assert(u64_le(ext, 1) == u64_le(ix, 1));
    assert(ext[9] == 0 && ext[10] == 0 && ext[11] == 0 && ext[12] == 0 && ext[13] == 0 && ext[14]
        == 0 && ext[15] == 0 && ext[16] == 0);
    assert(u64_le(ext, 9) == 0);
    assert(swap_price(accounts, ext) == swap_price(accounts, ix));
}

/// A swap that names a minimum output (17 bytes of data or more) and gets
/// past the account and pause checks is refused with the slippage error
/// exactly when its priced output falls short of that minimum.
pub proof fn lemma_swap_min_out_enforced(accounts: Seq<AccountInput>, ix: Seq<u8>)
    requires
        ix.len() >= 17,
        accounts.len() >= 7,
        accounts[0].is_signer,
        accounts[1].data@[204] == 0,
    ensures
        swap_error(accounts, ix) == Some(ProgramError::Custom(7003)) <==> swap_price(accounts, ix)
            < u64_le(ix, 9),
        swap_error(accounts, ix) is None <==> swap_price(accounts, ix) >= u64_le(ix, 9),
{
}

} // verus!
