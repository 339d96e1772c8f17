//! Adding liquidity and the integer square root it relies on.
use vstd::prelude::*;
use crate::account::{Address, AccountInput, address_at};
use crate::error::{ProgramError, custom_error};
use crate::pool::state::{PoolState, ERR_PAUSED};
use crate::le::{u64_le, read_u64_at};
use crate::window::{saturating_mul_u128, saturating_mul_u64, low_u64};

verus! {

pub const DISC: u8 = 2;

/// The integer square root: the largest `r` with `r * r <= n`.
pub open spec fn floor_sqrt(n: nat) -> nat
    decreases n,
{
    if n == 0 {
        0
    } else {
        let s = floor_sqrt((n - 1) as nat);
        if (s + 1) * (s + 1) <= n {
            s + 1
        } else {
            s
        }
    }
}

/// `r` is the integer square root of `n`.
pub open spec fn is_floor_sqrt(n: int, r: int) -> bool {
    0 <= r && r * r <= n && n < (r + 1) * (r + 1)
}

/// `floor_sqrt` is the integer square root.
pub proof fn lemma_floor_sqrt(n: nat)
    ensures
        is_floor_sqrt(n as int, floor_sqrt(n) as int),
    decreases n,
{
    if n > 0 {
        lemma_floor_sqrt((n - 1) as nat);
        let s = floor_sqrt((n - 1) as nat) as int;
        assert((s + 1) * (s + 1) < (s + 2) * (s + 2)) by (nonlinear_arith)
            requires
                s >= 0,
        ;
    }
}

/// A number has only one integer square root.
pub proof fn lemma_floor_sqrt_unique(n: int, r1: int, r2: int)
    requires
        is_floor_sqrt(n, r1),
        is_floor_sqrt(n, r2),
    ensures
        r1 == r2,
{
    if r1 < r2 {
        assert((r1 + 1) * (r1 + 1) <= r2 * r2) by (nonlinear_arith)
            requires
                0 <= r1 < r2,
        ;
    } else if r2 < r1 {
        assert((r2 + 1) * (r2 + 1) <= r1 * r1) by (nonlinear_arith)
            requires
                0 <= r2 < r1,
        ;
    }
}

/// A Newton step from any positive guess lands at or above the root.
proof fn lemma_step_above(n: int, x: int, s: int)
    requires
        n >= 1,
        x >= 1,
        is_floor_sqrt(n, s),
    ensures
        (x + n / x) / 2 >= s,
{
    let q = n / x;
    assert(n < x * (q + 1)) by (nonlinear_arith)
        requires
            x >= 1,
            q == n / x,
    ;
    assert((x + q + 1) * (x + q + 1) >= 4 * x * (q + 1)) by (nonlinear_arith);
    assert(x + q + 1 > 2 * s) by (nonlinear_arith)
        requires
            (x + q + 1) * (x + q + 1) >= 4 * x * (q + 1),
            n < x * (q + 1),
            s * s <= n,
            s >= 0,
            x >= 1,
            q >= 0,
    ;
}

/// A Newton step from a guess above the root strictly decreases.
proof fn lemma_step_decreases(n: int, x: int, s: int)
    requires
        n >= 1,
        x > s,
        is_floor_sqrt(n, s),
    ensures
        (x + n / x) / 2 < x,
{
    assert(x * x > n) by (nonlinear_arith)
        requires
            x >= s + 1,
            s >= 0,
            n < (s + 1) * (s + 1),
    ;
    assert(n / x < x) by (nonlinear_arith)
        requires
            x * x > n,
            x >= 1,
            n >= 0,
    ;
}

/// The step from a guess between the root and half of `n + 1` stays within
/// `u128`.
proof fn lemma_step_fits(n: int, x: int, s: int)
    requires
        1 <= n < u128::MAX,
        is_floor_sqrt(n, s),
        s <= x,
        2 * x <= n + 1,
    ensures
        x + n / x <= u128::MAX,
{
    assert(s >= 1) by (nonlinear_arith)
        requires
            is_floor_sqrt(n, s),
            n >= 1,
    ;
    assert(s < 0x1_0000_0000_0000_0000) by (nonlinear_arith)
        requires
            s * s <= n,
            n < u128::MAX,
            s >= 1,
    ;
    assert(n / x <= n / s) by (nonlinear_arith)
        requires
            1 <= s <= x,
            n >= 0,
    ;
    assert(n <= s * (s + 2)) by (nonlinear_arith)
        requires
            n < (s + 1) * (s + 1),
    ;
    assert(n / s <= s + 2) by (nonlinear_arith)
        requires
            n <= s * (s + 2),
            s >= 1,
            n >= 0,
    ;
}

/// The integer square root of `n`, by Newton's iteration from `n`.
pub fn approx_sqrt(n: u128) -> (r: u64)
    requires
        n < u128::MAX,
    ensures
        r == floor_sqrt(n as nat),
        is_floor_sqrt(n as int, r as int),
{
    proof {
        lemma_floor_sqrt(n as nat);
    }
    if n == 0 {
        return 0;
    }
    let ghost s = floor_sqrt(n as nat) as int;
    let mut x = n;
    let mut y = (x + 1) / 2;
    assert(n / n == 1) by (nonlinear_arith)
        requires
            n >= 1,
    ;
    assert(1 <= s <= n) by (nonlinear_arith)
        requires
            is_floor_sqrt(n as int, s),
            n >= 1,
    ;
    while y < x
        invariant
            1 <= n < u128::MAX,
            is_floor_sqrt(n as int, s),
            1 <= s <= x,
            x >= 1,
            x == n || 2 * x <= n + 1,
            y == (x + n / x) / 2,
        decreases x,
    {
        proof {
            lemma_step_above(n as int, x as int, s);
            if x == n {
                assert(n / n == 1) by (nonlinear_arith)
                    requires
                        n >= 1,
                ;
            }
        }
        x = y;
        proof {
            lemma_step_fits(n as int, x as int, s);
        }
        y = (x + n / x) / 2;
    }
    proof {
        if x > s {
            lemma_step_decreases(n as int, x as int, s);
        }
        assert(s < 0x1_0000_0000_0000_0000) by (nonlinear_arith)
            requires
                s * s <= n,
                n < u128::MAX,
                s >= 0,
        ;
    }
    x as u64
}

/// Reads the little-endian `u64` at `data[offset .. offset + 8]`, if `data`
/// is long enough.
pub fn read_u64(data: &[u8], offset: usize) -> (r: Option<u64>)
    requires
        offset + 8 <= usize::MAX,
    ensures
        data@.len() < offset + 8 ==> r is None,
        data@.len() >= offset + 8 ==> r == Some(u64_le(data@, offset as int) as u64),
{
    if data.len() < offset + 8 {
        return None;
    }
    Some(read_u64_at(data, offset))
}

/// The balance of a token account (u64 at 64).
pub fn read_u64_tok(data: &[u8]) -> (r: u64)
    requires
        data@.len() >= 72,
    ensures
        r == u64_le(data@, 64),
{
    read_u64_at(data, 64)
}

/// The supply of a mint (u64 at 36).
pub fn read_u64_lp(data: &[u8]) -> (r: u64)
    requires
        data@.len() >= 44,
    ensures
        r == u64_le(data@, 36),
{
    read_u64_at(data, 36)
}

/// `x`, or 1 when `x` is 0.
pub open spec fn at_least_one(x: u64) -> int {
    if x > 1 {
        x as int
    } else {
        1
    }
}

/// The LP tokens a deposit of `a` and `b` mints. Into an empty pool (no LP
/// supply): the integer square root of `a * b`, times one million,
/// saturating. Otherwise the supply times the smaller of the two deposit
/// ratios (scaled by one million), divided by one million, keeping the low
/// 64 bits.
pub open spec fn lp_minted(a: u64, b: u64, reserve_a: u64, reserve_b: u64, supply: u64) -> int {
    if supply == 0 {
        let m = floor_sqrt((a * b) as nat) * 1_000_000;
        if m > u64::MAX {
            u64::MAX as int
        } else {
            m as int
        }
    } else {
        let ratio_a = (a * 1_000_000) / at_least_one(reserve_a);
        let ratio_b = (b * 1_000_000) / at_least_one(reserve_b);
        let m = if ratio_a <= ratio_b {
            ratio_a
        } else {
            ratio_b
        };
        let p = if supply * m > u128::MAX {
            u128::MAX as int
        } else {
            supply * m
        };
        (p / 1_000_000) % 0x1_0000_0000_0000_0000
    }
}

/// Computes the LP tokens to mint (see `lp_minted`).
pub fn lp_to_mint(a: u64, b: u64, reserve_a: u64, reserve_b: u64, supply: u64) -> (r: u64)
    ensures
        r == lp_minted(a, b, reserve_a, reserve_b, supply),
{
    if supply == 0 {
        assert((a as int) * (b as int) <= u64::MAX * u64::MAX) by (nonlinear_arith)
            requires
                0 <= a <= u64::MAX,
                0 <= b <= u64::MAX,
        ;
        let product = saturating_mul_u128(a as u128, b as u128);
        saturating_mul_u64(approx_sqrt(product), 1_000_000)
    } else {
        let ra: u64 = if reserve_a > 1 {
            reserve_a
        } else {
            1
        };
        let rb: u64 = if reserve_b > 1 {
            reserve_b
        } else {
            1
        };
        let ratio_a = (a as u128 * 1_000_000) / (ra as u128);
        let ratio_b = (b as u128 * 1_000_000) / (rb as u128);
        let min_ratio = if ratio_a <= ratio_b {
            ratio_a
        } else {
            ratio_b
        };
        low_u64(saturating_mul_u128(supply as u128, min_ratio) / 1_000_000)
    }
}

/// What an accepted deposit goes on to do: move `amount_a` and `amount_b`
/// from the user to the reserves, then mint `lp_to_mint` LP tokens to the
/// user, signing as the pool with its seeds (the two mints and the bump).
pub struct AddPlan {
    pub amount_a: u64,
    pub amount_b: u64,
    pub lp_to_mint: u64,
    pub bump: u8,
    pub mint_a: Address,
    pub mint_b: Address,
}

/// The amount at `off` of the instruction data, 0 when absent.
pub open spec fn amount_or_zero(ix: Seq<u8>, off: int) -> u64 {
    if ix.len() >= off + 8 {
        u64_le(ix, off) as u64
    } else {
        0
    }
}

/// The first check a deposit fails, if any. Accounts: user (signer), pool,
/// user's accounts for a and b, reserves a and b, LP mint, user's LP account,
/// token program.
pub open spec fn add_error(accounts: Seq<AccountInput>) -> Option<ProgramError> {
    if accounts.len() < 9 {
        Some(ProgramError::NotEnoughAccountKeys)
    } else if !accounts[0].is_signer {
        Some(ProgramError::MissingRequiredSignature)
    } else if accounts[1].data@[204] != 0 {
        Some(ProgramError::Custom(7000))
    } else {
        None
    }
}

/// Decides a deposit into the pool: the pool must not be paused. Amounts
/// (u64 at 1 and 9) default to 0.
pub fn process_add(accounts: &[AccountInput], ix_data: &[u8]) -> (r: Result<AddPlan, ProgramError>)
    requires
        accounts@.len() >= 9 && accounts@[0].is_signer ==> accounts@[1].data@.len() >= 205,
        add_error(accounts@) is None ==> {
            &&& accounts@[1].data@.len() >= PoolState::LEN
            &&& accounts@[4].data@.len() >= 72
            &&& accounts@[5].data@.len() >= 72
            &&& accounts@[6].data@.len() >= 44
        },
    ensures
        add_error(accounts@) matches Some(e) ==> r == Err::<AddPlan, ProgramError>(e),
        add_error(accounts@) is None ==> (r matches Ok(p) && {
            let pool = accounts@[1].data@;
            &&& p.amount_a == amount_or_zero(ix_data@, 1)
            &&& p.amount_b == amount_or_zero(ix_data@, 9)
            &&& p.lp_to_mint == lp_minted(
                p.amount_a,
                p.amount_b,
                u64_le(accounts@[4].data@, 64) as u64,
                u64_le(accounts@[5].data@, 64) as u64,
                u64_le(accounts@[6].data@, 36) as u64,
            )
            &&& p.bump == pool[237]
            &&& p.mint_a@ == pool.subrange(32, 64)
            &&& p.mint_b@ == pool.subrange(64, 96)
        }),
{
    if accounts.len() < 9 {
        return Err(ProgramError::NotEnoughAccountKeys);
    }
    let user = &accounts[0];
    let pool_state = &accounts[1];
    let reserve_a = &accounts[4];
    let reserve_b = &accounts[5];
    let lp_mint = &accounts[6];
    if !user.is_signer {
        return Err(ProgramError::MissingRequiredSignature);
    }
    let pool_data = pool_state.data.as_slice();
    if pool_data[PoolState::OFFSET_PAUSED] != 0 {
        return Err(custom_error(ERR_PAUSED));
    }
    let amount_a = match read_u64(ix_data, 1) {
        Some(v) => v,
        None => 0,
    };
    let amount_b = match read_u64(ix_data, 9) {
        Some(v) => v,
        None => 0,
    };
    let reserve_a_amt = read_u64_tok(reserve_a.data.as_slice());
    let reserve_b_amt = read_u64_tok(reserve_b.data.as_slice());
    let lp_supply = read_u64_lp(lp_mint.data.as_slice());
    let lp = lp_to_mint(amount_a, amount_b, reserve_a_amt, reserve_b_amt, lp_supply);
    let bump = pool_data[PoolState::OFFSET_BUMP];
    let mint_a = address_at(pool_data, PoolState::OFFSET_MINT_A);
    let mint_b = address_at(pool_data, PoolState::OFFSET_MINT_B);
    Ok(AddPlan { amount_a, amount_b, lp_to_mint: lp, bump, mint_a, mint_b })
}

/// Equal fractions have equal rounded-down scaled quotients: when
/// `x * rb == y * ra`, `x / ra` and `y / rb` round down to the same integer.
proof fn lemma_equal_fractions_floor(x: int, y: int, ra: int, rb: int)
    requires
        ra > 0,
        rb > 0,
        x >= 0,
        y >= 0,
        x * rb == y * ra,
    ensures
        x / ra == y / rb,
{
    let q = x / ra;
    assert(q * ra <= x < (q + 1) * ra) by (nonlinear_arith)
        requires
            ra > 0,
            q == x / ra,
    ;
    assert(q * ra * rb <= x * rb < (q + 1) * ra * rb) by (nonlinear_arith)
        requires
            q * ra <= x < (q + 1) * ra,
            rb > 0,
    ;
    assert(q * rb <= y < (q + 1) * rb) by (nonlinear_arith)
        requires
            q * ra * rb <= y * ra < (q + 1) * ra * rb,
            ra > 0,
    ;
    assert(y / rb == q) by (nonlinear_arith)
        requires
            q * rb <= y < (q + 1) * rb,
            rb > 0,
    ;
}

/// A deposit into a pool with LP supply is measured against each token's
/// own reserve: a deposit in proportion to the reserves (`a * reserve_b ==
/// b * reserve_a`, both reserves non-zero) mints the supply times its share
/// of the A reserve, `a * 10^6 / reserve_a` (rounded down), divided by
/// 10^6 (rounded down), whenever that amount stays within the integer
/// widths.
pub proof fn lemma_proportional_deposit_mints_share(
    a: u64,
    b: u64,
    reserve_a: u64,
    reserve_b: u64,
    supply: u64,
)
    requires
        supply > 0,
        reserve_a > 0,
        reserve_b > 0,
        a * reserve_b == b * reserve_a,
        supply * ((a * 1_000_000) / (reserve_a as int)) <= u128::MAX,
        (supply * ((a * 1_000_000) / (reserve_a as int))) / 1_000_000 <= u64::MAX,
    ensures
        lp_minted(a, b, reserve_a, reserve_b, supply) == (supply * ((a * 1_000_000) / (
        reserve_a as int))) / 1_000_000,
{
    let x = a * 1_000_000;
    let y = b * 1_000_000;
    assert(x * reserve_b == y * reserve_a) by (nonlinear_arith)
        requires
            x == a * 1_000_000,
            y == b * 1_000_000,
            a * reserve_b == b * reserve_a,
    ;
    lemma_equal_fractions_floor(x, y, reserve_a as int, reserve_b as int);
    assert(at_least_one(reserve_a) == reserve_a);
    assert(at_least_one(reserve_b) == reserve_b || reserve_b == 1);
}

/// A deposit never mints more LP tokens than its share of either reserve
/// gives: at most the supply times `a * 10^6 / reserve_a`, and at most the
/// supply times `b * 10^6 / reserve_b` (each rounded down, then divided by
/// 10^6), for a pool with supply and non-zero reserves.
pub proof fn lemma_deposit_within_each_share(
    a: u64,
    b: u64,
    reserve_a: u64,
    reserve_b: u64,
    supply: u64,
)
    requires
        supply > 0,
        reserve_a > 0,
        reserve_b > 0,
    ensures
        lp_minted(a, b, reserve_a, reserve_b, supply) <= (supply * ((a * 1_000_000) / (
        reserve_a as int))) / 1_000_000,
        lp_minted(a, b, reserve_a, reserve_b, supply) <= (supply * ((b * 1_000_000) / (
        reserve_b as int))) / 1_000_000,
{
    let ra = (a * 1_000_000) / at_least_one(reserve_a);
    let rb = (b * 1_000_000) / at_least_one(reserve_b);
    let m = if ra <= rb {
        ra
    } else {
        rb
    };
    assert(at_least_one(reserve_a) == reserve_a || reserve_a == 1);
    assert(at_least_one(reserve_b) == reserve_b || reserve_b == 1);
    assert(0 <= ra && 0 <= rb) by (nonlinear_arith)
        requires
            ra == (a * 1_000_000) / at_least_one(reserve_a),
            rb == (b * 1_000_000) / at_least_one(reserve_b),
            at_least_one(reserve_a) >= 1,
            at_least_one(reserve_b) >= 1,
            a >= 0,
            b >= 0,
    ;
    assert(supply * m <= supply * ra && supply * m <= supply * rb) by (nonlinear_arith)
        requires
            0 <= m <= ra,
            m <= rb,
            supply >= 0,
    ;
    let p = if supply * m > u128::MAX {
        u128::MAX as int
    } else {
        supply * m
    };
    assert(0 <= p <= supply * m) by (nonlinear_arith)
        requires
            p == (if supply * m > u128::MAX { u128::MAX as int } else { supply * m }),
            m >= 0,
            supply >= 0,
    ;
    assert(p / 1_000_000 <= (supply * ra) / 1_000_000 && p / 1_000_000 <= (supply * rb)
        / 1_000_000) by (nonlinear_arith)
        requires
            0 <= p <= supply * m,
            supply * m <= supply * ra,
            supply * m <= supply * rb,
    ;
    assert((p / 1_000_000) % 0x1_0000_0000_0000_0000 <= p / 1_000_000) by (nonlinear_arith)
        requires
            p >= 0,
    ;
}

} // verus!
