//! Account layouts of the escrow program and its error codes.
use vstd::prelude::*;
use crate::account::Address;
use crate::le::{
    le_bytes_u64, le_bytes_i64, u64_le, i64_of_bits, lemma_i64_bits_roundtrip, lemma_u64_field,
};

verus! {

/// The rate limiter's memory: the aggregate recorded at the last accepted
/// operation and when it was recorded.
pub struct WindowState {
    pub last_value: u64,
    pub last_timestamp: i64,
}

/// The rate limiter's settings. A `threshold_type` of 0 makes the limit a
/// share of the account balance (`threshold / u64::MAX`); any other value
/// makes `threshold` an absolute limit.
pub struct CircuitBreakerConfig {
    pub window_seconds: u64,
    pub threshold_type: u8,
    pub threshold: u64,
}

/// The circuit-breaker account.
pub struct CircuitBreaker {
    pub authority: Address,
    pub paused: u8,
    pub config: CircuitBreakerConfig,
    pub window: WindowState,
    pub bump: u8,
}

impl CircuitBreaker {
    pub const LEN: usize = 67;

    pub const OFFSET_AUTHORITY: usize = 0;

    pub const OFFSET_PAUSED: usize = 32;

    pub const OFFSET_WINDOW_SEC: usize = 33;

    pub const OFFSET_THRESHOLD_TYPE: usize = 41;

    pub const OFFSET_THRESHOLD: usize = 42;

    pub const OFFSET_LAST_VALUE: usize = 50;

    pub const OFFSET_LAST_TS: usize = 58;

    pub const OFFSET_BUMP: usize = 66;

    /// Whether the breaker is paused: any non-zero flag.
    pub fn is_paused(&self) -> (r: bool)
        ensures
            r == (self.paused != 0),
    {
        self.paused != 0
    }

    /// The 67 bytes that store this breaker, field by field at the offsets
    /// above.
    pub open spec fn layout(self) -> Seq<u8> {
        self.authority@ + seq![self.paused] + le_bytes_u64(self.config.window_seconds) + seq![
            self.config.threshold_type,
        ] + le_bytes_u64(self.config.threshold) + le_bytes_u64(self.window.last_value)
            + le_bytes_i64(self.window.last_timestamp) + seq![self.bump]
    }
}

/// The escrow account: who made the offer, the two mints, the amount locked
/// and the expiry.
pub struct Escrow {
    pub maker: Address,
    pub mint_a: Address,
    pub mint_b: Address,
    pub amount: u64,
    pub expiry: i64,
    pub bump: u8,
}

impl Escrow {
    pub const LEN: usize = 113;

    pub const OFFSET_MAKER: usize = 0;

    pub const OFFSET_MINT_A: usize = 32;

    pub const OFFSET_MINT_B: usize = 64;

    pub const OFFSET_AMOUNT: usize = 96;

    pub const OFFSET_EXPIRY: usize = 104;

    pub const OFFSET_BUMP: usize = 112;

    /// The 113 bytes that store this escrow, field by field at the offsets
    /// above.
    pub open spec fn layout(self) -> Seq<u8> {
        self.maker@ + self.mint_a@ + self.mint_b@ + le_bytes_u64(self.amount) + le_bytes_i64(
            self.expiry,
        ) + seq![self.bump]
    }
}

pub const ERR_UNAUTHORIZED: u64 = 6000;

pub const ERR_PAUSED: u64 = 6001;

pub const ERR_CB_TRIGGERED: u64 = 6002;

pub const ERR_INVALID_ACCOUNT: u64 = 6003;

pub const ERR_EXPIRED: u64 = 6004;

/// Reading a stored escrow gives back each of its fields: the three
/// addresses, the amount (u64 at 96), the expiry (i64 at 104) and the bump.
pub proof fn lemma_escrow_reads_back(e: Escrow)
    ensures
        e.layout().len() == Escrow::LEN,
        e.layout().subrange(0, 32) == e.maker@,
        e.layout().subrange(32, 64) == e.mint_a@,
        e.layout().subrange(64, 96) == e.mint_b@,
        u64_le(e.layout(), 96) == e.amount,
        i64_of_bits(u64_le(e.layout(), 104)) == e.expiry,
        e.layout()[112] == e.bump,
{
    let l = e.layout();
    assert(l.subrange(0, 32) =~= e.maker@);
    assert(l.subrange(32, 64) =~= e.mint_a@);
    assert(l.subrange(64, 96) =~= e.mint_b@);
    assert(l.subrange(96, 104) =~= le_bytes_u64(e.amount));
    lemma_u64_field(l, 96, e.amount);
    lemma_i64_bits_roundtrip(e.expiry);
    assert(l.subrange(104, 112) =~= le_bytes_u64(crate::le::bits_of_i64(e.expiry as int) as u64));
    lemma_u64_field(l, 104, crate::le::bits_of_i64(e.expiry as int) as u64);
}

/// Reading a stored breaker gives back each of its fields.
pub proof fn lemma_breaker_reads_back(b: CircuitBreaker)
    ensures
        b.layout().len() == CircuitBreaker::LEN,
        b.layout().subrange(0, 32) == b.authority@,
        b.layout()[32] == b.paused,
        u64_le(b.layout(), 33) == b.config.window_seconds,
        b.layout()[41] == b.config.threshold_type,
        u64_le(b.layout(), 42) == b.config.threshold,
        u64_le(b.layout(), 50) == b.window.last_value,
        i64_of_bits(u64_le(b.layout(), 58)) == b.window.last_timestamp,
        b.layout()[66] == b.bump,
{
    let l = b.layout();
    assert(l.subrange(0, 32) =~= b.authority@);
    assert(l.subrange(33, 41) =~= le_bytes_u64(b.config.window_seconds));
    lemma_u64_field(l, 33, b.config.window_seconds);
    assert(l.subrange(42, 50) =~= le_bytes_u64(b.config.threshold));
    lemma_u64_field(l, 42, b.config.threshold);
    assert(l.subrange(50, 58) =~= le_bytes_u64(b.window.last_value));
    lemma_u64_field(l, 50, b.window.last_value);
    let bits = crate::le::bits_of_i64(b.window.last_timestamp as int) as u64;
    lemma_i64_bits_roundtrip(b.window.last_timestamp);
    assert(l.subrange(58, 66) =~= le_bytes_u64(bits));
    lemma_u64_field(l, 58, bits);
}

} // verus!
