//! The escrow program guarded by a circuit breaker: a maker locks tokens in
//! a vault, a taker swaps for them, the maker can refund; an authority can
//! pause the breaker and tune its rate limit.
pub mod state;
pub mod circuit_breaker;
pub mod take;
pub mod make;
pub mod refund;
pub mod entry;
