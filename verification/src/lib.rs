//! Verified decision logic of a family of Solana programs: an escrow guarded
//! by a circuit breaker, a stable-swap pool with a rate limiter, and the
//! associated-token-account create-idempotent and recover-nested programs.
pub mod account;
pub mod error;
pub mod le;
pub mod pda;
pub mod window;
pub mod escrow;
pub mod pool;
pub mod ata;
