//! The stable-swap pool with a rate limiter: an authority creates a pool for
//! two mints, users add liquidity and swap, the authority can pause the
//! pool, tune the limiter and withdraw everything in an emergency.
pub mod state;
pub mod admin;
pub mod liquidity;
pub mod swap;
pub mod entry;
