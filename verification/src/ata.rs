//! The associated-token-account programs: create-idempotent makes sure a
//! wallet's account for a mint exists, recover-nested moves tokens out of an
//! account that was mistakenly owned by another associated account.
pub mod token;
pub mod create_idempotent;
pub mod recover;
