//! A staking ledger: an administrator whitelists token kinds, users stake and
//! withdraw amounts of whitelisted tokens, and the ledger records, per user and
//! per token, the amount currently staked. Every balance change is gated on the
//! outcome of a value transfer that the surrounding environment performs.
pub mod key;
pub mod errors;
pub mod ledger;
pub mod program;
pub mod laws;
