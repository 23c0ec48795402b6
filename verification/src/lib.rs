//! A verified ledger for a treasure-hunt program.
//!
//! The ledger registers hunts, checks the answers that players submit and
//! keeps, per player, the hunts completed and the rewards accrued. Every
//! operation is a transition of [`TreasureHuntContract`], whose contract is
//! stated over the mathematical ledger in [`ledger`].

pub mod contract;
pub mod error;
pub mod laws;
pub mod ledger;
pub mod records;
pub mod table;

pub use contract::TreasureHuntContract;
pub use error::HuntError;
pub use records::{PlayerProgress, TreasureHunt};
