//! The ways in which an operation on the ledger is refused.

use vstd::prelude::*;

verus! {

/// Why the ledger refused an operation. A refused operation changes nothing.
#[derive(Clone, Copy, Debug, PartialEq, Eq, Structural)]
pub enum HuntError {
    /// An admin is already stored.
    AlreadyInitialized,
    /// The caller was not authenticated, or is not the stored admin.
    Unauthorized,
    /// No hunt is registered under the id.
    HuntNotFound,
    /// The hunt does not accept answers.
    HuntInactive,
    /// The player has completed the hunt before.
    AlreadyCompleted,
    /// The reward would take the player's total out of the range of `i128`.
    RewardOverflow,
}

} // verus!
