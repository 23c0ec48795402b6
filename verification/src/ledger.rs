//! The ledger as a mathematical value, and what each operation makes of it.
//!
//! Every operation of the executable ledger is specified here twice: by its
//! outcome (what the caller is told) and by the ledger that it leaves. A
//! refused operation leaves the ledger as it was.

use vstd::prelude::*;
use crate::error::HuntError;
use crate::records::{HuntView, ProgressView};

verus! {

/// The digest under which an answer is compared with a hunt's stored digest.
///
/// The digest of an answer is the answer itself.
pub open spec fn digest(answer: Seq<char>) -> Seq<char> {
    answer
}

/// Whether `total` is a value of `i128`.
pub open spec fn fits_i128(total: int) -> bool {
    i128::MIN <= total <= i128::MAX
}

/// A mutating operation with its arguments.
pub enum Call {
    Initialize { admin: Seq<char> },
    CreateHunt {
        authenticated: bool,
        admin: Seq<char>,
        id: u32,
        name: Seq<char>,
        answer_hash: Seq<char>,
        reward_amount: int,
    },
    SubmitAnswer { authenticated: bool, player: Seq<char>, hunt_id: u32, answer: Seq<char> },
}

/// A completion as it was rewarded: the hunt, and the reward that the hunt
/// carried when the answer was accepted.
pub struct Credit {
    pub hunt_id: u32,
    pub reward: int,
}

/// The hunts of a list of credits, in order.
pub open spec fn credited_hunts(credits: Seq<Credit>) -> Seq<u32> {
    credits.map_values(|credit: Credit| credit.hunt_id)
}

/// The sum of the rewards of a list of credits.
pub open spec fn credited_total(credits: Seq<Credit>) -> int
    decreases credits.len(),
{
    if credits.len() == 0 {
        0
    } else {
        credited_total(credits.drop_last()) + credits.last().reward
    }
}

/// The whole state: the admin, the hunts in the order of their creation, the
/// hunt registered under each id and the progress recorded for each player.
pub struct LedgerView {
    pub admin: Option<Seq<char>>,
    pub hunt_ids: Seq<u32>,
    pub hunts: Map<u32, HuntView>,
    pub progress: Map<Seq<char>, ProgressView>,
}

impl LedgerView {
    /// The ledger on which nothing has happened yet.
    pub open spec fn fresh() -> LedgerView {
        LedgerView {
            admin: None,
            hunt_ids: Seq::empty(),
            hunts: Map::empty(),
            progress: Map::empty(),
        }
    }

    /// Every record is filed under its own key, and no player has a hunt
    /// recorded twice.
    pub open spec fn wf(self) -> bool {
        &&& forall|id: u32| #[trigger] self.hunts.contains_key(id) ==> self.hunts[id].id == id
        &&& forall|player: Seq<char>| #[trigger]
            self.progress.contains_key(player) ==> {
                &&& self.progress[player].player == player
                &&& self.progress[player].wf()
            }
    }

    /// What is known of a player: the record, or the empty progress of a
    /// player who has none.
    pub open spec fn progress_of(self, player: Seq<char>) -> ProgressView {
        if self.progress.contains_key(player) {
            self.progress[player]
        } else {
            ProgressView::fresh(player)
        }
    }

    /// Who may call admin-only operations: a caller that has proved control
    /// of `principal`, where `principal` is the stored admin.
    pub open spec fn admits_admin(self, authenticated: bool, principal: Seq<char>) -> bool {
        authenticated && self.admin == Some(principal)
    }

    /// What `initialize` tells its caller.
    pub open spec fn initialize_outcome(self) -> Result<(), HuntError> {
        if self.admin is Some {
            Err(HuntError::AlreadyInitialized)
        } else {
            Ok(())
        }
    }

    /// The ledger that `initialize` leaves.
    pub open spec fn after_initialize(self, admin: Seq<char>) -> LedgerView {
        if self.initialize_outcome() is Ok {
            LedgerView { admin: Some(admin), ..self }
        } else {
            self
        }
    }

    /// What `create_hunt` tells its caller.
    pub open spec fn create_hunt_outcome(self, authenticated: bool, admin: Seq<char>) -> Result<
        (),
        HuntError,
    > {
        if self.admits_admin(authenticated, admin) {
            Ok(())
        } else {
            Err(HuntError::Unauthorized)
        }
    }

    /// The ledger that `create_hunt` leaves: the hunt is filed under its id,
    /// in place of any hunt that was there, and the id is appended to the
    /// list of hunts whether or not it was in it.
    pub open spec fn after_create_hunt(
        self,
        authenticated: bool,
        admin: Seq<char>,
        id: u32,
        name: Seq<char>,
        answer_hash: Seq<char>,
        reward_amount: int,
    ) -> LedgerView {
        if self.create_hunt_outcome(authenticated, admin) is Ok {
            LedgerView {
                hunt_ids: self.hunt_ids.push(id),
                hunts: self.hunts.insert(
                    id,
                    HuntView { id, name, answer_hash, reward_amount, active: true },
                ),
                ..self
            }
        } else {
            self
        }
    }

    /// What `submit_answer` tells its caller. The checks are made in this
    /// order, and the first that fails decides.
    pub open spec fn submit_answer_outcome(
        self,
        authenticated: bool,
        player: Seq<char>,
        hunt_id: u32,
        answer: Seq<char>,
    ) -> Result<bool, HuntError> {
        if !authenticated {
            Err(HuntError::Unauthorized)
        } else if !self.hunts.contains_key(hunt_id) {
            Err(HuntError::HuntNotFound)
        } else if !self.hunts[hunt_id].active {
            Err(HuntError::HuntInactive)
        } else if self.progress_of(player).completed_hunts.contains(hunt_id) {
            Err(HuntError::AlreadyCompleted)
        } else if digest(answer) != self.hunts[hunt_id].answer_hash {
            Ok(false)
        } else if !fits_i128(
            self.progress_of(player).total_rewards + self.hunts[hunt_id].reward_amount,
        ) {
            Err(HuntError::RewardOverflow)
        } else {
            Ok(true)
        }
    }

    /// The ledger that `submit_answer` leaves: on a correct answer the hunt
    /// is appended to the player's completed hunts and its reward is added
    /// to the player's total; on any other outcome nothing changes.
    pub open spec fn after_submit_answer(
        self,
        authenticated: bool,
        player: Seq<char>,
        hunt_id: u32,
        answer: Seq<char>,
    ) -> LedgerView {
        if self.submit_answer_outcome(authenticated, player, hunt_id, answer) == Ok::<
            bool,
            HuntError,
        >(true) {
            LedgerView {
                progress: self.progress.insert(
                    player,
                    self.progress_of(player).credit(hunt_id, self.hunts[hunt_id].reward_amount),
                ),
                ..self
            }
        } else {
            self
        }
    }

    /// The ledger that a call leaves.
    pub open spec fn after(self, call: Call) -> LedgerView {
        match call {
            Call::Initialize { admin } => self.after_initialize(admin),
            Call::CreateHunt { authenticated, admin, id, name, answer_hash, reward_amount } =>
                self.after_create_hunt(authenticated, admin, id, name, answer_hash, reward_amount),
            Call::SubmitAnswer { authenticated, player, hunt_id, answer } =>
                self.after_submit_answer(authenticated, player, hunt_id, answer),
        }
    }

    /// The ledger that a series of calls leaves, made one after another.
    pub open spec fn after_all(self, calls: Seq<Call>) -> LedgerView
        decreases calls.len(),
    {
        if calls.len() == 0 {
            self
        } else {
            self.after_all(calls.drop_last()).after(calls.last())
        }
    }

    /// What a call made on this ledger credits to the player: something only
    /// if it is an answer of that player that is accepted.
    pub open spec fn credit_from(self, call: Call, player: Seq<char>) -> Option<Credit> {
        match call {
            Call::SubmitAnswer { authenticated, player: submitter, hunt_id, answer } => {
                if submitter == player && self.submit_answer_outcome(
                    authenticated,
                    submitter,
                    hunt_id,
                    answer,
                ) == Ok::<bool, HuntError>(true) {
                    Some(Credit { hunt_id, reward: self.hunts[hunt_id].reward_amount })
                } else {
                    None
                }
            },
            _ => None,
        }
    }

    /// What a series of calls credits to the player, in order, each call made
    /// on the ledger that the calls before it have left.
    pub open spec fn credits_from(self, calls: Seq<Call>, player: Seq<char>) -> Seq<Credit>
        decreases calls.len(),
    {
        if calls.len() == 0 {
            Seq::empty()
        } else {
            let earlier = calls.drop_last();
            match self.after_all(earlier).credit_from(calls.last(), player) {
                Some(credit) => self.credits_from(earlier, player).push(credit),
                None => self.credits_from(earlier, player),
            }
        }
    }

    /// What `get_hunt` returns.
    pub open spec fn get_hunt(self, hunt_id: u32) -> Result<HuntView, HuntError> {
        if self.hunts.contains_key(hunt_id) {
            Ok(self.hunts[hunt_id])
        } else {
            Err(HuntError::HuntNotFound)
        }
    }
}

} // verus!
