//! The records that the ledger keeps, and their mathematical views.

use vstd::prelude::*;

verus! {

/// What a [`TreasureHunt`] is, as a mathematical value.
pub struct HuntView {
    pub id: u32,
    pub name: Seq<char>,
    pub answer_hash: Seq<char>,
    pub reward_amount: int,
    pub active: bool,
}

/// What a [`PlayerProgress`] is, as a mathematical value.
pub struct ProgressView {
    pub player: Seq<char>,
    pub completed_hunts: Seq<u32>,
    pub total_rewards: int,
}

impl ProgressView {
    /// The progress of a player who has completed nothing.
    pub open spec fn fresh(player: Seq<char>) -> ProgressView {
        ProgressView { player, completed_hunts: Seq::empty(), total_rewards: 0 }
    }

    /// Whether no hunt is recorded twice.
    pub open spec fn wf(self) -> bool {
        self.completed_hunts.no_duplicates()
    }

    /// The progress after one more hunt has been completed for `reward`.
    pub open spec fn credit(self, hunt_id: u32, reward: int) -> ProgressView {
        ProgressView {
            player: self.player,
            completed_hunts: self.completed_hunts.push(hunt_id),
            total_rewards: self.total_rewards + reward,
        }
    }

    /// Crediting a hunt that is not yet recorded records no hunt twice.
    pub proof fn lemma_credit_wf(self, hunt_id: u32, reward: int)
        requires
            self.wf(),
            !self.completed_hunts.contains(hunt_id),
        ensures
            self.credit(hunt_id, reward).wf(),
    {
        let before = self.completed_hunts;
        let after = before.push(hunt_id);
        assert forall|i: int, j: int|
            0 <= i < after.len() && 0 <= j < after.len() && i != j implies after[i]
            != after[j] by {
            if i < before.len() && j < before.len() {
                assert(before[i] != before[j]);
            } else if i < before.len() {
                assert(before.contains(before[i]));
            } else if j < before.len() {
                assert(before.contains(before[j]));
            }
        }
    }
}

/// A challenge: players who submit the answer whose digest is `answer_hash`
/// complete it, once each, and accrue `reward_amount`.
#[derive(Debug)]
pub struct TreasureHunt {
    pub id: u32,
    pub name: String,
    pub answer_hash: String,
    pub reward_amount: i128,
    pub active: bool,
}

impl View for TreasureHunt {
    type V = HuntView;

    open spec fn view(&self) -> HuntView {
        HuntView {
            id: self.id,
            name: self.name@,
            answer_hash: self.answer_hash@,
            reward_amount: self.reward_amount as int,
            active: self.active,
        }
    }
}

impl Clone for TreasureHunt {
    fn clone(&self) -> (copy: Self)
        ensures
            copy@ == self@,
    {
        TreasureHunt {
            id: self.id,
            name: self.name.clone(),
            answer_hash: self.answer_hash.clone(),
            reward_amount: self.reward_amount,
            active: self.active,
        }
    }
}

/// What one player has achieved: the hunts completed, in the order of
/// completion, and the sum of the rewards accrued for them.
#[derive(Debug)]
pub struct PlayerProgress {
    pub player: String,
    pub completed_hunts: Vec<u32>,
    pub total_rewards: i128,
}

impl View for PlayerProgress {
    type V = ProgressView;

    open spec fn view(&self) -> ProgressView {
        ProgressView {
            player: self.player@,
            completed_hunts: self.completed_hunts@,
            total_rewards: self.total_rewards as int,
        }
    }
}

impl Clone for PlayerProgress {
    fn clone(&self) -> (copy: Self)
        ensures
            copy@ == self@,
    {
        let completed_hunts: Vec<u32> = self.completed_hunts.clone();
        assert(completed_hunts@ =~= self.completed_hunts@);
        PlayerProgress {
            player: self.player.clone(),
            completed_hunts,
            total_rewards: self.total_rewards,
        }
    }
}

impl PlayerProgress {
    /// The record of a player who has completed nothing yet.
    pub fn new(player: String) -> (progress: Self)
        ensures
            progress@ == ProgressView::fresh(player@),
    {
        PlayerProgress { player, completed_hunts: Vec::new(), total_rewards: 0 }
    }
}

} // verus!
