//! The executable ledger.
//!
//! [`TreasureHuntContract`] keeps the admin, the list of hunt ids, the hunts
//! and the players' progress. Each operation states its outcome and the
//! ledger that it leaves over the view of the ledger, a
//! [`LedgerView`](crate::ledger::LedgerView).

use vstd::prelude::*;
use crate::error::HuntError;
use crate::ledger::{digest, LedgerView};
use crate::records::{HuntView, PlayerProgress, ProgressView, TreasureHunt};
use crate::table::{
    keys_unique, lemma_table_at, lemma_table_push, lemma_table_update, lemma_table_without,
    place_of, table,
};

verus! {

/// The hunts of a list, each with the id under which it is filed.
pub open spec fn hunt_entries(hunts: Seq<TreasureHunt>) -> Seq<(u32, HuntView)> {
    hunts.map_values(|hunt: TreasureHunt| (hunt.id, hunt@))
}

/// The records of a list, each with the player under whom it is filed.
pub open spec fn progress_entries(records: Seq<PlayerProgress>) -> Seq<(Seq<char>, ProgressView)> {
    records.map_values(|record: PlayerProgress| (record.player@, record@))
}

/// The view of an optional principal.
pub open spec fn principal_view(principal: Option<String>) -> Option<Seq<char>> {
    match principal {
        Some(name) => Some(name@),
        None => None,
    }
}

/// Whether stored records can make up one ledger: no two hunts have one id,
/// no two records one player, and no record lists a hunt twice.
pub open spec fn records_consistent(
    hunts: Seq<TreasureHunt>,
    records: Seq<PlayerProgress>,
) -> bool {
    &&& keys_unique(hunt_entries(hunts))
    &&& keys_unique(progress_entries(records))
    &&& forall|i: int| 0 <= i < records.len() ==> (#[trigger] records[i])@.wf()
}

/// The ledger of a treasure-hunt program: who administers it, which hunts
/// exist and what each player has achieved.
pub struct TreasureHuntContract {
    admin: Option<String>,
    hunt_ids: Vec<u32>,
    hunts: Vec<TreasureHunt>,
    progress: Vec<PlayerProgress>,
}

impl View for TreasureHuntContract {
    type V = LedgerView;

    closed spec fn view(&self) -> LedgerView {
        LedgerView {
            admin: principal_view(self.admin),
            hunt_ids: self.hunt_ids@,
            hunts: table(hunt_entries(self.hunts@)),
            progress: table(progress_entries(self.progress@)),
        }
    }
}

impl TreasureHuntContract {
    /// No two hunts are kept under one id, no two records under one player,
    /// and no record lists a hunt twice.
    pub closed spec fn wf(&self) -> bool {
        records_consistent(self.hunts@, self.progress@)
    }

    /// A well-formed ledger has a well-formed view.
    pub proof fn lemma_view_wf(&self)
        requires
            self.wf(),
        ensures
            self@.wf(),
    {
        let hunts = hunt_entries(self.hunts@);
        assert forall|id: u32| #[trigger] self@.hunts.contains_key(id) implies self@.hunts[id].id
            == id by {
            let i = place_of(hunts, id);
            assert(hunts[i].0 == id);
        }
        let records = progress_entries(self.progress@);
        assert forall|player: Seq<char>| #[trigger]
            self@.progress.contains_key(player) implies self@.progress[player].player == player
            && self@.progress[player].wf() by {
            let i = place_of(records, player);
            assert(records[i].0 == player);
            assert(self.progress@[i]@.wf());
        }
    }

    /// The ledger on which nothing has happened yet.
    pub fn new() -> (ledger: Self)
        ensures
            ledger.wf(),
            ledger@ == LedgerView::fresh(),
            ledger@.wf(),
    {
        let ledger = TreasureHuntContract {
            admin: None,
            hunt_ids: Vec::new(),
            hunts: Vec::new(),
            progress: Vec::new(),
        };
        assert(ledger@.hunts =~= Map::empty());
        assert(ledger@.progress =~= Map::empty());
        proof {
            ledger.lemma_view_wf();
        }
        ledger
    }

    /// The ledger that holds the given admin, list of hunt ids, hunts and
    /// records of progress, as they were stored; `None` if the hunts and
    /// records are not consistent.
    pub fn restore(
        admin: Option<String>,
        hunt_ids: Vec<u32>,
        hunts: Vec<TreasureHunt>,
        progress: Vec<PlayerProgress>,
    ) -> (ledger: Option<Self>)
        ensures
            ledger is Some <==> records_consistent(hunts@, progress@),
            ledger matches Some(restored) ==> {
                &&& restored.wf()
                &&& restored@.wf()
                &&& restored@ == (LedgerView {
                    admin: principal_view(admin),
                    hunt_ids: hunt_ids@,
                    hunts: table(hunt_entries(hunts@)),
                    progress: table(progress_entries(progress@)),
                })
            },
    {
        if hunts_distinct(&hunts) && players_distinct(&progress) && completions_distinct(
            &progress,
        ) {
            let ledger = TreasureHuntContract { admin, hunt_ids, hunts, progress };
            proof {
                ledger.lemma_view_wf();
            }
            Some(ledger)
        } else {
            None
        }
    }

    /// The place of the hunt with the id, if there is one.
    fn find_hunt(&self, hunt_id: u32) -> (place: Option<usize>)
        requires
            self.wf(),
        ensures
            match place {
                Some(i) => {
                    &&& i < self.hunts@.len()
                    &&& self.hunts@[i as int].id == hunt_id
                    &&& self@.hunts.contains_key(hunt_id)
                    &&& self@.hunts[hunt_id] == self.hunts@[i as int]@
                },
                None => !self@.hunts.contains_key(hunt_id),
            },
    {
        let mut i: usize = 0;
        while i < self.hunts.len()
            invariant
                self.wf(),
                i <= self.hunts@.len(),
                forall|j: int| 0 <= j < i ==> (#[trigger] self.hunts@[j]).id != hunt_id,
            decreases self.hunts@.len() - i,
        {
            if self.hunts[i].id == hunt_id {
                proof {
                    lemma_table_at(hunt_entries(self.hunts@), i as int);
                }
                return Some(i);
            }
            i = i + 1;
        }
        proof {
            lemma_table_without(hunt_entries(self.hunts@), hunt_id);
        }
        None
    }

    /// The place of the player's record, if there is one.
    fn find_progress(&self, player: &String) -> (place: Option<usize>)
        requires
            self.wf(),
        ensures
            match place {
                Some(i) => {
                    &&& i < self.progress@.len()
                    &&& self.progress@[i as int].player@ == player@
                    &&& self@.progress.contains_key(player@)
                    &&& self@.progress[player@] == self.progress@[i as int]@
                },
                None => !self@.progress.contains_key(player@),
            },
    {
        let mut i: usize = 0;
        while i < self.progress.len()
            invariant
                self.wf(),
                i <= self.progress@.len(),
                forall|j: int| 0 <= j < i ==> (#[trigger] self.progress@[j]).player@ != player@,
            decreases self.progress@.len() - i,
        {
            if self.progress[i].player == *player {
                proof {
                    lemma_table_at(progress_entries(self.progress@), i as int);
                }
                return Some(i);
            }
            i = i + 1;
        }
        proof {
            lemma_table_without(progress_entries(self.progress@), player@);
        }
        None
    }

    /// Stores the admin, once: on a ledger that has an admin the call is
    /// refused with `AlreadyInitialized` and changes nothing.
    pub fn initialize(&mut self, admin: String) -> (outcome: Result<(), HuntError>)
        requires
            old(self).wf(),
        ensures
            final(self).wf(),
            final(self)@.wf(),
            outcome == old(self)@.initialize_outcome(),
            final(self)@ == old(self)@.after_initialize(admin@),
    {
        proof {
            self.lemma_view_wf();
        }
        if self.admin.is_some() {
            return Err(HuntError::AlreadyInitialized);
        }
        self.admin = Some(admin);
        proof {
            self.lemma_view_wf();
        }
        Ok(())
    }

    /// Registers a hunt, active from the start, for the stored admin only.
    ///
    /// `authenticated` says whether the caller has proved control of
    /// `admin`. Unless it has, and `admin` is the stored admin, the call is
    /// refused with `Unauthorized` and changes nothing. A hunt that was
    /// registered under `id` is replaced, and `id` is appended to the list of
    /// hunt ids in either case.
    pub fn create_hunt(
        &mut self,
        authenticated: bool,
        admin: String,
        id: u32,
        name: String,
        answer_hash: String,
        reward_amount: i128,
    ) -> (outcome: Result<(), HuntError>)
        requires
            old(self).wf(),
        ensures
            final(self).wf(),
            final(self)@.wf(),
            outcome == old(self)@.create_hunt_outcome(authenticated, admin@),
            final(self)@ == old(self)@.after_create_hunt(
                authenticated,
                admin@,
                id,
                name@,
                answer_hash@,
                reward_amount as int,
            ),
    {
        proof {
            self.lemma_view_wf();
        }
        if !authenticated {
            return Err(HuntError::Unauthorized);
        }
        let is_admin: bool = match &self.admin {
            Some(stored) => *stored == admin,
            None => false,
        };
        if !is_admin {
            return Err(HuntError::Unauthorized);
        }
        let hunt = TreasureHunt { id, name, answer_hash, reward_amount, active: true };
        let ghost entries = hunt_entries(self.hunts@);
        match self.find_hunt(id) {
            Some(i) => {
                proof {
                    lemma_table_update(entries, i as int, hunt@);
                }
                self.hunts.set(i, hunt);
                assert(hunt_entries(self.hunts@) =~= entries.update(i as int, (id, hunt@)));
            },
            None => {
                proof {
                    lemma_table_push(entries, id, hunt@);
                }
                self.hunts.push(hunt);
                assert(hunt_entries(self.hunts@) =~= entries.push((id, hunt@)));
            },
        }
        self.hunt_ids.push(id);
        proof {
            self.lemma_view_wf();
        }
        Ok(())
    }

    /// Checks a player's answer to a hunt and, if it is right, records the
    /// completion and accrues the reward.
    ///
    /// `authenticated` says whether the caller has proved control of
    /// `player`. The outcome is `Ok(true)` for the right answer, `Ok(false)`
    /// for a wrong one, and an error where the call is refused; only on
    /// `Ok(true)` does the ledger change.
    pub fn submit_answer(
        &mut self,
        authenticated: bool,
        player: String,
        hunt_id: u32,
        answer: String,
    ) -> (outcome: Result<bool, HuntError>)
        requires
            old(self).wf(),
        ensures
            final(self).wf(),
            final(self)@.wf(),
            outcome == old(self)@.submit_answer_outcome(authenticated, player@, hunt_id, answer@),
            final(self)@ == old(self)@.after_submit_answer(
                authenticated,
                player@,
                hunt_id,
                answer@,
            ),
    {
        proof {
            self.lemma_view_wf();
        }
        if !authenticated {
            return Err(HuntError::Unauthorized);
        }
        let hunt_place: usize = match self.find_hunt(hunt_id) {
            Some(i) => i,
            None => {
                return Err(HuntError::HuntNotFound);
            },
        };
        if !self.hunts[hunt_place].active {
            return Err(HuntError::HuntInactive);
        }
        let place: Option<usize> = self.find_progress(&player);
        let mut record: PlayerProgress = match place {
            Some(i) => self.progress[i].clone(),
            None => PlayerProgress::new(player),
        };
        if contains_id(&record.completed_hunts, hunt_id) {
            return Err(HuntError::AlreadyCompleted);
        }
        let answer_hash: String = Self::hash_answer(&answer);
        if answer_hash != self.hunts[hunt_place].answer_hash {
            return Ok(false);
        }
        let total: i128 = match record.total_rewards.checked_add(
            self.hunts[hunt_place].reward_amount,
        ) {
            Some(total) => total,
            None => {
                return Err(HuntError::RewardOverflow);
            },
        };
        let ghost before = record@;
        let ghost reward = self.hunts@[hunt_place as int].reward_amount as int;
        let ghost entries = progress_entries(self.progress@);
        record.completed_hunts.push(hunt_id);
        record.total_rewards = total;
        assert(record@ == before.credit(hunt_id, reward));
        proof {
            before.lemma_credit_wf(hunt_id, reward);
        }
        match place {
            Some(i) => {
                proof {
                    lemma_table_update(entries, i as int, record@);
                }
                self.progress.set(i, record);
                assert(progress_entries(self.progress@) =~= entries.update(
                    i as int,
                    (before.player, self.progress@[i as int]@),
                ));
            },
            None => {
                proof {
                    lemma_table_push(entries, before.player, record@);
                }
                self.progress.push(record);
                assert(progress_entries(self.progress@) =~= entries.push(
                    (before.player, self.progress@[self.progress@.len() - 1]@),
                ));
            },
        }
        proof {
            self.lemma_view_wf();
        }
        Ok(true)
    }

    /// The digest of an answer, as it is stored with a hunt.
    pub fn hash_answer(answer: &String) -> (hash: String)
        ensures
            hash@ == digest(answer@),
    {
        answer.clone()
    }

    /// What the player has achieved so far; for a player without a record,
    /// the empty progress.
    pub fn get_progress(&self, player: String) -> (progress: PlayerProgress)
        requires
            self.wf(),
        ensures
            progress@ == self@.progress_of(player@),
            progress@.wf(),
    {
        proof {
            self.lemma_view_wf();
        }
        match self.find_progress(&player) {
            Some(i) => self.progress[i].clone(),
            None => PlayerProgress::new(player),
        }
    }

    /// The hunt registered under the id, or `HuntNotFound`.
    pub fn get_hunt(&self, hunt_id: u32) -> (found: Result<TreasureHunt, HuntError>)
        requires
            self.wf(),
        ensures
            match found {
                Ok(hunt) => self@.get_hunt(hunt_id) == Ok::<HuntView, HuntError>(hunt@) && hunt.id
                    == hunt_id,
                Err(error) => self@.get_hunt(hunt_id) == Err::<HuntView, HuntError>(error),
            },
    {
        match self.find_hunt(hunt_id) {
            Some(i) => Ok(self.hunts[i].clone()),
            None => Err(HuntError::HuntNotFound),
        }
    }

    /// The ids of the hunts in the order of their creation; an id that was
    /// created twice is listed twice.
    pub fn get_all_hunts(&self) -> (ids: Vec<u32>)
        ensures
            ids@ == self@.hunt_ids,
    {
        let ids: Vec<u32> = self.hunt_ids.clone();
        assert(ids@ =~= self.hunt_ids@);
        ids
    }

    /// The ranking of the players. The ledger keeps no ranking: the list is
    /// always empty.
    pub fn get_leaderboard(&self) -> (ranking: Vec<PlayerProgress>)
        ensures
            ranking@ == Seq::<PlayerProgress>::empty(),
    {
        Vec::new()
    }
}

/// Whether no two hunts of the list have one id.
fn hunts_distinct(hunts: &Vec<TreasureHunt>) -> (distinct: bool)
    ensures
        distinct == keys_unique(hunt_entries(hunts@)),
{
    let ghost entries = hunt_entries(hunts@);
    let mut i: usize = 0;
    while i < hunts.len()
        invariant
            i <= hunts@.len(),
            entries == hunt_entries(hunts@),
            forall|a: int, b: int| 0 <= a < b < i ==> hunts@[a].id != hunts@[b].id,
        decreases hunts@.len() - i,
    {
        let mut j: usize = 0;
        while j < i
            invariant
                j <= i < hunts@.len(),
                entries == hunt_entries(hunts@),
                forall|a: int| 0 <= a < j ==> hunts@[a].id != hunts@[i as int].id,
            decreases i - j,
        {
            if hunts[j].id == hunts[i].id {
                assert(entries[j as int].0 == entries[i as int].0);
                return false;
            }
            j = j + 1;
        }
        i = i + 1;
    }
    assert forall|a: int, b: int|
        0 <= a < entries.len() && 0 <= b < entries.len() && (#[trigger] entries[a]).0 == (
        #[trigger] entries[b]).0 implies a == b by {
        if a < b {
            assert(hunts@[a].id != hunts@[b].id);
        } else if b < a {
            assert(hunts@[b].id != hunts@[a].id);
        }
    }
    true
}

/// Whether no two records of the list are of one player.
fn players_distinct(records: &Vec<PlayerProgress>) -> (distinct: bool)
    ensures
        distinct == keys_unique(progress_entries(records@)),
{
    let ghost entries = progress_entries(records@);
    let mut i: usize = 0;
    while i < records.len()
        invariant
            i <= records@.len(),
            entries == progress_entries(records@),
            forall|a: int, b: int| 0 <= a < b < i ==> records@[a].player@ != records@[b].player@,
        decreases records@.len() - i,
    {
        let mut j: usize = 0;
        while j < i
            invariant
                j <= i < records@.len(),
                entries == progress_entries(records@),
                forall|a: int| 0 <= a < j ==> records@[a].player@ != records@[i as int].player@,
            decreases i - j,
        {
            if records[j].player == records[i].player {
                assert(entries[j as int].0 == entries[i as int].0);
                return false;
            }
            j = j + 1;
        }
        i = i + 1;
    }
    assert forall|a: int, b: int|
        0 <= a < entries.len() && 0 <= b < entries.len() && (#[trigger] entries[a]).0 == (
        #[trigger] entries[b]).0 implies a == b by {
        if a < b {
            assert(records@[a].player@ != records@[b].player@);
        } else if b < a {
            assert(records@[b].player@ != records@[a].player@);
        }
    }
    true
}

/// Whether no record of the list names a hunt twice.
fn completions_distinct(records: &Vec<PlayerProgress>) -> (distinct: bool)
    ensures
        distinct == (forall|i: int| 0 <= i < records@.len() ==> (#[trigger] records@[i])@.wf()),
{
    let mut i: usize = 0;
    while i < records.len()
        invariant
            i <= records@.len(),
            forall|a: int| 0 <= a < i ==> (#[trigger] records@[a])@.wf(),
        decreases records@.len() - i,
    {
        if !ids_distinct(&records[i].completed_hunts) {
            assert(!records@[i as int]@.wf());
            return false;
        }
        i = i + 1;
    }
    true
}

/// Whether no id occurs twice in the list.
fn ids_distinct(ids: &Vec<u32>) -> (distinct: bool)
    ensures
        distinct == ids@.no_duplicates(),
{
    let mut i: usize = 0;
    while i < ids.len()
        invariant
            i <= ids@.len(),
            forall|a: int, b: int| 0 <= a < b < i ==> ids@[a] != ids@[b],
        decreases ids@.len() - i,
    {
        let mut j: usize = 0;
        while j < i
            invariant
                j <= i < ids@.len(),
                forall|a: int| 0 <= a < j ==> ids@[a] != ids@[i as int],
            decreases i - j,
        {
            if ids[j] == ids[i] {
                return false;
            }
            j = j + 1;
        }
        i = i + 1;
    }
    assert forall|a: int, b: int|
        0 <= a < ids@.len() && 0 <= b < ids@.len() && a != b implies ids@[a] != ids@[b] by {
        if a < b {
            assert(ids@[a] != ids@[b]);
        } else {
            assert(ids@[b] != ids@[a]);
        }
    }
    true
}

/// Whether the id is in the list.
fn contains_id(ids: &Vec<u32>, id: u32) -> (found: bool)
    ensures
        found == ids@.contains(id),
{
    let mut i: usize = 0;
    while i < ids.len()
        invariant
            i <= ids@.len(),
            forall|j: int| 0 <= j < i ==> ids@[j] != id,
        decreases ids@.len() - i,
    {
        if ids[i] == id {
            return true;
        }
        i = i + 1;
    }
    false
}

} // verus!
