//! What holds of the ledger whatever is done with it.
//!
//! Each law is stated over the mathematical ledger, and so holds of the
//! executable one, whose operations are specified by the same functions.

use vstd::prelude::*;
use crate::error::HuntError;
use crate::ledger::{credited_hunts, credited_total, Call, Credit, LedgerView};
use crate::records::HuntView;

verus! {

/// Every call keeps a well-formed ledger well-formed: records stay filed
/// under their own keys, and no player has a hunt recorded twice.
pub proof fn well_formedness_is_kept(s: LedgerView, call: Call)
    requires
        s.wf(),
    ensures
        s.after(call).wf(),
{
    match call {
        Call::Initialize { admin } => {},
        Call::CreateHunt { authenticated, admin, id, name, answer_hash, reward_amount } => {},
        Call::SubmitAnswer { authenticated, player, hunt_id, answer } => {
            if s.submit_answer_outcome(authenticated, player, hunt_id, answer) == Ok::<
                bool,
                HuntError,
            >(true) {
                s.progress_of(player).lemma_credit_wf(hunt_id, s.hunts[hunt_id].reward_amount);
            }
        },
    }
}

/// Every series of calls keeps a well-formed ledger well-formed.
pub proof fn well_formedness_is_kept_throughout(s: LedgerView, calls: Seq<Call>)
    requires
        s.wf(),
    ensures
        s.after_all(calls).wf(),
    decreases calls.len(),
{
    if calls.len() > 0 {
        well_formedness_is_kept_throughout(s, calls.drop_last());
        well_formedness_is_kept(s.after_all(calls.drop_last()), calls.last());
    }
}

/// An admin, once stored, stays the admin whatever is called.
pub proof fn admin_is_kept(s: LedgerView, calls: Seq<Call>)
    requires
        s.admin is Some,
    ensures
        s.after_all(calls).admin == s.admin,
    decreases calls.len(),
{
    if calls.len() > 0 {
        admin_is_kept(s, calls.drop_last());
    }
}

/// `initialize` succeeds once. After it has, whatever was called since, a
/// further `initialize` fails with `AlreadyInitialized` and leaves the ledger
/// as it was, with the first admin.
pub proof fn initialize_succeeds_once(
    s: LedgerView,
    first: Seq<char>,
    calls: Seq<Call>,
    second: Seq<char>,
)
    requires
        s.initialize_outcome() is Ok,
    ensures
        ({
            let t = s.after_initialize(first).after_all(calls);
            &&& t.admin == Some(first)
            &&& t.initialize_outcome() == Err::<(), HuntError>(HuntError::AlreadyInitialized)
            &&& t.after_initialize(second) == t
        }),
{
    admin_is_kept(s.after_initialize(first), calls);
}

/// The list of hunt ids only grows: whatever is called, the list as it was
/// is the beginning of the list as it is.
pub proof fn hunt_ids_only_grow(s: LedgerView, calls: Seq<Call>)
    ensures
        s.hunt_ids.is_prefix_of(s.after_all(calls).hunt_ids),
    decreases calls.len(),
{
    if calls.len() > 0 {
        hunt_ids_only_grow(s, calls.drop_last());
    }
}

/// A hunt that is registered and active stays so whatever is called: hunts
/// are replaced by active hunts, and never removed.
pub proof fn active_hunt_stays(s: LedgerView, calls: Seq<Call>, hunt_id: u32)
    requires
        s.hunts.contains_key(hunt_id),
        s.hunts[hunt_id].active,
    ensures
        s.after_all(calls).hunts.contains_key(hunt_id),
        s.after_all(calls).hunts[hunt_id].active,
    decreases calls.len(),
{
    if calls.len() > 0 {
        active_hunt_stays(s, calls.drop_last(), hunt_id);
    }
}

/// A hunt that a player has completed stays completed whatever is called,
/// and every further answer of that player to it is refused and changes
/// nothing.
pub proof fn completion_is_final(
    s: LedgerView,
    player: Seq<char>,
    hunt_id: u32,
    calls: Seq<Call>,
    authenticated: bool,
    answer: Seq<char>,
)
    requires
        s.progress_of(player).completed_hunts.contains(hunt_id),
    ensures
        ({
            let t = s.after_all(calls);
            &&& t.progress_of(player).completed_hunts.contains(hunt_id)
            &&& t.submit_answer_outcome(authenticated, player, hunt_id, answer) is Err
            &&& t.after_submit_answer(authenticated, player, hunt_id, answer) == t
        }),
    decreases calls.len(),
{
    if calls.len() > 0 {
        let earlier = s.after_all(calls.drop_last());
        completion_is_final(s, player, hunt_id, calls.drop_last(), authenticated, answer);
        match calls.last() {
            Call::SubmitAnswer { authenticated: a, player: submitter, hunt_id: other, answer: b } => {
                let accepted = earlier.submit_answer_outcome(a, submitter, other, b) == Ok::<
                    bool,
                    HuntError,
                >(true);
                if accepted && submitter == player {
                    let before = earlier.progress_of(player).completed_hunts;
                    let i = choose|i: int| 0 <= i < before.len() && before[i] == hunt_id;
                    assert(before.push(other)[i] == hunt_id);
                }
            },
            _ => {},
        }
    }
}

/// An answer is rewarded exactly once. After a player's answer to a hunt has
/// been accepted, whatever was called since, every further answer of that
/// player to that hunt fails (with `AlreadyCompleted` if the caller is
/// authenticated, with `Unauthorized` if not) and changes nothing: the total
/// of the player's rewards stays what it was.
pub proof fn answer_is_rewarded_once(
    s: LedgerView,
    player: Seq<char>,
    hunt_id: u32,
    correct: Seq<char>,
    calls: Seq<Call>,
    authenticated: bool,
    answer: Seq<char>,
)
    requires
        s.submit_answer_outcome(true, player, hunt_id, correct) == Ok::<bool, HuntError>(true),
    ensures
        ({
            let t = s.after_submit_answer(true, player, hunt_id, correct).after_all(calls);
            &&& t.submit_answer_outcome(authenticated, player, hunt_id, answer) == Err::<
                bool,
                HuntError,
            >(if authenticated {
                HuntError::AlreadyCompleted
            } else {
                HuntError::Unauthorized
            })
            &&& t.after_submit_answer(authenticated, player, hunt_id, answer) == t
            &&& t.after_submit_answer(authenticated, player, hunt_id, answer).progress_of(
                player,
            ).total_rewards == t.progress_of(player).total_rewards
        }),
{
    let s1 = s.after_submit_answer(true, player, hunt_id, correct);
    let before = s.progress_of(player).completed_hunts;
    assert(before.push(hunt_id)[before.len() as int] == hunt_id);
    completion_is_final(s1, player, hunt_id, calls, authenticated, answer);
    active_hunt_stays(s1, calls, hunt_id);
}

/// Rewards are conserved. Over any series of calls the player's completed
/// hunts grow by exactly the hunts credited to the player, in order, and the
/// player's total grows by exactly the sum of the rewards that those hunts
/// carried when the answers were accepted.
pub proof fn rewards_are_conserved(s: LedgerView, calls: Seq<Call>, player: Seq<char>)
    ensures
        ({
            let t = s.after_all(calls);
            let credits = s.credits_from(calls, player);
            &&& t.progress_of(player).player == s.progress_of(player).player
            &&& t.progress_of(player).completed_hunts == s.progress_of(player).completed_hunts
                + credited_hunts(credits)
            &&& t.progress_of(player).total_rewards == s.progress_of(player).total_rewards
                + credited_total(credits)
        }),
    decreases calls.len(),
{
    if calls.len() == 0 {
        assert(s.progress_of(player).completed_hunts + credited_hunts(Seq::<Credit>::empty())
            =~= s.progress_of(player).completed_hunts);
    } else {
        let earlier = calls.drop_last();
        rewards_are_conserved(s, earlier, player);
        let mid = s.after_all(earlier);
        let before = s.credits_from(earlier, player);
        match mid.credit_from(calls.last(), player) {
            Some(credit) => {
                let credits = before.push(credit);
                assert(credits.drop_last() =~= before);
                assert(credited_hunts(credits) =~= credited_hunts(before).push(credit.hunt_id));
                assert(s.progress_of(player).completed_hunts + credited_hunts(credits)
                    =~= (s.progress_of(player).completed_hunts + credited_hunts(before)).push(
                    credit.hunt_id,
                ));
            },
            None => {},
        }
    }
}

/// On a ledger on which nothing else has happened, a player's completed
/// hunts are exactly the hunts credited, and the player's total is exactly
/// the sum of their rewards as they stood at completion.
pub proof fn rewards_are_the_sum_of_credits(calls: Seq<Call>, player: Seq<char>)
    ensures
        ({
            let t = LedgerView::fresh().after_all(calls);
            let credits = LedgerView::fresh().credits_from(calls, player);
            &&& t.progress_of(player).completed_hunts == credited_hunts(credits)
            &&& t.progress_of(player).total_rewards == credited_total(credits)
        }),
{
    rewards_are_conserved(LedgerView::fresh(), calls, player);
    let credits = LedgerView::fresh().credits_from(calls, player);
    assert(Seq::<u32>::empty() + credited_hunts(credits) =~= credited_hunts(credits));
}

/// Whether every hunt of the ledger carries a reward of zero or more.
pub open spec fn rewards_nonnegative(s: LedgerView) -> bool {
    forall|id: u32| #[trigger] s.hunts.contains_key(id) ==> s.hunts[id].reward_amount >= 0
}

/// Whether every hunt that the calls would create carries a reward of zero
/// or more.
pub open spec fn creates_nonnegative(calls: Seq<Call>) -> bool {
    forall|i: int|
        0 <= i < calls.len() ==> (#[trigger] calls[i] matches Call::CreateHunt { reward_amount, .. }
            ==> reward_amount >= 0)
}

/// Where no hunt carries a negative reward, no player's total ever
/// decreases.
pub proof fn total_never_decreases(s: LedgerView, calls: Seq<Call>, player: Seq<char>)
    requires
        rewards_nonnegative(s),
        creates_nonnegative(calls),
    ensures
        rewards_nonnegative(s.after_all(calls)),
        s.progress_of(player).total_rewards <= s.after_all(calls).progress_of(
            player,
        ).total_rewards,
    decreases calls.len(),
{
    if calls.len() > 0 {
        let earlier = calls.drop_last();
        assert forall|i: int| 0 <= i < earlier.len() implies (#[trigger] earlier[i] matches
            Call::CreateHunt { reward_amount, .. } ==> reward_amount >= 0) by {
            assert(earlier[i] == calls[i]);
        }
        total_never_decreases(s, earlier, player);
        assert(calls.last() == calls[calls.len() - 1]);
    }
}

/// Only the stored admin creates hunts. Called for a principal that is not
/// the stored admin, `create_hunt` fails with `Unauthorized` and leaves the
/// ledger as it was, whether or not the caller was authenticated as that
/// principal.
pub proof fn create_hunt_needs_the_admin(
    s: LedgerView,
    authenticated: bool,
    principal: Seq<char>,
    id: u32,
    name: Seq<char>,
    answer_hash: Seq<char>,
    reward_amount: int,
)
    requires
        s.admin != Some(principal),
    ensures
        s.create_hunt_outcome(authenticated, principal) == Err::<(), HuntError>(
            HuntError::Unauthorized,
        ),
        s.after_create_hunt(authenticated, principal, id, name, answer_hash, reward_amount) == s,
{
}

/// A hunt is read back as it was created: after a `create_hunt` that
/// succeeded, `get_hunt` of the same id returns the id, name, digest and
/// reward that were given, and the hunt is active.
pub proof fn created_hunt_is_read_back(
    s: LedgerView,
    authenticated: bool,
    admin: Seq<char>,
    id: u32,
    name: Seq<char>,
    answer_hash: Seq<char>,
    reward_amount: int,
)
    requires
        s.create_hunt_outcome(authenticated, admin) is Ok,
    ensures
        s.after_create_hunt(authenticated, admin, id, name, answer_hash, reward_amount).get_hunt(
            id,
        ) == Ok::<HuntView, HuntError>(
            HuntView { id, name, answer_hash, reward_amount, active: true },
        ),
{
}

} // verus!
