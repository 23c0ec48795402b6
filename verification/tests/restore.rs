use treasure_hunt::{HuntError, PlayerProgress, TreasureHunt, TreasureHuntContract};

fn hunt(id: u32, answer_hash: &str, reward_amount: i128, active: bool) -> TreasureHunt {
    TreasureHunt {
        id,
        name: format!("Hunt {}", id),
        answer_hash: String::from(answer_hash),
        reward_amount,
        active,
    }
}

fn s(text: &str) -> String {
    String::from(text)
}

fn progress(player: &str, completed_hunts: Vec<u32>, total_rewards: i128) -> PlayerProgress {
    PlayerProgress { player: String::from(player), completed_hunts, total_rewards }
}

#[test]
fn restored_ledger_holds_what_was_stored() {
    let contract = TreasureHuntContract::restore(
        Some(s("admin")),
        vec![2, 1, 2],
        vec![hunt(1, "stellar", 100, true), hunt(2, "lumen", 40, false)],
        vec![progress("alice", vec![2], 40), progress("bob", vec![], 0)],
    )
    .unwrap();

    assert_eq!(contract.get_all_hunts(), vec![2, 1, 2]);
    let second = contract.get_hunt(2).unwrap();
    assert_eq!(second.name, "Hunt 2");
    assert_eq!(second.answer_hash, "lumen");
    assert_eq!(second.reward_amount, 40);
    assert!(!second.active);
    assert!(contract.get_hunt(1).unwrap().active);
    assert_eq!(contract.get_hunt(3).err(), Some(HuntError::HuntNotFound));
    let alice = contract.get_progress(s("alice"));
    assert_eq!(alice.completed_hunts, vec![2]);
    assert_eq!(alice.total_rewards, 40);
    assert_eq!(contract.get_progress(s("carol")).total_rewards, 0);
}

#[test]
fn restored_ledger_goes_on_where_the_stored_one_stopped() {
    let mut contract = TreasureHuntContract::restore(
        Some(s("admin")),
        vec![1, 2],
        vec![hunt(1, "stellar", 100, true), hunt(2, "lumen", 40, true)],
        vec![progress("alice", vec![2], 40)],
    )
    .unwrap();

    assert_eq!(contract.initialize(s("other")), Err(HuntError::AlreadyInitialized));
    assert_eq!(
        contract.submit_answer(true, s("alice"), 2, s("lumen")),
        Err(HuntError::AlreadyCompleted)
    );
    assert_eq!(
        contract.submit_answer(true, s("alice"), 1, s("stellar")),
        Ok(true)
    );
    let alice = contract.get_progress(s("alice"));
    assert_eq!(alice.completed_hunts, vec![2, 1]);
    assert_eq!(alice.total_rewards, 140);
    assert_eq!(
        contract.create_hunt(true, s("admin"), 3, s("n"), s("a"), 1),
        Ok(())
    );
    assert_eq!(contract.get_all_hunts(), vec![1, 2, 3]);
}

#[test]
fn inactive_hunt_takes_no_answers() {
    let mut contract = TreasureHuntContract::restore(
        Some(s("admin")),
        vec![1],
        vec![hunt(1, "stellar", 100, false)],
        vec![progress("alice", vec![1], 100)],
    )
    .unwrap();

    assert_eq!(
        contract.submit_answer(true, s("bob"), 1, s("stellar")),
        Err(HuntError::HuntInactive)
    );
    assert_eq!(
        contract.submit_answer(true, s("bob"), 1, s("wrong")),
        Err(HuntError::HuntInactive)
    );
    // That the hunt is inactive is told before that it was completed.
    assert_eq!(
        contract.submit_answer(true, s("alice"), 1, s("stellar")),
        Err(HuntError::HuntInactive)
    );
    assert_eq!(contract.get_progress(s("bob")).completed_hunts.len(), 0);

    // Creating the hunt again makes it active.
    assert_eq!(
        contract.create_hunt(true, s("admin"), 1, s("n"), s("stellar"), 5),
        Ok(())
    );
    assert_eq!(
        contract.submit_answer(true, s("bob"), 1, s("stellar")),
        Ok(true)
    );
    assert_eq!(contract.get_progress(s("bob")).total_rewards, 5);
}

#[test]
fn restore_without_an_admin_is_uninitialized() {
    let mut contract =
        TreasureHuntContract::restore(None, vec![], vec![hunt(1, "stellar", 100, true)], vec![])
            .unwrap();
    assert_eq!(
        contract.create_hunt(true, s("admin"), 2, s("n"), s("a"), 1),
        Err(HuntError::Unauthorized)
    );
    assert_eq!(contract.initialize(s("admin")), Ok(()));
    assert_eq!(
        contract.create_hunt(true, s("admin"), 2, s("n"), s("a"), 1),
        Ok(())
    );
}

#[test]
fn restore_refuses_two_hunts_with_one_id() {
    assert!(TreasureHuntContract::restore(
        None,
        vec![],
        vec![hunt(1, "a", 1, true), hunt(2, "b", 2, true), hunt(1, "c", 3, true)],
        vec![],
    )
    .is_none());
}

#[test]
fn restore_refuses_two_records_of_one_player() {
    assert!(TreasureHuntContract::restore(
        None,
        vec![],
        vec![],
        vec![
            progress("alice", vec![1], 1),
            progress("bob", vec![], 0),
            progress("alice", vec![], 0),
        ],
    )
    .is_none());
}

#[test]
fn restore_refuses_a_hunt_completed_twice() {
    assert!(TreasureHuntContract::restore(
        None,
        vec![],
        vec![],
        vec![progress("alice", vec![1, 2, 1], 3)],
    )
    .is_none());
    assert!(TreasureHuntContract::restore(
        None,
        vec![],
        vec![],
        vec![progress("alice", vec![1, 2, 3], 3)],
    )
    .is_some());
}

#[test]
fn restore_accepts_an_id_listed_twice() {
    let hunts = vec![hunt(4, "a", 1, true)];
    let contract = TreasureHuntContract::restore(None, vec![4, 4], hunts, vec![]).unwrap();
    assert_eq!(contract.get_all_hunts(), vec![4, 4]);
}

#[test]
fn records_are_copied_field_by_field() {
    let first = hunt(9, "answer", -5, true);
    let copy = first.clone();
    assert_eq!(copy.id, 9);
    assert_eq!(copy.name, "Hunt 9");
    assert_eq!(copy.answer_hash, "answer");
    assert_eq!(copy.reward_amount, -5);
    assert!(copy.active);

    let record = progress("alice", vec![3, 1], 8);
    let copy = record.clone();
    assert_eq!(copy.player, "alice");
    assert_eq!(copy.completed_hunts, vec![3, 1]);
    assert_eq!(copy.total_rewards, 8);

    let fresh = PlayerProgress::new(s("bob"));
    assert_eq!(fresh.player, "bob");
    assert_eq!(fresh.completed_hunts.len(), 0);
    assert_eq!(fresh.total_rewards, 0);
}
