use geev_core::errors::Error;
use geev_core::giveaway::{enter_giveaway, GiveawayContract};
use geev_core::state::ContractState;
use geev_core::types::{GiveawayStatus, SelectionMethod};

fn create_simple(
    state: &mut ContractState,
    creator: u64,
    token: u64,
    amount: i128,
    title: &str,
    duration: u64,
    now: u64,
) -> Result<u64, Error> {
    GiveawayContract::create_giveaway(
        state,
        creator,
        token,
        amount,
        title.to_string(),
        String::new(),
        String::new(),
        SelectionMethod::Random,
        1,
        duration,
        now,
    )
}

#[test]
fn test_giveaway_flow() {
    let mut state = ContractState::new();
    let token = 7;
    let creator = 1;
    let user1 = 2;
    let user2 = 3;

    state.ledger.mint(token, creator, 1000).unwrap();

    let target_giveaway_id =
        create_simple(&mut state, creator, token, 500, "Test Giveaway", 60, 0).unwrap();

    assert_eq!(state.ledger.balance_of(token, creator), 500);
    assert_eq!(state.ledger.custody_balance(token), 500);
    assert_eq!(target_giveaway_id, 1);

    enter_giveaway(&mut state, user1, target_giveaway_id, 10).unwrap();
    enter_giveaway(&mut state, user2, target_giveaway_id, 20).unwrap();

    let winner = GiveawayContract::pick_winner(&mut state, target_giveaway_id, 100, 12345).unwrap();

    assert!(winner == user1 || winner == user2);
}

#[test]
fn test_double_entry_fails() {
    let mut state = ContractState::new();
    let token = 7;
    let creator = 1;
    let greedy_user = 2;

    state.ledger.mint(token, creator, 1000).unwrap();

    let id = create_simple(&mut state, creator, token, 500, "Test", 60, 0).unwrap();

    enter_giveaway(&mut state, greedy_user, id, 10).unwrap();

    let second = enter_giveaway(&mut state, greedy_user, id, 11);
    assert_eq!(second, Err(Error::AlreadyEntered));
}

#[test]
fn test_enter_late_fails() {
    let mut state = ContractState::new();
    let token = 7;
    let creator = 1;
    let late_user = 2;

    state.ledger.mint(token, creator, 1000).unwrap();

    let id = create_simple(&mut state, creator, token, 500, "Test", 60, 0).unwrap();

    let late = enter_giveaway(&mut state, late_user, id, 100);
    assert_eq!(late, Err(Error::AlreadyEnded));
}

#[test]
fn test_pick_winner_early_fails() {
    let mut state = ContractState::new();
    let token = 7;
    let creator = 1;
    let user = 2;

    state.ledger.mint(token, creator, 1000).unwrap();

    let id = create_simple(&mut state, creator, token, 500, "Test", 60, 0).unwrap();
    enter_giveaway(&mut state, user, id, 10).unwrap();

    let early = GiveawayContract::pick_winner(&mut state, id, 30, 99);
    assert_eq!(early, Err(Error::StillActive));
}

#[test]
fn test_distribute_prize() {
    let mut state = ContractState::new();
    let token = 7;
    let creator = 1;
    let winner = 2;

    state.ledger.mint(token, creator, 1000).unwrap();

    let giveaway_id = create_simple(&mut state, creator, token, 500, "Prize Test", 60, 0).unwrap();

    enter_giveaway(&mut state, winner, giveaway_id, 10).unwrap();

    let picked_winner = GiveawayContract::pick_winner(&mut state, giveaway_id, 100, 4242).unwrap();
    assert_eq!(picked_winner, winner);

    assert_eq!(state.ledger.balance_of(token, winner), 0);
    assert_eq!(state.ledger.custody_balance(token), 500);

    GiveawayContract::distribute_prize(&mut state, giveaway_id).unwrap();

    assert_eq!(state.ledger.balance_of(token, winner), 500);
    assert_eq!(state.ledger.custody_balance(token), 0);
}

#[test]
fn test_distribute_prize_wrong_status_fails() {
    let mut state = ContractState::new();
    let token = 7;
    let creator = 1;

    state.ledger.mint(token, creator, 1000).unwrap();

    let giveaway_id = create_simple(&mut state, creator, token, 500, "Prize Test", 60, 0).unwrap();

    let r = GiveawayContract::distribute_prize(&mut state, giveaway_id);
    assert_eq!(r, Err(Error::InvalidStatus));
}

#[test]
fn enter_once_before_end_increments_participant_count() {
    let mut state = ContractState::new();
    let user = 5;

    // A giveaway whose end_time is 20, entered at timestamp 10.
    let giveaway_id = create_simple(&mut state, 1, 7, 0, "", 10, 10).unwrap();

    enter_giveaway(&mut state, user, giveaway_id, 10).unwrap();

    let g = GiveawayContract::get_giveaway(&state, giveaway_id).unwrap();
    assert_eq!(g.participant_count, 1);
}

#[test]
fn reject_entry_after_end_time() {
    let mut state = ContractState::new();
    let user = 5;

    // A giveaway whose end_time is 5, already ended relative to timestamp 10.
    let giveaway_id = create_simple(&mut state, 1, 7, 0, "", 5, 0).unwrap();

    let r = enter_giveaway(&mut state, user, giveaway_id, 10);
    assert_eq!(r, Err(Error::AlreadyEnded));
}

#[test]
fn reject_duplicate_entries() {
    let mut state = ContractState::new();
    let user = 5;

    let giveaway_id = create_simple(&mut state, 1, 7, 0, "", 20, 0).unwrap();

    enter_giveaway(&mut state, user, giveaway_id, 10).unwrap();

    // The second attempt fails as a duplicate entry.
    let r = enter_giveaway(&mut state, user, giveaway_id, 10);
    assert_eq!(r, Err(Error::AlreadyEntered));
}

#[test]
fn test_create_giveaway() {
    let mut state = ContractState::new();
    let creator = 9;

    let giveaway_id = GiveawayContract::create_giveaway(
        &mut state,
        creator,
        7,
        0,
        "Test Giveaway".to_string(),
        "This is a test giveaway".to_string(),
        "general".to_string(),
        SelectionMethod::Random,
        1,
        86400, // 1 day
        0,
    )
    .unwrap();

    assert_eq!(giveaway_id, 1);

    let giveaway = GiveawayContract::get_giveaway(&state, giveaway_id).unwrap();
    assert_eq!(giveaway.creator, creator);
    assert_eq!(giveaway.title, "Test Giveaway");
    assert_eq!(giveaway.status, GiveawayStatus::Active);
    assert_eq!(giveaway.participant_count, 0);
    assert_eq!(giveaway.winner, None);
}

#[test]
fn test_add_participant() {
    let mut state = ContractState::new();
    let creator = 9;
    let participant = 10;

    let giveaway_id = GiveawayContract::create_giveaway(
        &mut state,
        creator,
        7,
        0,
        "Test Giveaway".to_string(),
        "This is a test giveaway".to_string(),
        "general".to_string(),
        SelectionMethod::Random,
        1,
        86400,
        0,
    )
    .unwrap();

    let entry_id = GiveawayContract::add_participant(
        &mut state,
        giveaway_id,
        participant,
        "Test entry".to_string(),
        0,
    )
    .unwrap();

    assert_eq!(entry_id, 2); // 1 for giveaway, 2 for entry

    let giveaway = GiveawayContract::get_giveaway(&state, giveaway_id).unwrap();
    assert_eq!(giveaway.participant_count, 1);

    let stored_participant =
        GiveawayContract::get_participant_at_index(&state, giveaway_id, 0).unwrap();
    assert_eq!(stored_participant, participant);
}

#[test]
fn test_pick_winner_success() {
    let mut state = ContractState::new();
    let creator = 9;
    let participant1 = 11;
    let participant2 = 12;
    let participant3 = 13;

    let giveaway_id = GiveawayContract::create_giveaway(
        &mut state,
        creator,
        7,
        0,
        "Test Giveaway".to_string(),
        "This is a test giveaway".to_string(),
        "general".to_string(),
        SelectionMethod::Random,
        1,
        1000,
        0,
    )
    .unwrap();

    GiveawayContract::add_participant(&mut state, giveaway_id, participant1, "Entry 1".to_string(), 0)
        .unwrap();
    GiveawayContract::add_participant(&mut state, giveaway_id, participant2, "Entry 2".to_string(), 0)
        .unwrap();
    GiveawayContract::add_participant(&mut state, giveaway_id, participant3, "Entry 3".to_string(), 0)
        .unwrap();

    // Advance time beyond end_time.
    let winner = GiveawayContract::pick_winner(&mut state, giveaway_id, 2000, 31337).unwrap();

    assert!(winner == participant1 || winner == participant2 || winner == participant3);

    let giveaway = GiveawayContract::get_giveaway(&state, giveaway_id).unwrap();
    assert_eq!(giveaway.status, GiveawayStatus::Claimable);
    assert_eq!(giveaway.winner, Some(winner));
}

#[test]
fn test_pick_winner_still_active() {
    let mut state = ContractState::new();

    let giveaway_id = create_simple(&mut state, 9, 7, 0, "Test Giveaway", 86400, 0).unwrap();
    GiveawayContract::add_participant(&mut state, giveaway_id, 10, "Test entry".to_string(), 0)
        .unwrap();

    let r = GiveawayContract::pick_winner(&mut state, giveaway_id, 100, 1);
    assert_eq!(r, Err(Error::StillActive));
}

#[test]
fn test_pick_winner_not_active() {
    let mut state = ContractState::new();

    let giveaway_id = create_simple(&mut state, 9, 7, 0, "Test Giveaway", 1000, 0).unwrap();
    GiveawayContract::add_participant(&mut state, giveaway_id, 10, "Test entry".to_string(), 0)
        .unwrap();

    GiveawayContract::pick_winner(&mut state, giveaway_id, 2000, 1).unwrap();

    // Picking again on a claimable giveaway is rejected, never re-drawn.
    let r = GiveawayContract::pick_winner(&mut state, giveaway_id, 2000, 2);
    assert_eq!(r, Err(Error::InvalidStatus));
}

#[test]
fn test_pick_winner_no_participants() {
    let mut state = ContractState::new();

    let giveaway_id = create_simple(&mut state, 9, 7, 0, "Test Giveaway", 1000, 0).unwrap();

    let r = GiveawayContract::pick_winner(&mut state, giveaway_id, 2000, 1);
    assert_eq!(r, Err(Error::NoParticipants));
}

#[test]
fn test_claim_prize() {
    let mut state = ContractState::new();
    let participant = 10;

    let giveaway_id = create_simple(&mut state, 9, 7, 0, "Test Giveaway", 1000, 0).unwrap();
    GiveawayContract::add_participant(&mut state, giveaway_id, participant, "Test entry".to_string(), 0)
        .unwrap();

    let winner = GiveawayContract::pick_winner(&mut state, giveaway_id, 2000, 1).unwrap();
    assert_eq!(winner, participant);

    let result = GiveawayContract::claim_prize(&mut state, giveaway_id, participant).unwrap();
    assert!(result);

    let giveaway = GiveawayContract::get_giveaway(&state, giveaway_id).unwrap();
    assert_eq!(giveaway.status, GiveawayStatus::Completed);
}

#[test]
fn test_claim_prize_wrong_claimer() {
    let mut state = ContractState::new();
    let participant = 10;
    let wrong_claimer = 11;

    let giveaway_id = create_simple(&mut state, 9, 7, 0, "Test Giveaway", 1000, 0).unwrap();
    GiveawayContract::add_participant(&mut state, giveaway_id, participant, "Test entry".to_string(), 0)
        .unwrap();

    GiveawayContract::pick_winner(&mut state, giveaway_id, 2000, 1).unwrap();

    let r = GiveawayContract::claim_prize(&mut state, giveaway_id, wrong_claimer);
    assert_eq!(r, Err(Error::NotAuthorized));
}

#[test]
fn test_enter_nonexistent_giveaway_fails() {
    let mut state = ContractState::new();
    let r = enter_giveaway(&mut state, 2, 999, 0);
    assert_eq!(r, Err(Error::NotFound));
    assert!(GiveawayContract::get_giveaway(&state, 999).is_none());
}

#[test]
fn test_create_insufficient_balance_fails() {
    let mut state = ContractState::new();
    let creator = 1;
    state.ledger.mint(7, creator, 100).unwrap();

    let r = create_simple(&mut state, creator, 7, 500, "Test", 60, 0);
    assert_eq!(r, Err(Error::TransferFailed));
    // Fail-closed: no record was created and nothing moved.
    assert!(GiveawayContract::get_giveaway(&state, 1).is_none());
    assert_eq!(state.ledger.balance_of(7, creator), 100);
    assert_eq!(state.ledger.custody_balance(7), 0);
}

#[test]
fn test_get_participant_out_of_range() {
    let mut state = ContractState::new();
    let giveaway_id = create_simple(&mut state, 1, 7, 0, "Test", 60, 0).unwrap();
    enter_giveaway(&mut state, 2, giveaway_id, 0).unwrap();

    assert_eq!(
        GiveawayContract::get_participant_at_index(&state, giveaway_id, 0),
        Some(2)
    );
    assert_eq!(
        GiveawayContract::get_participant_at_index(&state, giveaway_id, 1),
        None
    );
    assert_eq!(GiveawayContract::get_participant_at_index(&state, 999, 0), None);
}
