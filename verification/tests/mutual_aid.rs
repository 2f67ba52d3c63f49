use geev_core::errors::Error;
use geev_core::mutual_aid::MutualAidContract;
use geev_core::state::ContractState;
use geev_core::types::HelpRequestStatus;

#[test]
fn test_donation_flow() {
    let mut state = ContractState::new();
    let token = 7;
    let creator = 1;
    let donor1 = 2;
    let donor2 = 3;

    state.ledger.mint(token, donor1, 1000).unwrap();
    state.ledger.mint(token, donor2, 1000).unwrap();

    let goal = 1000;
    let donation1 = 300;
    let donation2 = 700;

    let request_id = MutualAidContract::create_help_request(&mut state, creator, token, goal)
        .unwrap();
    assert_eq!(request_id, 1);

    assert_eq!(state.ledger.balance_of(token, donor1), 1000);
    assert_eq!(state.ledger.custody_balance(token), 0);

    MutualAidContract::donate(&mut state, donor1, request_id, donation1).unwrap();

    assert_eq!(state.ledger.balance_of(token, donor1), 700);
    assert_eq!(state.ledger.custody_balance(token), 300);

    MutualAidContract::donate(&mut state, donor2, request_id, donation2).unwrap();

    assert_eq!(state.ledger.balance_of(token, donor2), 300);
    assert_eq!(state.ledger.custody_balance(token), 1000);

    let request = MutualAidContract::get_help_request(&state, request_id).unwrap();
    assert_eq!(request.raised_amount, goal);
    assert_eq!(request.status, HelpRequestStatus::FullyFunded);
}

#[test]
fn test_donation_reaches_goal() {
    let mut state = ContractState::new();
    let token = 7;
    let creator = 1;
    let donor = 2;

    state.ledger.mint(token, donor, 2000).unwrap();

    let goal = 500;
    let donation = 500;

    let request_id = MutualAidContract::create_help_request(&mut state, creator, token, goal)
        .unwrap();

    MutualAidContract::donate(&mut state, donor, request_id, donation).unwrap();

    let request = MutualAidContract::get_help_request(&state, request_id).unwrap();
    assert_eq!(request.raised_amount, goal);
    assert_eq!(request.status, HelpRequestStatus::FullyFunded);
}

#[test]
fn test_donation_to_nonexistent_request_fails() {
    let mut state = ContractState::new();
    let donor = 2;
    state.ledger.mint(7, donor, 1000).unwrap();

    let nonexistent_request_id = 999;

    let r = MutualAidContract::donate(&mut state, donor, nonexistent_request_id, 100);
    assert_eq!(r, Err(Error::NotFound));
}

#[test]
fn test_donation_to_fully_funded_request_fails() {
    let mut state = ContractState::new();
    let token = 7;
    let creator = 1;
    let donor = 2;

    state.ledger.mint(token, donor, 1000).unwrap();

    let goal = 500;

    let request_id = MutualAidContract::create_help_request(&mut state, creator, token, goal)
        .unwrap();
    MutualAidContract::donate(&mut state, donor, request_id, goal).unwrap();

    let request = MutualAidContract::get_help_request(&state, request_id).unwrap();
    assert_eq!(request.status, HelpRequestStatus::FullyFunded);

    let r = MutualAidContract::donate(&mut state, donor, request_id, 100);
    assert_eq!(r, Err(Error::InvalidStatus));
}

#[test]
fn test_donation_with_invalid_amount_fails() {
    let mut state = ContractState::new();
    let token = 7;
    let creator = 1;
    let donor = 2;

    state.ledger.mint(token, donor, 1000).unwrap();

    let request_id = MutualAidContract::create_help_request(&mut state, creator, token, 500)
        .unwrap();

    let r = MutualAidContract::donate(&mut state, donor, request_id, 0);
    assert_eq!(r, Err(Error::InvalidAmount));
}

#[test]
fn test_refund_flow() {
    let mut state = ContractState::new();
    let token = 7;
    let creator = 1;
    let donor = 2;

    state.ledger.mint(token, donor, 1000).unwrap();

    let goal = 1000;
    let donation = 500;

    let request_id = MutualAidContract::create_help_request(&mut state, creator, token, goal)
        .unwrap();

    // 1. Donate
    MutualAidContract::donate(&mut state, donor, request_id, donation).unwrap();
    assert_eq!(state.ledger.balance_of(token, donor), 500);
    assert_eq!(state.ledger.custody_balance(token), 500);

    // 2. Cancel request
    MutualAidContract::cancel_request(&mut state, creator, request_id).unwrap();

    // 3. Claim refund
    MutualAidContract::claim_refund(&mut state, donor, request_id).unwrap();

    // 4. Verify balances
    assert_eq!(state.ledger.balance_of(token, donor), 1000);
    assert_eq!(state.ledger.custody_balance(token), 0);

    // 5. Verify donation reset
    assert_eq!(MutualAidContract::get_donation(&state, request_id, donor), 0);
}

#[test]
fn test_refund_twice_fails() {
    let mut state = ContractState::new();
    let token = 7;
    let creator = 1;
    let donor = 2;

    state.ledger.mint(token, donor, 1000).unwrap();

    let request_id = MutualAidContract::create_help_request(&mut state, creator, token, 1000)
        .unwrap();
    MutualAidContract::donate(&mut state, donor, request_id, 500).unwrap();
    MutualAidContract::cancel_request(&mut state, creator, request_id).unwrap();

    MutualAidContract::claim_refund(&mut state, donor, request_id).unwrap();
    assert_eq!(state.ledger.balance_of(token, donor), 1000);

    // The second claim transfers nothing: it is rejected and every balance
    // stays as it was.
    let r = MutualAidContract::claim_refund(&mut state, donor, request_id);
    assert_eq!(r, Err(Error::InvalidAmount));
    assert_eq!(state.ledger.balance_of(token, donor), 1000);
    assert_eq!(state.ledger.custody_balance(token), 0);
}

#[test]
fn test_cancel_by_non_creator_fails() {
    let mut state = ContractState::new();
    let creator = 1;
    let stranger = 8;

    let request_id = MutualAidContract::create_help_request(&mut state, creator, 7, 500).unwrap();

    let r = MutualAidContract::cancel_request(&mut state, stranger, request_id);
    assert_eq!(r, Err(Error::NotCreator));

    let request = MutualAidContract::get_help_request(&state, request_id).unwrap();
    assert_eq!(request.status, HelpRequestStatus::Open);
}

#[test]
fn test_cancel_fully_funded_fails() {
    let mut state = ContractState::new();
    let token = 7;
    let creator = 1;
    let donor = 2;

    state.ledger.mint(token, donor, 1000).unwrap();

    let request_id = MutualAidContract::create_help_request(&mut state, creator, token, 500)
        .unwrap();
    MutualAidContract::donate(&mut state, donor, request_id, 500).unwrap();

    // A fully funded request cannot be retroactively cancelled.
    let r = MutualAidContract::cancel_request(&mut state, creator, request_id);
    assert_eq!(r, Err(Error::InvalidStatus));
}

#[test]
fn test_refund_while_open_fails() {
    let mut state = ContractState::new();
    let token = 7;
    let creator = 1;
    let donor = 2;

    state.ledger.mint(token, donor, 1000).unwrap();

    let request_id = MutualAidContract::create_help_request(&mut state, creator, token, 1000)
        .unwrap();
    MutualAidContract::donate(&mut state, donor, request_id, 500).unwrap();

    let r = MutualAidContract::claim_refund(&mut state, donor, request_id);
    assert_eq!(r, Err(Error::InvalidStatus));
}

#[test]
fn test_donate_negative_amount_fails() {
    let mut state = ContractState::new();
    let request_id = MutualAidContract::create_help_request(&mut state, 1, 7, 500).unwrap();

    let r = MutualAidContract::donate(&mut state, 2, request_id, -5);
    assert_eq!(r, Err(Error::InvalidAmount));
}

#[test]
fn test_create_help_request_invalid_goal_fails() {
    let mut state = ContractState::new();
    let r = MutualAidContract::create_help_request(&mut state, 1, 7, 0);
    assert_eq!(r, Err(Error::InvalidAmount));
}

#[test]
fn test_donate_insufficient_balance_fails() {
    let mut state = ContractState::new();
    let token = 7;
    let donor = 2;

    state.ledger.mint(token, donor, 100).unwrap();

    let request_id = MutualAidContract::create_help_request(&mut state, 1, token, 1000).unwrap();

    let r = MutualAidContract::donate(&mut state, donor, request_id, 500);
    assert_eq!(r, Err(Error::TransferFailed));
    // The failed transfer never inflates the recorded donations.
    let request = MutualAidContract::get_help_request(&state, request_id).unwrap();
    assert_eq!(request.raised_amount, 0);
    assert_eq!(MutualAidContract::get_donation(&state, request_id, donor), 0);
}
