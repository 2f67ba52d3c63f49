use geev_core::admin::{initialize, set_paused, AdminContract};
use geev_core::errors::Error;
use geev_core::giveaway::{enter_giveaway, GiveawayContract};
use geev_core::mutual_aid::MutualAidContract;
use geev_core::state::ContractState;
use geev_core::types::SelectionMethod;

#[test]
fn test_init_contract() {
    let mut state = ContractState::new();
    let admin = 4;

    initialize(&mut state, admin).unwrap();

    assert_eq!(state.admin, Some(admin));
    assert!(!state.paused);
}

#[test]
fn test_init_twice_fails() {
    let mut state = ContractState::new();
    let admin = 4;

    initialize(&mut state, admin).unwrap();
    let r = initialize(&mut state, admin);
    assert_eq!(r, Err(Error::AlreadyInitialized));
}

#[test]
fn test_admin_withdraw_success() {
    let mut state = ContractState::new();
    let token = 7;
    let admin = 4;
    let safe_address = 5;

    initialize(&mut state, admin).unwrap();

    // Fund the contract's custody directly, as the token's issuer would.
    state.ledger.mint_custody(token, 1000).unwrap();

    assert_eq!(state.ledger.custody_balance(token), 1000);
    assert_eq!(state.ledger.balance_of(token, safe_address), 0);

    AdminContract::admin_withdraw(&mut state, admin, token, 500, safe_address).unwrap();

    assert_eq!(state.ledger.custody_balance(token), 500);
    assert_eq!(state.ledger.balance_of(token, safe_address), 500);
}

#[test]
fn test_admin_withdraw_fails_non_admin() {
    let mut state = ContractState::new();
    let token = 7;
    let safe_address = 5;

    // No admin is initialized, so any withdrawal attempt is rejected.
    state.ledger.mint_custody(token, 1000).unwrap();

    let r = AdminContract::admin_withdraw(&mut state, 6, token, 500, safe_address);
    assert_eq!(r, Err(Error::NotAdmin));
    assert_eq!(state.ledger.custody_balance(token), 1000);
}

#[test]
fn test_admin_withdraw_full_balance() {
    let mut state = ContractState::new();
    let token = 7;
    let admin = 4;
    let safe_address = 5;

    initialize(&mut state, admin).unwrap();
    state.ledger.mint_custody(token, 5000).unwrap();

    assert_eq!(state.ledger.custody_balance(token), 5000);

    AdminContract::admin_withdraw(&mut state, admin, token, 5000, safe_address).unwrap();

    assert_eq!(state.ledger.custody_balance(token), 0);
    assert_eq!(state.ledger.balance_of(token, safe_address), 5000);
}

#[test]
fn test_admin_withdraw_wrong_caller_fails() {
    let mut state = ContractState::new();
    let admin = 4;

    initialize(&mut state, admin).unwrap();
    state.ledger.mint_custody(7, 1000).unwrap();

    let r = AdminContract::admin_withdraw(&mut state, 6, 7, 500, 5);
    assert_eq!(r, Err(Error::NotAdmin));
}

#[test]
fn test_set_paused_requires_admin() {
    let mut state = ContractState::new();
    let admin = 4;

    initialize(&mut state, admin).unwrap();

    let r = set_paused(&mut state, 6, true);
    assert_eq!(r, Err(Error::NotAdmin));
    assert!(!state.paused);

    set_paused(&mut state, admin, true).unwrap();
    assert!(state.paused);
}

#[test]
fn test_paused_blocks_operations() {
    let mut state = ContractState::new();
    let token = 7;
    let admin = 4;
    let creator = 1;
    let user = 2;

    state.ledger.mint(token, creator, 1000).unwrap();
    state.ledger.mint(token, user, 1000).unwrap();

    let giveaway_id = GiveawayContract::create_giveaway(
        &mut state,
        creator,
        token,
        100,
        "Before the freeze".to_string(),
        String::new(),
        String::new(),
        SelectionMethod::Random,
        1,
        60,
        0,
    )
    .unwrap();
    let request_id = MutualAidContract::create_help_request(&mut state, creator, token, 500)
        .unwrap();

    initialize(&mut state, admin).unwrap();
    set_paused(&mut state, admin, true).unwrap();

    let c = GiveawayContract::create_giveaway(
        &mut state,
        creator,
        token,
        100,
        "During the freeze".to_string(),
        String::new(),
        String::new(),
        SelectionMethod::Random,
        1,
        60,
        0,
    );
    assert_eq!(c, Err(Error::Paused));

    let e = enter_giveaway(&mut state, user, giveaway_id, 10);
    assert_eq!(e, Err(Error::Paused));

    let d = MutualAidContract::donate(&mut state, user, request_id, 100);
    assert_eq!(d, Err(Error::Paused));

    // After unpausing, the same operations go through.
    set_paused(&mut state, admin, false).unwrap();
    enter_giveaway(&mut state, user, giveaway_id, 10).unwrap();
    MutualAidContract::donate(&mut state, user, request_id, 100).unwrap();
}
