use loan_vault::stake::{StakeError, StakeManager};
use soroban_sdk::testutils::Address as _;
use soroban_sdk::{Address, Env};

#[test]
fn a_new_stake_ledger_is_empty() {
    let env = Env::default();
    let asset = Address::generate(&env);
    let user = Address::generate(&env);
    let manager = StakeManager::initialize(&env);
    assert_eq!(manager.get_stake(&asset, &user), 0);
    assert_eq!(manager.get_total_stake(&asset), 0);
}

#[test]
fn stakes_add_up_for_each_account_and_asset() {
    let env = Env::default();
    let gold = Address::generate(&env);
    let silver = Address::generate(&env);
    let ann = Address::generate(&env);
    let bob = Address::generate(&env);
    let mut manager = StakeManager::initialize(&env);
    assert_eq!(manager.stake(&gold, 100, &ann), Ok(()));
    assert_eq!(manager.stake(&gold, 50, &ann), Ok(()));
    assert_eq!(manager.stake(&gold, 7, &bob), Ok(()));
    assert_eq!(manager.stake(&silver, 1, &bob), Ok(()));

    assert_eq!(manager.get_stake(&gold, &ann), 150);
    assert_eq!(manager.get_stake(&gold, &bob), 7);
    assert_eq!(manager.get_stake(&silver, &ann), 0);
    assert_eq!(manager.get_stake(&silver, &bob), 1);
    assert_eq!(manager.get_total_stake(&gold), 157);
    assert_eq!(manager.get_total_stake(&silver), 1);
    // the key is the account and the asset, in that order
    assert_eq!(manager.get_stake(&ann, &gold), 0);
}

#[test]
fn withdraw_takes_from_the_stake_and_from_the_total() {
    let env = Env::default();
    let asset = Address::generate(&env);
    let ann = Address::generate(&env);
    let bob = Address::generate(&env);
    let mut manager = StakeManager::initialize(&env);
    assert_eq!(manager.stake(&asset, 100, &ann), Ok(()));
    assert_eq!(manager.stake(&asset, 40, &bob), Ok(()));
    assert_eq!(manager.withdraw(&asset, 30, &ann), Ok(()));
    assert_eq!(manager.get_stake(&asset, &ann), 70);
    assert_eq!(manager.get_stake(&asset, &bob), 40);
    assert_eq!(manager.get_total_stake(&asset), 110);
    assert_eq!(manager.withdraw(&asset, 70, &ann), Ok(()));
    assert_eq!(manager.get_stake(&asset, &ann), 0);
    assert_eq!(manager.get_total_stake(&asset), 40);
}

#[test]
fn withdraw_more_than_was_staked_is_refused() {
    let env = Env::default();
    let asset = Address::generate(&env);
    let user = Address::generate(&env);
    let mut manager = StakeManager::initialize(&env);
    assert_eq!(manager.withdraw(&asset, 1, &user), Err(StakeError::InsufficientStake));
    assert_eq!(manager.stake(&asset, 100, &user), Ok(()));
    assert_eq!(manager.withdraw(&asset, 101, &user), Err(StakeError::InsufficientStake));
    assert_eq!(manager.get_stake(&asset, &user), 100);
    assert_eq!(manager.get_total_stake(&asset), 100);
    assert_eq!(manager.withdraw(&asset, 0, &user), Ok(()));
    assert_eq!(manager.get_stake(&asset, &user), 100);
}

#[test]
fn stake_refuses_what_cannot_be_held() {
    let env = Env::default();
    let asset = Address::generate(&env);
    let ann = Address::generate(&env);
    let bob = Address::generate(&env);
    let mut manager = StakeManager::initialize(&env);
    assert_eq!(manager.stake(&asset, i128::MAX, &ann), Ok(()));
    assert_eq!(manager.stake(&asset, 1, &ann), Err(StakeError::Overflow));
    // the stake of the other account could be held, the total could not
    assert_eq!(manager.stake(&asset, 1, &bob), Err(StakeError::Overflow));
    assert_eq!(manager.get_stake(&asset, &ann), i128::MAX);
    assert_eq!(manager.get_stake(&asset, &bob), 0);
    assert_eq!(manager.get_total_stake(&asset), i128::MAX);
}

#[test]
fn amounts_below_zero_are_taken_as_they_are() {
    let env = Env::default();
    let asset = Address::generate(&env);
    let user = Address::generate(&env);
    let mut manager = StakeManager::initialize(&env);
    assert_eq!(manager.stake(&asset, -5, &user), Ok(()));
    assert_eq!(manager.get_stake(&asset, &user), -5);
    assert_eq!(manager.get_total_stake(&asset), -5);
    assert_eq!(manager.withdraw(&asset, -10, &user), Ok(()));
    assert_eq!(manager.get_stake(&asset, &user), 5);
    assert_eq!(manager.get_total_stake(&asset), 5);
    assert_eq!(manager.withdraw(&asset, i128::MIN, &user), Err(StakeError::Overflow));
    assert_eq!(manager.get_stake(&asset, &user), 5);
}

#[test]
fn a_clone_of_the_stake_ledger_keeps_the_state_it_was_taken_in() {
    let env = Env::default();
    let asset = Address::generate(&env);
    let user = Address::generate(&env);
    let mut manager = StakeManager::initialize(&env);
    assert_eq!(manager.stake(&asset, 100, &user), Ok(()));
    let earlier = manager.clone();
    assert_eq!(manager.withdraw(&asset, 60, &user), Ok(()));
    assert_eq!(manager.get_stake(&asset, &user), 40);
    assert_eq!(manager.get_total_stake(&asset), 40);
    assert_eq!(earlier.get_stake(&asset, &user), 100);
    assert_eq!(earlier.get_total_stake(&asset), 100);
}

#[test]
fn the_total_of_an_asset_is_the_sum_of_the_stakes_in_it() {
    let env = Env::default();
    let gold = Address::generate(&env);
    let silver = Address::generate(&env);
    let accounts = [Address::generate(&env), Address::generate(&env), Address::generate(&env)];
    let mut manager = StakeManager::initialize(&env);
    let sum = |manager: &StakeManager, asset: &Address| -> i128 {
        accounts.iter().map(|account| manager.get_stake(asset, account)).sum()
    };
    let steps: [(usize, bool, i128, bool); 8] = [
        (0, true, 100, true),
        (1, true, 40, true),
        (0, false, 30, true),
        (2, false, 1, false),
        (2, true, -7, true),
        (1, false, 41, false),
        (1, false, 40, true),
        (0, true, i128::MAX, false),
    ];
    for (who, staking, amount, accepted) in steps {
        let done = if staking {
            manager.stake(&gold, amount, &accounts[who])
        } else {
            manager.withdraw(&gold, amount, &accounts[who])
        };
        assert_eq!(done.is_ok(), accepted);
        assert_eq!(manager.get_total_stake(&gold), sum(&manager, &gold));
        assert_eq!(manager.get_total_stake(&silver), 0);
    }
    assert_eq!(manager.get_total_stake(&gold), 63);
    assert_eq!(manager.stake(&silver, 5, &accounts[0]), Ok(()));
    assert_eq!(manager.get_total_stake(&silver), sum(&manager, &silver));
    assert_eq!(manager.get_total_stake(&gold), 63);
}
