use ef_testing::error::RunnerError;
use ef_testing::reconcile::{fee_outcome, update_post_state};
use ef_testing::state::StateMap;
use ef_testing::{AccountState, EvmAddress, U256};

fn account(nonce: u128, balance: u128) -> AccountState {
    AccountState {
        nonce: U256::new(nonce, 0),
        balance: U256::new(balance, 0),
        code: vec![],
        storage: vec![],
    }
}

fn same_account(a: &AccountState, b: &AccountState) -> bool {
    a.nonce == b.nonce && a.balance == b.balance && a.code == b.code && a.storage == b.storage
}

fn same_map(a: &StateMap, b: &StateMap) -> bool {
    a.len() == b.len() && a.iter().zip(b.iter()).all(|(x, y)| x.0 == y.0 && same_account(&x.1, &y.1))
}

#[test]
fn missing_pre_account_is_reset_to_defaults() {
    let a = EvmAddress::new(0, 0xa);
    let pre: StateMap = vec![(a, account(0, 100))];
    let post: StateMap = vec![];
    let completed = update_post_state(post, &pre);
    assert_eq!(completed.len(), 1);
    assert_eq!(completed[0].0, a);
    assert_eq!(completed[0].1.nonce, U256::zero());
    assert_eq!(completed[0].1.balance, U256::zero());
    assert!(completed[0].1.code.is_empty());
    assert!(completed[0].1.storage.is_empty());
}

#[test]
fn declared_post_accounts_are_kept() {
    let a = EvmAddress::new(0, 0xa);
    let b = EvmAddress::new(0, 0xb);
    let pre: StateMap = vec![(a, account(1, 50)), (b, account(2, 60))];
    let post: StateMap = vec![(a, account(9, 99))];
    let completed = update_post_state(post, &pre);
    assert_eq!(completed.len(), 2);
    assert_eq!(completed[0].0, a);
    assert_eq!(completed[0].1.nonce, U256::new(9, 0));
    assert_eq!(completed[0].1.balance, U256::new(99, 0));
    assert_eq!(completed[1].0, b);
    assert_eq!(completed[1].1.balance, U256::zero());
}

#[test]
fn completing_twice_changes_nothing() {
    let a = EvmAddress::new(0, 0xa);
    let b = EvmAddress::new(0, 0xb);
    let pre: StateMap = vec![(a, account(1, 50)), (b, account(2, 60))];
    let post: StateMap = vec![(b, account(5, 70))];
    let once = update_post_state(post, &pre);
    let copy: StateMap = once
        .iter()
        .map(|(k, v)| {
            (
                *k,
                AccountState {
                    nonce: v.nonce,
                    balance: v.balance,
                    code: v.code.clone(),
                    storage: v.storage.clone(),
                },
            )
        })
        .collect();
    let twice = update_post_state(copy, &pre);
    assert!(same_map(&once, &twice));
}

#[test]
fn legacy_gas_price_drives_the_fee() {
    let summary = fee_outcome(
        U256::new(21_000, 0),
        U256::zero(),
        U256::new(5, 0),
        U256::zero(),
        U256::zero(),
    )
    .unwrap();
    assert_eq!(summary.effective_price, U256::new(5, 0));
    assert_eq!(summary.transaction_cost, U256::new(105_000, 0));
    assert_eq!(summary.coinbase_gain, U256::new(105_000, 0));
}

#[test]
fn newer_fee_fields_cap_the_priority_fee() {
    // base 10, priority 4, cap 12: the effective price is 12, not 14.
    let summary = fee_outcome(
        U256::new(2, 0),
        U256::new(10, 0),
        U256::zero(),
        U256::new(4, 0),
        U256::new(12, 0),
    )
    .unwrap();
    assert_eq!(summary.effective_price, U256::new(12, 0));
    assert_eq!(summary.transaction_cost, U256::new(24, 0));
    assert_eq!(summary.coinbase_gain, U256::new(4, 0));
}

#[test]
fn uncapped_priority_fee_is_paid_in_full() {
    // base 10, priority 4, cap 20: the effective price is 14.
    let summary = fee_outcome(
        U256::new(1, 0),
        U256::new(10, 0),
        U256::zero(),
        U256::new(4, 0),
        U256::new(20, 0),
    )
    .unwrap();
    assert_eq!(summary.effective_price, U256::new(14, 0));
    assert_eq!(summary.coinbase_gain, U256::new(4, 0));
}

#[test]
fn both_fee_forms_set_is_ambiguous() {
    let r = fee_outcome(
        U256::zero(),
        U256::zero(),
        U256::new(5, 0),
        U256::zero(),
        U256::new(7, 0),
    );
    assert!(matches!(r, Err(RunnerError::AmbiguousFeeSpecification)));
}

#[test]
fn fee_netting_on_shared_sender_and_coinbase() {
    // cost - gain == base_fee * gas_used, so the priority portion cancels.
    let summary = fee_outcome(
        U256::new(3, 0),
        U256::new(10, 0),
        U256::zero(),
        U256::new(4, 0),
        U256::new(20, 0),
    )
    .unwrap();
    let net = summary
        .transaction_cost
        .checked_sub(&summary.coinbase_gain)
        .unwrap();
    assert_eq!(net, U256::new(30, 0));
}
