use ef_testing::diff::compute_diff;
use ef_testing::error::DiffEntry;
use ef_testing::reconcile::{fee_outcome, update_post_state, FeeSummary};
use ef_testing::state::StateMap;
use ef_testing::{AccountState, EvmAddress, U256};

fn account(nonce: u128, balance: u128) -> AccountState {
    AccountState {
        nonce: U256::new(nonce, 0),
        balance: U256::new(balance, 0),
        code: vec![],
        storage: vec![],
    }
}

fn no_fees() -> FeeSummary {
    fee_outcome(U256::zero(), U256::zero(), U256::zero(), U256::zero(), U256::zero()).unwrap()
}

fn other(n: u128) -> EvmAddress {
    EvmAddress::new(9, n)
}

#[test]
fn reset_account_left_funded_reports_a_balance_mismatch() {
    // Pre-state holds one funded account, the expected post-state is
    // empty, and the backend was left unchanged: the reconciled
    // expectation is a zeroed account, so only the balance differs.
    let a = EvmAddress::new(0, 0xa);
    let pre: StateMap = vec![(a, account(0, 100))];
    let completed = update_post_state(vec![], &pre);
    let observed: StateMap = vec![(a, account(0, 100))];
    let diff = compute_diff(&completed, &observed, other(1), other(2), &no_fees()).unwrap();
    assert_eq!(diff.len(), 1);
    match &diff[0] {
        DiffEntry::Balance { address, expected, actual } => {
            assert_eq!(*address, a);
            assert_eq!(*expected, U256::zero());
            assert_eq!(*actual, U256::new(100, 0));
        }
        _ => panic!("expected a balance entry"),
    }
}

#[test]
fn matching_contract_storage_passes() {
    // A contract whose code stored 1 at key 0; the expected post-state
    // declares storage {0: 1} and the backend reports the same: no diff.
    let a = EvmAddress::new(0, 0xc);
    let expected_account = AccountState {
        nonce: U256::zero(),
        balance: U256::zero(),
        code: vec![0x60, 0x01, 0x60, 0x00, 0x55],
        storage: vec![(U256::zero(), U256::new(1, 0))],
    };
    let observed_account = AccountState {
        nonce: U256::zero(),
        balance: U256::zero(),
        code: vec![0x60, 0x01, 0x60, 0x00, 0x55],
        storage: vec![(U256::zero(), U256::new(1, 0))],
    };
    let completed: StateMap = vec![(a, expected_account)];
    let observed: StateMap = vec![(a, observed_account)];
    let diff = compute_diff(&completed, &observed, other(1), other(2), &no_fees()).unwrap();
    assert!(diff.is_empty());
}

#[test]
fn storage_mismatch_is_reported_per_key() {
    let a = EvmAddress::new(0, 0xc);
    let expected_account = AccountState {
        nonce: U256::zero(),
        balance: U256::zero(),
        code: vec![],
        storage: vec![(U256::zero(), U256::new(1, 0)), (U256::new(1, 0), U256::new(2, 0))],
    };
    let observed_account = AccountState {
        nonce: U256::zero(),
        balance: U256::zero(),
        code: vec![],
        storage: vec![(U256::zero(), U256::new(1, 0))],
    };
    let completed: StateMap = vec![(a, expected_account)];
    let observed: StateMap = vec![(a, observed_account)];
    let diff = compute_diff(&completed, &observed, other(1), other(2), &no_fees()).unwrap();
    assert_eq!(diff.len(), 1);
    match &diff[0] {
        DiffEntry::Storage { key, expected, actual, .. } => {
            assert_eq!(*key, U256::new(1, 0));
            assert_eq!(*expected, U256::new(2, 0));
            assert_eq!(*actual, U256::zero());
        }
        _ => panic!("expected a storage entry"),
    }
}

#[test]
fn every_mismatch_is_accumulated() {
    let a = EvmAddress::new(0, 0xd);
    let completed: StateMap = vec![(a, account(1, 5))];
    let observed: StateMap = vec![(
        a,
        AccountState {
            nonce: U256::new(2, 0),
            balance: U256::new(6, 0),
            code: vec![0x00],
            storage: vec![],
        },
    )];
    let diff = compute_diff(&completed, &observed, other(1), other(2), &no_fees()).unwrap();
    assert_eq!(diff.len(), 3);
    assert!(matches!(diff[0], DiffEntry::Nonce { .. }));
    assert!(matches!(diff[1], DiffEntry::Code { .. }));
    assert!(matches!(diff[2], DiffEntry::Balance { .. }));
}

#[test]
fn sender_balance_is_debited_by_the_transaction_cost() {
    let sender = EvmAddress::new(0, 0x5e);
    let fee = fee_outcome(
        U256::new(10, 0),
        U256::zero(),
        U256::new(3, 0),
        U256::zero(),
        U256::zero(),
    )
    .unwrap();
    // The backend still reports 100; after debiting the cost of 30 the
    // adjusted balance matches an expected 70.
    let completed: StateMap = vec![(sender, account(0, 70))];
    let observed: StateMap = vec![(sender, account(0, 100))];
    let diff = compute_diff(&completed, &observed, sender, other(2), &fee).unwrap();
    assert!(diff.is_empty());
}

#[test]
fn coinbase_balance_is_credited_with_the_gain() {
    let coinbase = EvmAddress::new(0, 0xcb);
    let fee = fee_outcome(
        U256::new(10, 0),
        U256::new(1, 0),
        U256::zero(),
        U256::new(2, 0),
        U256::new(3, 0),
    )
    .unwrap();
    // Price 3, base 1: the coinbase earns 20 on 10 gas.
    let completed: StateMap = vec![(coinbase, account(0, 120))];
    let observed: StateMap = vec![(coinbase, account(0, 100))];
    let diff = compute_diff(&completed, &observed, other(1), coinbase, &fee).unwrap();
    assert!(diff.is_empty());
}

#[test]
fn shared_sender_and_coinbase_nets_to_the_base_fee() {
    let both = EvmAddress::new(0, 0xab);
    let fee = fee_outcome(
        U256::new(10, 0),
        U256::new(1, 0),
        U256::zero(),
        U256::new(2, 0),
        U256::new(3, 0),
    )
    .unwrap();
    // Cost 30 debited, gain 20 credited: the net debit is 10, exactly
    // base fee times gas used.
    let completed: StateMap = vec![(both, account(0, 90))];
    let observed: StateMap = vec![(both, account(0, 100))];
    let diff = compute_diff(&completed, &observed, both, both, &fee).unwrap();
    assert!(diff.is_empty());
}

#[test]
fn unresolvable_account_fails_the_reads() {
    let a = EvmAddress::new(0, 0xa);
    let completed: StateMap = vec![(a, account(0, 0))];
    let observed: StateMap = vec![];
    let r = compute_diff(&completed, &observed, other(1), other(2), &no_fees());
    assert!(matches!(r, Err(ef_testing::error::RunnerError::SequencerError(_))));
}
