use ef_testing::codec::{address_of, Felt};
use ef_testing::evm_state::{BlockEnv, SequencerState};
use ef_testing::setup::{fund, materialize, ChainConfig};
use ef_testing::{EvmAddress, U256};

fn config() -> ChainConfig {
    ChainConfig {
        system_address: Felt::from_u128(0x1111),
        eoa_class_hash: Felt::from_u128(0x2222),
        contract_class_hash: Felt::from_u128(0x3333),
        proxy_class_hash: Felt::from_u128(0x4444),
        fee_token_address: Felt::from_u128(0x5555),
        chain_id: 0x4b4b5254,
    }
}

fn ready_state() -> SequencerState {
    let env = BlockEnv { number: 1, timestamp: 1000, coinbase: EvmAddress::new(0, 0xc0) };
    let mut s = SequencerState::new(config(), env);
    s.setup_state();
    s
}

#[test]
fn the_last_write_to_a_slot_wins() {
    let mut s = ready_state();
    let t = Felt::from_u128(1);
    let slot = address_of("nonce", vec![]).unwrap();
    s.set_storage_at(t, slot.duplicate(), Felt::from_u128(10));
    s.set_storage_at(t, slot.duplicate(), Felt::from_u128(20));
    assert_eq!(s.read_slot(t, &slot), Felt::from_u128(20));
}

#[test]
fn an_unwritten_slot_reads_zero() {
    let s = ready_state();
    let slot = address_of("nonce", vec![]).unwrap();
    assert_eq!(s.read_slot(Felt::from_u128(7), &slot), Felt::zero());
}

#[test]
fn reads_on_an_unregistered_account_fail() {
    let s = ready_state();
    let a = EvmAddress::new(0, 0xa);
    assert!(s.get_nonce_at(&a).is_err());
    assert!(s.get_balance_at(&a).is_err());
    assert!(s.get_code_at(&a).is_err());
    assert!(s.get_storage_at(&a, U256::zero()).is_err());
}

#[test]
fn a_materialized_plain_account_reads_back() {
    let mut s = ready_state();
    let cfg = config();
    let a = EvmAddress::new(0, 0xa);
    let plan = materialize(&cfg, &a, &vec![], U256::new(7, 0), &vec![]).unwrap();
    s.apply_setup(&plan);
    let funding = fund(&cfg, &a, U256::new(100, 2));
    s.apply_funding(&funding);
    assert_eq!(s.get_nonce_at(&a).unwrap(), U256::new(7, 0));
    assert_eq!(s.get_balance_at(&a).unwrap(), U256::new(100, 2));
    assert_eq!(s.get_code_at(&a).unwrap(), Vec::<u8>::new());
}

#[test]
fn a_materialized_contract_account_reads_back() {
    let mut s = ready_state();
    let cfg = config();
    let a = EvmAddress::new(0, 0xc);
    let code: Vec<u8> = vec![0x60, 0x01, 0x60, 0x00, 0x55];
    let storage = vec![(U256::new(3, 5), U256::new(9, 11))];
    let plan = materialize(&cfg, &a, &code, U256::new(4, 0), &storage).unwrap();
    s.apply_setup(&plan);
    // The contract account keeps its nonce in the `nonce` storage variable.
    assert_eq!(s.get_nonce_at(&a).unwrap(), U256::new(4, 0));
    // Packed bytecode unpacks to the original bytes.
    assert_eq!(s.get_code_at(&a).unwrap(), code);
    // The split halves are re-assembled by the reader.
    assert_eq!(s.get_storage_at(&a, U256::new(3, 5)).unwrap(), U256::new(9, 11));
}

#[test]
fn long_bytecode_round_trips_through_the_chunks() {
    let mut s = ready_state();
    let cfg = config();
    let a = EvmAddress::new(0, 0xcc);
    let code: Vec<u8> = (0u8..=40u8).collect();
    let plan = materialize(&cfg, &a, &code, U256::zero(), &vec![]).unwrap();
    s.apply_setup(&plan);
    assert_eq!(s.get_code_at(&a).unwrap(), code);
}

#[test]
fn execution_leaves_the_state_unchanged() {
    let mut s = ready_state();
    let cfg = config();
    let a = EvmAddress::new(0, 0xa);
    let plan = materialize(&cfg, &a, &vec![], U256::zero(), &vec![]).unwrap();
    s.apply_setup(&plan);
    let tx = ef_testing::case::SignedTransaction {
        chain_id: cfg.chain_id,
        nonce: U256::zero(),
        gas_limit: U256::zero(),
        gas_price: None,
        max_priority_fee_per_gas: None,
        max_fee_per_gas: None,
        to: Some(a),
        value: U256::zero(),
        input: vec![],
        signature: None,
    };
    let outcome = s.execute_transaction(&tx);
    assert!(matches!(
        outcome,
        ef_testing::evm_state::ExecutionOutcome::NotExecuted(_)
    ));
    assert_eq!(s.get_nonce_at(&a).unwrap(), U256::zero());
}

#[test]
fn setup_account_and_fund_form_the_adapter_surface() {
    let mut s = ready_state();
    let a = EvmAddress::new(0, 0xee);
    s.setup_account(&a, &vec![], U256::new(3, 0), &vec![]).unwrap();
    s.fund(&a, U256::new(777, 0));
    assert_eq!(s.get_nonce_at(&a).unwrap(), U256::new(3, 0));
    assert_eq!(s.get_balance_at(&a).unwrap(), U256::new(777, 0));
}

#[test]
fn setup_account_rejects_a_wide_nonce_and_leaves_no_trace() {
    let mut s = ready_state();
    let a = EvmAddress::new(0, 0xee);
    assert!(s.setup_account(&a, &vec![], U256::new(0, 1), &vec![]).is_err());
    assert!(s.get_nonce_at(&a).is_err());
}
