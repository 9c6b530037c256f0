use ef_testing::case::{Block, BlockHeader, BlockchainTestCase, RootOrState, SignedTransaction};
use ethers_core::types::transaction::eip2718::TypedTransaction;
use ethers_core::types::{Eip1559TransactionRequest, TransactionRequest, H160};
use ef_testing::codec::Felt;
use ef_testing::error::RunnerError;
use ef_testing::setup::ChainConfig;
use ef_testing::state::StateMap;
use ef_testing::{AccountState, EvmAddress, U256};

fn config() -> ChainConfig {
    ChainConfig {
        system_address: Felt::from_u128(0x1111),
        eoa_class_hash: Felt::from_u128(0x2222),
        contract_class_hash: Felt::from_u128(0x3333),
        proxy_class_hash: Felt::from_u128(0x4444),
        fee_token_address: Felt::from_u128(0x5555),
        chain_id: 0x4b4b5254,
    }
}

// The address derived from the secret key 1, a fixed point of reference
// for signer derivation.
fn sender_of_key_one() -> EvmAddress {
    EvmAddress::new(0x7E5F4552, 0x091A69125d5DfCb7b8C2659029395Bdf)
}

fn account(nonce: u128, balance: u128) -> AccountState {
    AccountState {
        nonce: U256::new(nonce, 0),
        balance: U256::new(balance, 0),
        code: vec![],
        storage: vec![],
    }
}

fn tx(gas_price: Option<u128>, max_priority: Option<u128>, max_fee: Option<u128>) -> SignedTransaction {
    SignedTransaction {
        chain_id: 1,
        nonce: U256::zero(),
        gas_limit: U256::new(100_000, 0),
        gas_price: gas_price.map(|p| U256::new(p, 0)),
        max_priority_fee_per_gas: max_priority.map(|p| U256::new(p, 0)),
        max_fee_per_gas: max_fee.map(|p| U256::new(p, 0)),
        to: Some(EvmAddress::new(0, 0xbeef)),
        value: U256::zero(),
        input: vec![],
        signature: None,
    }
}

fn wallet_one() -> ethers_signers::LocalWallet {
    let mut b = [0u8; 32];
    b[31] = 1;
    ethers_signers::LocalWallet::from_bytes(&b).unwrap()
}

// A real signed encoding of the transaction the fixture declares.
fn raw_tx(gas_price: Option<u128>, max_priority: Option<u128>, max_fee: Option<u128>) -> Vec<u8> {
    let to = H160::from_low_u64_be(0xbeef);
    let t: TypedTransaction = if let Some(gp) = gas_price {
        TransactionRequest::new()
            .chain_id(1u64)
            .nonce(0u64)
            .gas(100_000u64)
            .gas_price(gp)
            .to(to)
            .value(0u64)
            .into()
    } else {
        let mut r = Eip1559TransactionRequest::new()
            .chain_id(1u64)
            .nonce(0u64)
            .gas(100_000u64)
            .to(to)
            .value(0u64);
        if let Some(p) = max_priority {
            r = r.max_priority_fee_per_gas(p);
        }
        if let Some(m) = max_fee {
            r = r.max_fee_per_gas(m);
        }
        r.into()
    };
    let sig = wallet_one().sign_transaction_sync(&t).unwrap();
    t.rlp_signed(&sig).to_vec()
}

fn block(header: Option<BlockHeader>, gas_price: Option<u128>, max_priority: Option<u128>, max_fee: Option<u128>) -> Block {
    Block {
        block_header: header,
        rlp: raw_tx(gas_price, max_priority, max_fee),
        transactions: vec![tx(gas_price, max_priority, max_fee)],
    }
}

fn header(gas_used: u128, coinbase: EvmAddress, base_fee: Option<u128>) -> BlockHeader {
    BlockHeader {
        number: U256::new(1, 0),
        timestamp: U256::new(1000, 0),
        coinbase,
        gas_used: U256::new(gas_used, 0),
        base_fee_per_gas: base_fee.map(|b| U256::new(b, 0)),
    }
}

fn case(block: Block, pre: StateMap, post: RootOrState) -> BlockchainTestCase {
    BlockchainTestCase::new(
        String::from("simple_case"),
        String::from("general_state_tests"),
        block,
        pre,
        post,
        U256::new(1, 0),
    )
}

#[test]
fn an_unchanged_backend_passes_when_the_fixture_expects_it() {
    // No execution happened in the modeled backend and the expected
    // post-state equals the pre-state with no fees: the case passes.
    let sender = sender_of_key_one();
    let block = block(Some(header(0, EvmAddress::new(0, 0xc0), None)), None, None, None);
    let pre: StateMap = vec![(sender, account(0, 100))];
    let post: StateMap = vec![(sender, account(0, 100))];
    let c = case(block, pre, RootOrState::State(post));
    assert!(c.run(&config()).is_ok());
}

#[test]
fn an_omitted_account_must_read_back_reset() {
    // The fixture omits the funded account from its post-state, so the
    // reconciled expectation is a zeroed account; the unchanged backend
    // still reports the funded balance, which is a state mismatch.
    let sender = sender_of_key_one();
    let block = block(Some(header(0, EvmAddress::new(0, 0xc0), None)), None, None, None);
    let pre: StateMap = vec![(sender, account(0, 100))];
    let c = case(block, pre, RootOrState::State(vec![]));
    match c.run(&config()) {
        Err(RunnerError::StateMismatch(diff)) => {
            assert_eq!(diff.len(), 1);
            assert!(matches!(
                diff[0],
                ef_testing::error::DiffEntry::Balance { .. }
            ));
        }
        other => panic!("expected a state mismatch, got {:?}", other.is_ok()),
    }
}

#[test]
fn both_fee_forms_fail_before_any_comparison() {
    let sender = sender_of_key_one();
    let block = block(Some(header(21_000, EvmAddress::new(0, 0xc0), None)), Some(5), None, Some(7));
    let pre: StateMap = vec![(sender, account(0, 100))];
    let post: StateMap = vec![(sender, account(0, 100))];
    let c = case(block, pre, RootOrState::State(post));
    assert!(matches!(
        c.run(&config()),
        Err(RunnerError::AmbiguousFeeSpecification)
    ));
}

#[test]
fn a_root_hash_post_state_is_unsupported() {
    let sender = sender_of_key_one();
    let block = block(Some(header(0, EvmAddress::new(0, 0xc0), None)), None, None, None);
    let pre: StateMap = vec![(sender, account(0, 100))];
    let c = case(block, pre, RootOrState::Root(U256::new(0xdead, 0)));
    assert!(matches!(
        c.run(&config()),
        Err(RunnerError::UnsupportedPostStateForm)
    ));
}

#[test]
fn a_block_without_transactions_is_rejected() {
    let sender = sender_of_key_one();
    let block = Block {
        block_header: Some(header(0, EvmAddress::new(0, 0xc0), None)),
        rlp: raw_tx(None, None, None),
        transactions: vec![],
    };
    let pre: StateMap = vec![(sender, account(0, 100))];
    let c = case(block, pre, RootOrState::State(vec![]));
    assert!(matches!(c.run(&config()), Err(RunnerError::Other(_))));
}

#[test]
fn an_oversized_nonce_aborts_the_setup() {
    let sender = sender_of_key_one();
    let block = block(Some(header(0, EvmAddress::new(0, 0xc0), None)), None, None, None);
    let pre: StateMap = vec![(sender, AccountState {
        nonce: U256::new(0, 1),
        balance: U256::zero(),
        code: vec![],
        storage: vec![],
    })];
    let c = case(block, pre, RootOrState::State(vec![]));
    assert!(matches!(c.run(&config()), Err(RunnerError::SequencerError(_))));
}

#[test]
fn legacy_fees_are_charged_to_the_sender() {
    // Gas price 3 over 10 units of gas: the sender's read-back balance is
    // debited by 30 before comparison, so an expected balance of 70
    // matches the unchanged backend balance of 100.
    let sender = sender_of_key_one();
    let coinbase = EvmAddress::new(0, 0xc0);
    let block = block(Some(header(10, coinbase, None)), Some(3), None, None);
    let pre: StateMap = vec![(sender, account(0, 100))];
    let post: StateMap = vec![(sender, account(0, 70))];
    let c = case(block, pre, RootOrState::State(post));
    assert!(c.run(&config()).is_ok());
}

#[test]
fn the_wallet_rejects_an_invalid_secret_key() {
    // Zero is not a valid secp256k1 secret scalar.
    let block = block(None, None, None, None);
    let c = BlockchainTestCase::new(
        String::from("invalid_key_case"),
        String::from("general_state_tests"),
        block,
        vec![],
        RootOrState::State(vec![]),
        U256::zero(),
    );
    assert!(matches!(c.run(&config()), Err(RunnerError::Other(_))));
}

#[test]
fn prepare_transaction_overwrites_the_chain_id() {
    let block = block(None, Some(5), None, None);
    let c = case(block, vec![], RootOrState::State(vec![]));
    let prepared = c.prepare_transaction(0x4b4b5254).unwrap();
    assert_eq!(prepared.chain_id, 0x4b4b5254);
    assert_eq!(prepared.gas_price, Some(U256::new(5, 0)));
    assert_eq!(prepared.to, Some(EvmAddress::new(0, 0xbeef)));
    assert!(prepared.signature.is_some());
}

#[test]
fn materialized_storage_reads_back_through_the_full_run() {
    // A contract account's split storage entries survive the write/read
    // round trip: the fixture expects exactly the pre-state it declared,
    // and the unchanged backend reproduces it.
    let sender = sender_of_key_one();
    let contract = EvmAddress::new(0, 0xc0de);
    let contract_account = || AccountState {
        nonce: U256::new(1, 0),
        balance: U256::new(50, 0),
        code: vec![0x60, 0x01, 0x60, 0x00, 0x55],
        storage: vec![(U256::new(2, 7), U256::new(11, 13))],
    };
    let block = block(Some(header(0, EvmAddress::new(0, 0xcb), None)), None, None, None);
    let pre: StateMap = vec![(sender, account(0, 100)), (contract, contract_account())];
    let post: StateMap = vec![(sender, account(0, 100)), (contract, contract_account())];
    let c = case(block, pre, RootOrState::State(post));
    assert!(c.run(&config()).is_ok());
}


fn u256_from_eth(v: ethers_core::types::U256) -> U256 {
    U256::new(
        u128::from(v.0[0]) | (u128::from(v.0[1]) << 64),
        u128::from(v.0[2]) | (u128::from(v.0[3]) << 64),
    )
}

#[test]
fn a_malformed_encoding_is_a_decode_error() {
    let sender = sender_of_key_one();
    let bad = Block {
        block_header: Some(header(0, EvmAddress::new(0, 0xc0), None)),
        rlp: vec![0x01, 0x02, 0x03],
        transactions: vec![tx(None, None, None)],
    };
    let pre: StateMap = vec![(sender, account(0, 100))];
    let c = case(bad, pre, RootOrState::State(vec![]));
    assert!(matches!(c.run(&config()), Err(RunnerError::DecodeError(_))));
}

#[test]
fn the_signature_is_recomputed_over_the_overwritten_chain_id() {
    // Prepare under the harness chain id, then recompute the expected
    // signature independently over the same overwritten payload.
    let b = block(None, Some(5), None, None);
    let c = case(b, vec![], RootOrState::State(vec![]));
    let prepared = c.prepare_transaction(0x4b4b5254).unwrap();
    let expected_payload: TypedTransaction = TransactionRequest::new()
        .chain_id(0x4b4b5254u64)
        .nonce(0u64)
        .gas(100_000u64)
        .gas_price(5u64)
        .to(H160::from_low_u64_be(0xbeef))
        .value(0u64)
        .into();
    let expected = wallet_one().sign_transaction_sync(&expected_payload).unwrap();
    let got = prepared.signature.unwrap();
    assert_eq!(got.r, u256_from_eth(expected.r));
    assert_eq!(got.s, u256_from_eth(expected.s));
    assert_eq!(got.v, expected.v);
}
