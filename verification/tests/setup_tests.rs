use ef_testing::codec::{address_of, Felt, SlotAddress};
use ef_testing::setup::{fund, materialize, ChainConfig, SetupError};
use ef_testing::{EvmAddress, U256};

fn config() -> ChainConfig {
    ChainConfig {
        system_address: Felt::from_u128(0x1111),
        eoa_class_hash: Felt::from_u128(0x2222),
        contract_class_hash: Felt::from_u128(0x3333),
        proxy_class_hash: Felt::from_u128(0x4444),
        fee_token_address: Felt::from_u128(0x5555),
        chain_id: 0x4b4b5254,
    }
}

fn lookup(writes: &[(SlotAddress, Felt)], name: &str, keys: Vec<Felt>) -> Option<Felt> {
    let slot = address_of(name, keys).unwrap();
    for (s, v) in writes {
        if s.eq_slot(&slot) {
            return Some(*v);
        }
    }
    None
}

#[test]
fn plain_account_sets_native_nonce_and_eoa_class() {
    let cfg = config();
    let addr = EvmAddress::new(0, 0xabcd);
    let plan = materialize(&cfg, &addr, &vec![], U256::new(7, 0), &vec![]).unwrap();
    assert_eq!(plan.native_nonce, Some(Felt::from_u128(7)));
    assert_eq!(plan.class_hash, cfg.proxy_class_hash);
    assert_eq!(
        lookup(&plan.writes, "_implementation", vec![]),
        Some(cfg.eoa_class_hash)
    );
    assert_eq!(lookup(&plan.writes, "nonce", vec![]), None);
    assert_eq!(
        lookup(&plan.writes, "is_initialized_", vec![]),
        Some(Felt::from_u128(1))
    );
    assert_eq!(
        lookup(&plan.writes, "Ownable_owner", vec![]),
        Some(cfg.system_address)
    );
    assert_eq!(
        lookup(&plan.writes, "bytecode_len_", vec![]),
        Some(Felt::from_u128(0))
    );
    assert_eq!(
        lookup(&plan.writes, "evm_address", vec![]),
        Some(Felt::from_address(&addr))
    );
}

#[test]
fn contract_account_packs_bytecode_and_storage() {
    let cfg = config();
    let addr = EvmAddress::new(0, 0xabcd);
    // PUSH1 1, PUSH1 0, SSTORE
    let code: Vec<u8> = vec![0x60, 0x01, 0x60, 0x00, 0x55];
    let storage = vec![(U256::new(3, 5), U256::new(9, 11))];
    let plan = materialize(&cfg, &addr, &code, U256::zero(), &storage).unwrap();
    assert_eq!(plan.native_nonce, None);
    assert_eq!(
        lookup(&plan.writes, "_implementation", vec![]),
        Some(cfg.contract_class_hash)
    );
    assert_eq!(lookup(&plan.writes, "nonce", vec![]), Some(Felt::from_u128(0)));
    assert_eq!(
        lookup(&plan.writes, "bytecode_len_", vec![]),
        Some(Felt::from_u128(5))
    );
    // One chunk, big-endian, right-padded with zero bytes.
    assert_eq!(
        lookup(&plan.writes, "bytecode_", vec![Felt::from_u128(0)]),
        Some(Felt::from_u128(0x6001_6000_5500_0000_0000_0000_0000_0000))
    );
    // Each storage entry becomes two half-word slots, paired positionally.
    assert_eq!(
        lookup(&plan.writes, "storage_", vec![Felt::from_u128(3)]),
        Some(Felt::from_u128(9))
    );
    assert_eq!(
        lookup(&plan.writes, "storage_", vec![Felt::from_u128(5)]),
        Some(Felt::from_u128(11))
    );
}

#[test]
fn bytecode_longer_than_one_chunk_is_indexed() {
    let cfg = config();
    let addr = EvmAddress::new(1, 2);
    let code: Vec<u8> = (1u8..=18u8).collect();
    let plan = materialize(&cfg, &addr, &code, U256::zero(), &vec![]).unwrap();
    assert_eq!(
        lookup(&plan.writes, "bytecode_", vec![Felt::from_u128(0)]),
        Some(Felt::from_u128(0x0102_0304_0506_0708_090a_0b0c_0d0e_0f10))
    );
    assert_eq!(
        lookup(&plan.writes, "bytecode_", vec![Felt::from_u128(1)]),
        Some(Felt::from_u128(0x1112_0000_0000_0000_0000_0000_0000_0000))
    );
}

#[test]
fn registry_entry_maps_the_evm_address() {
    let cfg = config();
    let addr = EvmAddress::new(0xaa, 0xbb);
    let plan = materialize(&cfg, &addr, &vec![], U256::zero(), &vec![]).unwrap();
    let slot = address_of("evm_to_native_address", vec![Felt::from_address(&addr)]).unwrap();
    assert!(plan.registry_write.0.eq_slot(&slot));
    assert_eq!(plan.registry_write.1, Felt::from_address(&addr));
}

#[test]
fn oversized_nonce_is_out_of_range() {
    let cfg = config();
    let addr = EvmAddress::new(0, 1);
    let r = materialize(&cfg, &addr, &vec![], U256::new(0, 1), &vec![]);
    assert!(matches!(r, Err(SetupError::OutOfRange)));
}

#[test]
fn funding_writes_balance_halves_and_unlimited_allowance() {
    let cfg = config();
    let addr = EvmAddress::new(0, 0xabcd);
    let plan = fund(&cfg, &addr, U256::new(100, 3));
    assert_eq!(plan.writes.len(), 4);
    // Balance: low half at offset zero, high half at offset one.
    assert_eq!(plan.writes[0].1, Felt::from_u128(100));
    assert_eq!(plan.writes[0].0.offset, 0);
    assert_eq!(plan.writes[1].1, Felt::from_u128(3));
    assert_eq!(plan.writes[1].0.offset, 1);
    // Allowance: the maximum representable value in both halves.
    assert_eq!(plan.writes[2].1, Felt::from_u128(u128::MAX));
    assert_eq!(plan.writes[3].1, Felt::from_u128(u128::MAX));
    assert_eq!(plan.target, Felt::from_address(&addr));
}
