use ef_testing::codec::{address_of, uint256_addresses_of, CodecError, Felt};

#[test]
fn address_of_is_deterministic() {
    let a = address_of("storage_", vec![Felt::from_u128(7)]).unwrap();
    let b = address_of("storage_", vec![Felt::from_u128(7)]).unwrap();
    assert!(a.eq_slot(&b));
}

#[test]
fn address_of_distinct_names_differ() {
    let a = address_of("storage_", vec![]).unwrap();
    let b = address_of("bytecode_", vec![]).unwrap();
    assert!(!a.eq_slot(&b));
}

#[test]
fn address_of_distinct_keys_differ() {
    let a = address_of("storage_", vec![Felt::from_u128(1)]).unwrap();
    let b = address_of("storage_", vec![Felt::from_u128(2)]).unwrap();
    assert!(!a.eq_slot(&b));
    let c = address_of("storage_", vec![]).unwrap();
    assert!(!a.eq_slot(&c));
}

#[test]
fn address_of_rejects_non_ascii() {
    let r = address_of("variablé", vec![]);
    assert!(matches!(r, Err(CodecError::InvalidVariableName)));
}

#[test]
fn uint256_addresses_differ_only_in_offset() {
    let (lo, hi) = uint256_addresses_of("ERC20_balances", vec![Felt::from_u128(9)]).unwrap();
    assert_eq!(lo.offset, 0);
    assert_eq!(hi.offset, 1);
    assert!(!lo.eq_slot(&hi));
    assert_eq!(lo.name, hi.name);
    assert_eq!(lo.keys.len(), 1);
}

#[test]
fn uint256_addresses_reject_non_ascii() {
    assert!(uint256_addresses_of("solde…", vec![]).is_err());
}

#[test]
fn duplicate_preserves_the_slot() {
    let a = address_of("evm_address", vec![Felt::from_u32(3)]).unwrap();
    let b = a.duplicate();
    assert!(a.eq_slot(&b));
}

#[test]
fn felt_from_address_packs_both_parts() {
    let addr = ef_testing::EvmAddress::new(0x1234, 0x5678);
    let f = Felt::from_address(&addr);
    assert_eq!(f.lo, 0x5678);
    assert_eq!(f.hi, 0x1234);
}
