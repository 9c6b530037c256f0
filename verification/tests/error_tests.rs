use ef_testing::error::{messages_of, DiffEntry, Messages};
use ef_testing::{EvmAddress, U256};

#[test]
fn report_lines_carry_the_address_and_both_values() {
    let a = EvmAddress::new(0, 1);
    let diff = vec![
        DiffEntry::Storage {
            address: a,
            key: U256::zero(),
            expected: U256::new(1, 0),
            actual: U256::zero(),
        },
        DiffEntry::Nonce { address: a, expected: U256::zero(), actual: U256::new(1, 0) },
        DiffEntry::Code { address: a, expected: vec![], actual: vec![0x60, 0x01] },
        DiffEntry::Balance { address: a, expected: U256::zero(), actual: U256::new(0x64, 0) },
    ];
    let messages = messages_of(&diff);
    assert_eq!(
        messages.0,
        vec![
            format!(
                "storage mismatch for 0x{:040x} at 0x{:064x}: expected 0x{:064x}, got 0x{:064x}",
                1, 0, 1, 0
            ),
            format!(
                "nonce mismatch for 0x{:040x}: expected 0x{:064x}, got 0x{:064x}",
                1, 0, 1
            ),
            format!("code mismatch for 0x{:040x}: expected 0x, got 0x6001", 1),
            format!(
                "balance mismatch for 0x{:040x}: expected 0x{:064x}, got 0x{:064x}",
                1, 0, 0x64
            ),
        ]
    );
}

#[test]
fn wide_values_render_across_both_halves() {
    let a = EvmAddress::new(0xab, 0xcd);
    let diff = vec![DiffEntry::Balance {
        address: a,
        expected: U256::new(2, 3),
        actual: U256::new(0, 0),
    }];
    let messages = messages_of(&diff);
    let expected_hex = format!("{:032x}{:032x}", 3u128, 2u128);
    assert_eq!(
        messages.0[0],
        format!(
            "balance mismatch for 0x{:08x}{:032x}: expected 0x{}, got 0x{:064x}",
            0xabu32, 0xcdu128, expected_hex, 0
        )
    );
}

#[test]
fn joined_wraps_every_line_in_breaks() {
    let m = Messages::from(vec!["first".to_string(), "second".to_string()]);
    assert_eq!(m.joined(), "\nfirst\nsecond\n");
}

#[test]
fn joining_no_lines_gives_an_empty_report() {
    let m = Messages::from(Vec::new());
    assert_eq!(m.joined(), "\n\n");
}
