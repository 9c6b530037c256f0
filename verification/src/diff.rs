//! The differential verifier: a field-by-field comparison of the
//! completed expected post-state against the account states read back from
//! the backend, with the fee adjustments applied to balances.
//!
//! For every account, in order, it compares storage (per expected key),
//! nonce, code, and the fee-adjusted balance, and accumulates every
//! mismatch; it never stops at the first one.

use vstd::prelude::*;

use crate::error::{DiffEntry, Messages, RunnerError};
use crate::reconcile::FeeSummary;
use crate::state::{assoc_at, assoc_has, copy_bytes, find_account, AccountState, EvmAddress, StateMap};
use crate::word::{pow2_128, pow2_256, U256};

verus! {

/// The word with the given value.
pub open spec fn word_from_int(v: int) -> U256 {
    U256 { lo: (v % pow2_128()) as u128, hi: (v / pow2_128()) as u128 }
}

/// An account's read-back balance after the fee adjustments: the
/// transaction cost is debited from the sender, the coinbase gain credited
/// to the fee recipient; on a shared account both apply and net.
pub open spec fn spec_adjusted_balance(
    obs: AccountState,
    addr: EvmAddress,
    sender: EvmAddress,
    coinbase: EvmAddress,
    cost: int,
    gain: int,
) -> int {
    obs.balance.val() - (if addr == sender {
        cost
    } else {
        0
    }) + (if addr == coinbase {
        gain
    } else {
        0
    })
}

/// The storage mismatches of one account, over the expected entries in
/// order.
pub open spec fn spec_storage_diff(
    addr: EvmAddress,
    entries: Seq<(U256, U256)>,
    obs: AccountState,
) -> Seq<DiffEntry>
    decreases entries.len(),
{
    if entries.len() == 0 {
        Seq::empty()
    } else {
        spec_storage_diff(addr, entries.drop_last(), obs) + (if obs.storage_word(
            entries.last().0,
        ) != entries.last().1.val() {
            seq![
                DiffEntry::Storage {
                    address: addr,
                    key: entries.last().0,
                    expected: entries.last().1,
                    actual: word_from_int(obs.storage_word(entries.last().0)),
                },
            ]
        } else {
            Seq::empty()
        })
    }
}

/// All mismatches of one account, in comparison order: storage, nonce,
/// code, adjusted balance.
pub open spec fn spec_account_diff(
    addr: EvmAddress,
    exp: AccountState,
    obs: AccountState,
    sender: EvmAddress,
    coinbase: EvmAddress,
    cost: int,
    gain: int,
) -> Seq<DiffEntry> {
    spec_storage_diff(addr, exp.storage@, obs) + (if obs.nonce.val() != exp.nonce.val() {
        seq![DiffEntry::Nonce { address: addr, expected: exp.nonce, actual: obs.nonce }]
    } else {
        Seq::empty()
    }) + (if obs.code@ != exp.code@ {
        seq![DiffEntry::Code { address: addr, expected: exp.code, actual: obs.code }]
    } else {
        Seq::empty()
    }) + (if spec_adjusted_balance(obs, addr, sender, coinbase, cost, gain) != exp.balance.val() {
        seq![
            DiffEntry::Balance {
                address: addr,
                expected: exp.balance,
                actual: word_from_int(
                    spec_adjusted_balance(obs, addr, sender, coinbase, cost, gain),
                ),
            },
        ]
    } else {
        Seq::empty()
    })
}

/// All mismatches of all accounts, in account order.
pub open spec fn spec_state_diff(
    completed: Seq<(EvmAddress, AccountState)>,
    observed: Seq<(EvmAddress, AccountState)>,
    sender: EvmAddress,
    coinbase: EvmAddress,
    cost: int,
    gain: int,
) -> Seq<DiffEntry>
    decreases completed.len(),
{
    if completed.len() == 0 {
        Seq::empty()
    } else {
        spec_state_diff(completed.drop_last(), observed, sender, coinbase, cost, gain)
            + spec_account_diff(
            completed.last().0,
            completed.last().1,
            assoc_at(observed, completed.last().0),
            sender,
            coinbase,
            cost,
            gain,
        )
    }
}

/// One executable diff entry carries the same content as its mathematical
/// counterpart.
pub open spec fn entry_matches(a: DiffEntry, b: DiffEntry) -> bool {
    match (a, b) {
        (
            DiffEntry::Storage { address: a1, key: k1, expected: e1, actual: c1 },
            DiffEntry::Storage { address: a2, key: k2, expected: e2, actual: c2 },
        ) => a1 == a2 && k1 == k2 && e1 == e2 && c1 == c2,
        (
            DiffEntry::Nonce { address: a1, expected: e1, actual: c1 },
            DiffEntry::Nonce { address: a2, expected: e2, actual: c2 },
        ) => a1 == a2 && e1 == e2 && c1 == c2,
        (
            DiffEntry::Code { address: a1, expected: e1, actual: c1 },
            DiffEntry::Code { address: a2, expected: e2, actual: c2 },
        ) => a1 == a2 && e1@ == e2@ && c1@ == c2@,
        (
            DiffEntry::Balance { address: a1, expected: e1, actual: c1 },
            DiffEntry::Balance { address: a2, expected: e2, actual: c2 },
        ) => a1 == a2 && e1 == e2 && c1 == c2,
        _ => false,
    }
}

/// An executable diff carries the same content as its mathematical
/// counterpart, entry by entry.
pub open spec fn diff_matches(d: Seq<DiffEntry>, m: Seq<DiffEntry>) -> bool {
    d.len() == m.len() && forall|i: int|
        0 <= i < d.len() ==> entry_matches(#[trigger] d[i], m[i])
}

/// Appending matching entries keeps a diff matching.
proof fn lemma_diff_push(d: Seq<DiffEntry>, m: Seq<DiffEntry>, e: DiffEntry, me: DiffEntry)
    requires
        diff_matches(d, m),
        entry_matches(e, me),
    ensures
        diff_matches(d.push(e), m + seq![me]),
{
    let d2 = d.push(e);
    let m2 = m + seq![me];
    assert forall|i: int| 0 <= i < d2.len() implies entry_matches(#[trigger] d2[i], m2[i]) by {
        if i < d.len() {
            assert(d2[i] == d[i]);
            assert(m2[i] == m[i]);
        } else {
            assert(d2[i] == e);
            assert(m2[i] == me);
        }
    }
}

/// Concatenating matching diffs keeps them matching.
proof fn lemma_diff_concat(a: Seq<DiffEntry>, sa: Seq<DiffEntry>, b: Seq<DiffEntry>, sb: Seq<DiffEntry>)
    requires
        diff_matches(a, sa),
        diff_matches(b, sb),
    ensures
        diff_matches(a + b, sa + sb),
{
    let d2 = a + b;
    let m2 = sa + sb;
    assert forall|i: int| 0 <= i < d2.len() implies entry_matches(#[trigger] d2[i], m2[i]) by {
        if i < a.len() {
            assert(d2[i] == a[i]);
            assert(m2[i] == sa[i]);
        } else {
            assert(d2[i] == b[i - a.len()]);
            assert(m2[i] == sb[i - a.len()]);
        }
    }
}

/// Compares two byte vectors.
fn bytes_eq(a: &Vec<u8>, b: &Vec<u8>) -> (r: bool)
    ensures
        r == (a@ == b@),
{
    if a.len() != b.len() {
        proof {
            assert(a@ != b@);
        }
        return false;
    }
    let mut i: usize = 0;
    while i < a.len()
        invariant
            0 <= i <= a@.len(),
            a@.len() == b@.len(),
            forall|j: int| 0 <= j < i ==> a@[j] == b@[j],
        decreases a@.len() - i,
    {
        if a[i] != b[i] {
            return false;
        }
        i = i + 1;
    }
    proof {
        assert(a@ =~= b@);
    }
    true
}

/// Compares every account of the completed expected post-state against the
/// backend's read-back state, accumulating every mismatch in comparison
/// order. Fails exactly when the backend state cannot resolve one of the
/// compared accounts.
/// The fee adjustments are representable on every resolvable compared
/// account: the sender can cover the transaction cost, and no adjusted
/// balance leaves the word range.
pub open spec fn spec_balances_adjustable(
    completed: Seq<(EvmAddress, AccountState)>,
    observed: Seq<(EvmAddress, AccountState)>,
    sender: EvmAddress,
    coinbase: EvmAddress,
    cost: int,
    gain: int,
) -> bool {
    &&& forall|i: int|
        0 <= i < completed.len() && assoc_has(observed, (#[trigger] completed[i]).0)
            && completed[i].0 == sender ==> cost <= assoc_at(
            observed,
            completed[i].0,
        ).balance.val()
    &&& forall|i: int|
        0 <= i < completed.len() && assoc_has(observed, (#[trigger] completed[i]).0) ==> {
            let adj = spec_adjusted_balance(
                assoc_at(observed, completed[i].0),
                completed[i].0,
                sender,
                coinbase,
                cost,
                gain,
            );
            0 <= adj < pow2_256()
        }
}

pub fn compute_diff(
    completed: &StateMap,
    observed: &StateMap,
    sender: EvmAddress,
    coinbase: EvmAddress,
    fee: &FeeSummary,
) -> (r: Result<Vec<DiffEntry>, RunnerError>)
    ensures
        (r is Ok) <==> ((forall|i: int|
            0 <= i < completed@.len() ==> assoc_has(observed@, (#[trigger] completed@[i]).0))
            && spec_balances_adjustable(
            completed@,
            observed@,
            sender,
            coinbase,
            fee.transaction_cost.val(),
            fee.coinbase_gain.val(),
        )),
        r matches Err(e) ==> (e is SequencerError),
        r matches Ok(d) ==> diff_matches(
            d@,
            spec_state_diff(
                completed@,
                observed@,
                sender,
                coinbase,
                fee.transaction_cost.val(),
                fee.coinbase_gain.val(),
            ),
        ),
{
    let ghost cost = fee.transaction_cost.val();
    let ghost gain = fee.coinbase_gain.val();
    let mut diff: Vec<DiffEntry> = Vec::new();
    let mut i: usize = 0;
    while i < completed.len()
        invariant
            0 <= i <= completed@.len(),
            cost == fee.transaction_cost.val(),
            gain == fee.coinbase_gain.val(),
            forall|k: int|
                0 <= k < i ==> assoc_has(observed@, (#[trigger] completed@[k]).0),
            forall|k: int|
                0 <= k < i && completed@[k].0 == sender ==> cost <= assoc_at(
                    observed@,
                    (#[trigger] completed@[k]).0,
                ).balance.val(),
            forall|k: int|
                0 <= k < i ==> {
                    let adj = spec_adjusted_balance(
                        assoc_at(observed@, (#[trigger] completed@[k]).0),
                        completed@[k].0,
                        sender,
                        coinbase,
                        cost,
                        gain,
                    );
                    0 <= adj < pow2_256()
                },
            diff_matches(
                diff@,
                spec_state_diff(completed@.take(i as int), observed@, sender, coinbase, cost, gain),
            ),
        decreases completed@.len() - i,
    {
        let entry = &completed[i];
        let addr = entry.0;
        let exp = &entry.1;
        let obs: &AccountState = match find_account(observed, &addr) {
            Some(o) => o,
            None => {
                let mut lines: Vec<String> = Vec::new();
                lines.push(String::from_str("account not resolvable in backend state"));
                return Err(RunnerError::SequencerError(Messages(lines)));
            },
        };
        let ghost prefix = spec_state_diff(
            completed@.take(i as int),
            observed@,
            sender,
            coinbase,
            cost,
            gain,
        );
        let mut acct: Vec<DiffEntry> = Vec::new();
        // Storage, per expected key, in order.
        let mut j: usize = 0;
        while j < exp.storage.len()
            invariant
                0 <= j <= exp.storage@.len(),
                *obs == assoc_at(observed@, addr),
                diff_matches(
                    acct@,
                    spec_storage_diff(addr, exp.storage@.take(j as int), *obs),
                ),
            decreases exp.storage@.len() - j,
        {
            let (key, expected) = exp.storage[j];
            let actual = obs.storage_at(key);
            let ghost m = spec_storage_diff(addr, exp.storage@.take(j as int), *obs);
            proof {
                assert(exp.storage@.take(j as int + 1).drop_last() =~= exp.storage@.take(
                    j as int,
                ));
                assert(exp.storage@.take(j as int + 1).last() == exp.storage@[j as int]);
                U256::lemma_val_injective(actual, expected);
                crate::word::lemma_split_join_roundtrip(actual);
            }
            if !actual.eq_word(&expected) {
                let e = DiffEntry::Storage { address: addr, key, expected, actual };
                proof {
                    let me = DiffEntry::Storage {
                        address: addr,
                        key,
                        expected,
                        actual: word_from_int(obs.storage_word(key)),
                    };
                    lemma_diff_push(acct@, m, e, me);
                    assert(spec_storage_diff(addr, exp.storage@.take(j as int + 1), *obs) == m
                        + seq![me]);
                }
                acct.push(e);
            } else {
                proof {
                    assert(spec_storage_diff(addr, exp.storage@.take(j as int + 1), *obs) =~= m);
                }
            }
            j = j + 1;
        }
        proof {
            assert(exp.storage@.take(exp.storage@.len() as int) =~= exp.storage@);
        }
        let ghost m1 = spec_storage_diff(addr, exp.storage@, *obs);
        // Nonce.
        let ghost c1: Seq<DiffEntry> = if obs.nonce.val() != exp.nonce.val() {
            seq![DiffEntry::Nonce { address: addr, expected: exp.nonce, actual: obs.nonce }]
        } else {
            Seq::empty()
        };
        proof {
            U256::lemma_val_injective(obs.nonce, exp.nonce);
        }
        if !obs.nonce.eq_word(&exp.nonce) {
            let e = DiffEntry::Nonce { address: addr, expected: exp.nonce, actual: obs.nonce };
            proof {
                lemma_diff_push(acct@, m1, e, e);
            }
            acct.push(e);
        } else {
            proof {
                assert(m1 + c1 =~= m1);
            }
        }
        let ghost m2 = m1 + c1;
        // Code.
        let ghost c2: Seq<DiffEntry> = if obs.code@ != exp.code@ {
            seq![DiffEntry::Code { address: addr, expected: exp.code, actual: obs.code }]
        } else {
            Seq::empty()
        };
        if !bytes_eq(&obs.code, &exp.code) {
            let e = DiffEntry::Code {
                address: addr,
                expected: copy_bytes(&exp.code),
                actual: copy_bytes(&obs.code),
            };
            proof {
                lemma_diff_push(
                    acct@,
                    m2,
                    e,
                    DiffEntry::Code { address: addr, expected: exp.code, actual: obs.code },
                );
            }
            acct.push(e);
        } else {
            proof {
                assert(m2 + c2 =~= m2);
            }
        }
        let ghost m3 = m2 + c2;
        // Balance, fee-adjusted.
        proof {
            assert(completed@[i as int].0 == addr);
            assert(assoc_has(observed@, addr));
        }
        let ghost adj = spec_adjusted_balance(*obs, addr, sender, coinbase, cost, gain);
        let ghost c3: Seq<DiffEntry> = if adj != exp.balance.val() {
            seq![
                DiffEntry::Balance {
                    address: addr,
                    expected: exp.balance,
                    actual: word_from_int(adj),
                },
            ]
        } else {
            Seq::empty()
        };
        let mut adjusted = obs.balance;
        if addr.eq_addr(&sender) {
            adjusted = match adjusted.checked_sub(&fee.transaction_cost) {
                Some(v) => v,
                None => {
                    return Err(adjustment_range_error());
                },
            };
        }
        if addr.eq_addr(&coinbase) {
            adjusted = match adjusted.checked_add(&fee.coinbase_gain) {
                Some(v) => v,
                None => {
                    return Err(adjustment_range_error());
                },
            };
        }
        proof {
            assert(adjusted.val() == adj);
            U256::lemma_val_injective(adjusted, exp.balance);
            crate::word::lemma_split_join_roundtrip(adjusted);
        }
        if !adjusted.eq_word(&exp.balance) {
            let e = DiffEntry::Balance { address: addr, expected: exp.balance, actual: adjusted };
            proof {
                lemma_diff_push(
                    acct@,
                    m3,
                    e,
                    DiffEntry::Balance {
                        address: addr,
                        expected: exp.balance,
                        actual: word_from_int(adj),
                    },
                );
            }
            acct.push(e);
        } else {
            proof {
                assert(m3 + c3 =~= m3);
            }
        }
        let ghost m4 = m3 + c3;
        proof {
            assert(diff_matches(acct@, m4));
            assert(m4 == spec_account_diff(addr, *exp, *obs, sender, coinbase, cost, gain));
        }
        let ghost dbefore = diff@;
        let ghost abefore = acct@;
        let mut moved = acct;
        diff.append(&mut moved);
        proof {
            assert(diff@ == dbefore + abefore);
            lemma_diff_concat(dbefore, prefix, abefore, m4);
            assert(completed@.take(i as int + 1).drop_last() =~= completed@.take(i as int));
            assert(completed@.take(i as int + 1).last() == completed@[i as int]);
            assert(spec_state_diff(
                completed@.take(i as int + 1),
                observed@,
                sender,
                coinbase,
                cost,
                gain,
            ) == prefix + spec_account_diff(addr, *exp, *obs, sender, coinbase, cost, gain));
        }
        i = i + 1;
    }
    proof {
        assert(completed@.take(completed@.len() as int) =~= completed@);
    }
    Ok(diff)
}

/// The error an unrepresentable balance adjustment raises.
fn adjustment_range_error() -> (r: RunnerError)
    ensures
        r is SequencerError,
{
    let mut lines: Vec<String> = Vec::new();
    lines.push(String::from_str("balance adjustment out of range"));
    RunnerError::SequencerError(Messages(lines))
}

} // verus!
