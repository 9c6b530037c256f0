//! The post-state reconciler: completes a fixture's partial expected
//! post-state and computes the fee quantities that reconcile balances.
//!
//! Completion inserts, for every address present in the pre-state but
//! absent from the expected post-state, an all-default account — a fixture
//! that omits an account declares its full reset. The fee rule turns the
//! block's and transaction's fee fields into the sender's cost and the
//! coinbase's gain.

use vstd::prelude::*;

use crate::error::RunnerError;
use crate::state::{assoc_at, assoc_has, find_account, AccountState, EvmAddress, StateMap};
use crate::word::{pow2_256, U256};

verus! {

/// Addresses occur at most once.
pub open spec fn addrs_unique(s: Seq<(EvmAddress, AccountState)>) -> bool {
    forall|i: int, j: int| 0 <= i < j < s.len() ==> (#[trigger] s[i]).0 != (#[trigger] s[j]).0
}

/// An account a fixture omitted from its declared post-state: fully reset.
pub open spec fn is_reset_account(a: AccountState) -> bool {
    a.nonce.val() == 0 && a.balance.val() == 0 && a.code@.len() == 0 && a.storage@.len() == 0
}

/// How an association sequence behaves under a push.
pub proof fn lemma_assoc_push<K, V>(s: Seq<(K, V)>, e: (K, V), k: K)
    ensures
        assoc_has(s.push(e), k) == (assoc_has(s, k) || e.0 == k),
        assoc_has(s, k) ==> assoc_at(s.push(e), k) == assoc_at(s, k),
        (!assoc_has(s, k) && e.0 == k) ==> assoc_at(s.push(e), k) == e.1,
    decreases s.len(),
{
    if s.len() == 0 {
        assert(s.push(e)[0] == e);
        if e.0 == k {
        } else {
            assert(!assoc_has(s.push(e), k)) by {
                assert(forall|i: int|
                    0 <= i < s.push(e).len() ==> (#[trigger] s.push(e)[i]) == e);
            }
        }
    } else {
        assert(s.push(e).drop_first() =~= s.drop_first().push(e));
        lemma_assoc_push(s.drop_first(), e, k);
        assert(s.push(e)[0] == s[0]);
        if assoc_has(s, k) {
            let i = choose|i: int| 0 <= i < s.len() && (#[trigger] s[i]).0 == k;
            assert(s.push(e)[i] == s[i]);
            assert(assoc_has(s.push(e), k));
        }
        if assoc_has(s.push(e), k) && !assoc_has(s, k) && e.0 != k {
            let i = choose|i: int|
                0 <= i < s.push(e).len() && (#[trigger] s.push(e)[i]).0 == k;
            assert(s.push(e)[i] == (if i < s.len() {
                s[i]
            } else {
                e
            }));
            assert(false);
        }
        if s[0].0 != k {
            if assoc_has(s, k) {
                let i = choose|i: int| 0 <= i < s.len() && (#[trigger] s[i]).0 == k;
                assert(i > 0);
                assert(s.drop_first()[i - 1] == s[i]);
                assert(assoc_has(s.drop_first(), k));
            }
            if assoc_has(s.drop_first(), k) {
                let i = choose|i: int|
                    0 <= i < s.drop_first().len() && (#[trigger] s.drop_first()[i]).0 == k;
                assert(s[i + 1] == s.drop_first()[i]);
                assert(assoc_has(s, k));
            }
        }
    }
}

/// The pre-state addresses that completion appends: those absent from the
/// declared post-state, in pre-state order.
pub open spec fn reset_addrs(
    pre: Seq<(EvmAddress, AccountState)>,
    post: Seq<(EvmAddress, AccountState)>,
) -> Seq<EvmAddress>
    decreases pre.len(),
{
    if pre.len() == 0 {
        Seq::empty()
    } else {
        let prev = reset_addrs(pre.drop_last(), post);
        if assoc_has(post, pre.last().0) {
            prev
        } else {
            prev.push(pre.last().0)
        }
    }
}

/// Completes an expected post-state against the pre-state it belongs to:
/// every pre-state address missing from the expected post-state is added
/// with all-default fields (nonce 0, balance 0, empty code, empty
/// storage). Declared entries keep their place and value; added entries
/// follow in pre-state order. Completing a state that already covers the
/// pre-state returns it unchanged, so completion is idempotent.
pub fn update_post_state(post: StateMap, pre: &StateMap) -> (r: StateMap)
    requires
        addrs_unique(pre@),
        addrs_unique(post@),
    ensures
        r@.take(post@.len() as int) == post@,
        r@.len() == post@.len() + reset_addrs(pre@, post@).len(),
        forall|j: int|
            0 <= j < reset_addrs(pre@, post@).len() ==> {
                &&& (#[trigger] r@[post@.len() + j]).0 == reset_addrs(pre@, post@)[j]
                &&& is_reset_account(r@[post@.len() + j].1)
            },
        addrs_unique(r@),
        forall|a: EvmAddress|
            #[trigger] assoc_has(r@, a) <==> (assoc_has(post@, a) || assoc_has(pre@, a)),
        forall|a: EvmAddress|
            #[trigger] assoc_has(post@, a) ==> assoc_at(r@, a) == assoc_at(post@, a),
        forall|a: EvmAddress|
            (!assoc_has(post@, a) && #[trigger] assoc_has(pre@, a)) ==> is_reset_account(
                assoc_at(r@, a),
            ),
        (forall|j: int| 0 <= j < pre@.len() ==> assoc_has(post@, (#[trigger] pre@[j]).0)) ==> r@
            == post@,
{
    let ghost orig = post@;
    let mut out = post;
    let mut i: usize = 0;
    while i < pre.len()
        invariant
            0 <= i <= pre@.len(),
            addrs_unique(pre@),
            addrs_unique(orig),
            addrs_unique(out@),
            orig.len() <= out@.len(),
            out@.take(orig.len() as int) == orig,
            out@.len() == orig.len() + reset_addrs(pre@.take(i as int), orig).len(),
            forall|j: int|
                0 <= j < reset_addrs(pre@.take(i as int), orig).len() ==> {
                    &&& (#[trigger] out@[orig.len() + j]).0 == reset_addrs(
                        pre@.take(i as int),
                        orig,
                    )[j]
                    &&& is_reset_account(out@[orig.len() + j].1)
                },
            forall|a: EvmAddress|
                #[trigger] assoc_has(out@, a) <==> (assoc_has(orig, a) || assoc_has(
                    pre@.take(i as int),
                    a,
                )),
            forall|a: EvmAddress|
                #[trigger] assoc_has(orig, a) ==> assoc_at(out@, a) == assoc_at(orig, a),
            forall|a: EvmAddress|
                (!assoc_has(orig, a) && #[trigger] assoc_has(pre@.take(i as int), a))
                    ==> is_reset_account(assoc_at(out@, a)),
            (forall|j: int| 0 <= j < i ==> assoc_has(orig, (#[trigger] pre@[j]).0)) ==> out@
                == orig,
        decreases pre@.len() - i,
    {
        let entry = &pre[i];
        let ghost before = out@;
        let missing = find_account(&out, &entry.0).is_none();
        if missing {
            let empty_acc = AccountState::empty();
            out.push((entry.0, empty_acc));
        }
        proof {
            let a0 = pre@[i as int].0;
            // Keys of the longer pre-state prefix.
            assert forall|a: EvmAddress| #[trigger]
                assoc_has(pre@.take(i as int + 1), a) implies (assoc_has(pre@.take(i as int), a)
                || a0 == a) by {
                let k = choose|k: int|
                    0 <= k < pre@.take(i as int + 1).len() && (#[trigger] pre@.take(
                        i as int + 1,
                    )[k]).0 == a;
                if k < i {
                    assert(pre@.take(i as int)[k] == pre@.take(i as int + 1)[k]);
                }
            }
            assert forall|a: EvmAddress| #[trigger]
                assoc_has(pre@.take(i as int), a) implies assoc_has(
                pre@.take(i as int + 1),
                a,
            ) by {
                let k = choose|k: int|
                    0 <= k < pre@.take(i as int).len() && (#[trigger] pre@.take(i as int)[k]).0
                        == a;
                assert(pre@.take(i as int + 1)[k] == pre@.take(i as int)[k]);
            }
            assert(pre@.take(i as int + 1)[i as int] == pre@[i as int]);
            assert(assoc_has(pre@.take(i as int + 1), a0));
            assert(pre@.take(i as int + 1).drop_last() =~= pre@.take(i as int));
            assert(pre@.take(i as int + 1).last() == pre@[i as int]);
            // Under unique pre addresses, the evolving map misses this
            // address exactly when the declared post-state does.
            if assoc_has(pre@.take(i as int), a0) {
                let k = choose|k: int|
                    0 <= k < pre@.take(i as int).len() && (#[trigger] pre@.take(i as int)[k]).0
                        == a0;
                assert(pre@[k] == pre@.take(i as int)[k]);
                assert(false);
            }
            assert(missing == !assoc_has(orig, a0));
            if missing {
                let e = (a0, out@.last().1);
                assert(out@ == before.push(e));
                assert(is_reset_account(e.1));
                assert(!assoc_has(before, a0));
                assert forall|a: EvmAddress| #[trigger]
                    assoc_has(out@, a) == (assoc_has(before, a) || a0 == a) by {
                    lemma_assoc_push(before, e, a);
                }
                assert forall|a: EvmAddress| #[trigger]
                    assoc_has(orig, a) implies assoc_at(out@, a) == assoc_at(orig, a) by {
                    lemma_assoc_push(before, e, a);
                }
                assert forall|a: EvmAddress|
                    (!assoc_has(orig, a) && #[trigger] assoc_has(pre@.take(i as int + 1), a))
                        implies is_reset_account(assoc_at(out@, a)) by {
                    lemma_assoc_push(before, e, a);
                }
                assert(before.len() >= orig.len());
                assert(out@.take(orig.len() as int) =~= before.take(orig.len() as int));
                assert(addrs_unique(out@)) by {
                    assert(forall|k: int|
                        0 <= k < before.len() ==> #[trigger] out@[k] == before[k]);
                }
            } else {
                assert(out@ == before);
            }
        }
        i = i + 1;
    }
    proof {
        assert(pre@.take(pre@.len() as int) =~= pre@);
        assert(out@.take(out@.len() as int) =~= out@);
        if forall|j: int| 0 <= j < pre@.len() ==> assoc_has(orig, (#[trigger] pre@[j]).0) {
            assert(out@ == orig);
        }
    }
    out
}

/// The fee quantities of one executed transaction.
#[derive(Clone, Copy, PartialEq, Eq, Structural, Debug)]
pub struct FeeSummary {
    /// The price actually paid per unit of gas.
    pub effective_price: U256,
    /// What the transaction cost its sender: price times gas used.
    pub transaction_cost: U256,
    /// What the fee recipient earned: the price above the base fee, times
    /// gas used.
    pub coinbase_gain: U256,
}

/// A fixture must specify fees through exactly one of the legacy gas-price
/// field and the newer fee fields.
pub open spec fn spec_ambiguous_fees(gas_price: U256, max_fee: U256) -> bool {
    gas_price.val() != 0 && max_fee.val() != 0
}

/// The effective fee per gas: the base fee plus the priority fee, the
/// latter capped so the total never exceeds the fee cap.
pub open spec fn spec_effective_fee(base_fee: U256, max_priority: U256, max_fee: U256) -> int {
    if base_fee.val() + max_priority.val() <= max_fee.val() {
        base_fee.val() + max_priority.val()
    } else {
        max_fee.val()
    }
}

/// The price per gas the case is charged at: the legacy gas price if set,
/// the effective fee otherwise.
pub open spec fn spec_effective_price(
    gas_price: U256,
    base_fee: U256,
    max_priority: U256,
    max_fee: U256,
) -> int {
    if gas_price.val() != 0 {
        gas_price.val()
    } else {
        spec_effective_fee(base_fee, max_priority, max_fee)
    }
}

/// The fee quantities are computable: the price covers the base fee and
/// the cost fits a word. Quantities outside these bounds have no
/// representable reconciliation.
pub open spec fn spec_fees_in_range(
    gas_used: U256,
    base_fee: U256,
    gas_price: U256,
    max_priority: U256,
    max_fee: U256,
) -> bool {
    &&& base_fee.val() <= spec_effective_price(gas_price, base_fee, max_priority, max_fee)
    &&& spec_effective_price(gas_price, base_fee, max_priority, max_fee) * gas_used.val()
        < pow2_256()
}

/// Computes the fee summary of a case from the block's gas usage and base
/// fee and the transaction's fee fields, each defaulted to zero when the
/// fixture leaves it out. Fails with `AmbiguousFeeSpecification` exactly
/// when the fixture sets both the legacy and the newer fee fields, and
/// with a backend out-of-range error when the quantities cannot be
/// represented.
pub fn fee_outcome(
    gas_used: U256,
    base_fee: U256,
    gas_price: U256,
    max_priority: U256,
    max_fee: U256,
) -> (r: Result<FeeSummary, RunnerError>)
    ensures
        (r is Ok) <==> (!spec_ambiguous_fees(gas_price, max_fee) && spec_fees_in_range(
            gas_used,
            base_fee,
            gas_price,
            max_priority,
            max_fee,
        )),
        spec_ambiguous_fees(gas_price, max_fee) ==> (r matches Err(e)
            && e is AmbiguousFeeSpecification),
        (!spec_ambiguous_fees(gas_price, max_fee) && !spec_fees_in_range(
            gas_used,
            base_fee,
            gas_price,
            max_priority,
            max_fee,
        )) ==> (r matches Err(e) && e is SequencerError),
        r matches Ok(s) ==> {
            &&& s.effective_price.val() == spec_effective_price(
                gas_price,
                base_fee,
                max_priority,
                max_fee,
            )
            &&& s.transaction_cost.val() == s.effective_price.val() * gas_used.val()
            &&& s.coinbase_gain.val() == (s.effective_price.val() - base_fee.val())
                * gas_used.val()
        },
{
    // The priority fee is capped because the base fee is filled first.
    let effective_fee = match base_fee.checked_add(&max_priority) {
        Some(sum) => U256::min_word(sum, max_fee),
        None => max_fee,
    };
    if !gas_price.is_zero() && !max_fee.is_zero() {
        return Err(RunnerError::AmbiguousFeeSpecification);
    }
    proof {
        if gas_price.val() != 0 {
            assert(max_fee.val() == 0);
            assert(effective_fee.val() == 0);
            U256::lemma_val_injective(effective_fee, U256 { lo: 0, hi: 0 });
        } else {
            U256::lemma_val_injective(gas_price, U256 { lo: 0, hi: 0 });
        }
    }
    let price = U256::bit_or(gas_price, effective_fee);
    let delta = match price.checked_sub(&base_fee) {
        Some(d) => d,
        None => {
            return Err(fee_range_error());
        },
    };
    let cost = match price.checked_mul(&gas_used) {
        Some(c) => c,
        None => {
            return Err(fee_range_error());
        },
    };
    let gain = match delta.checked_mul(&gas_used) {
        Some(g) => g,
        None => {
            proof {
                assert(delta.val() * gas_used.val() <= price.val() * gas_used.val())
                    by (nonlinear_arith)
                    requires
                        0 <= delta.val() <= price.val(),
                        0 <= gas_used.val(),
                ;
            }
            vstd::pervasive::unreached()
        },
    };
    Ok(FeeSummary { effective_price: price, transaction_cost: cost, coinbase_gain: gain })
}

/// The error an unrepresentable fee quantity raises.
fn fee_range_error() -> (r: RunnerError)
    ensures
        r is SequencerError,
{
    let mut lines: Vec<String> = Vec::new();
    lines.push(String::from_str("fee quantity out of range"));
    RunnerError::SequencerError(crate::error::Messages(lines))
}

/// When the sender is also the coinbase, debiting the transaction cost and
/// crediting the coinbase gain net to exactly the base fee times the gas
/// used: the priority portion cancels on the shared account.
pub proof fn lemma_fee_netting(cost: int, gain: int, price: int, base_fee: int, gas_used: int)
    requires
        cost == price * gas_used,
        gain == (price - base_fee) * gas_used,
    ensures
        cost - gain == base_fee * gas_used,
{
    assert(price * gas_used - (price - base_fee) * gas_used == base_fee * gas_used)
        by (nonlinear_arith);
}

} // verus!
