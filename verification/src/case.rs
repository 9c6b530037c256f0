//! The test case driver: loads a fixture's pre-state into the backend,
//! prepares and submits its transaction, and verifies the resulting state
//! against the fixture's expected post-state.
//!
//! Infrastructure failures (an invalid sender key, an ambiguous fee
//! specification, an unsupported post-state form, a backend refusal)
//! abort a case early; state differences are collected completely and
//! reported together.

use vstd::prelude::*;

use ethers_core::types::transaction::eip2718::TypedTransaction;

use crate::diff::{compute_diff, diff_matches, spec_balances_adjustable, spec_state_diff};
use crate::error::{Messages, RunnerError};
use crate::evm_state::{
    spec_setup_classes, spec_setup_nonces, spec_setup_store, BlockEnv, ExecutionOutcome,
    SequencerState,
};
use crate::reconcile::{
    addrs_unique, fee_outcome, is_reset_account, reset_addrs, spec_ambiguous_fees,
    spec_effective_price, spec_fees_in_range, update_post_state,
};
use crate::setup::{spec_handle, ChainConfig};
use crate::state::{assoc_has, copy_bytes, AccountState, EvmAddress, StateMap};
use crate::word::{pow2_128, U256};

verus! {

/// The header fields of the fixture's block that the harness consumes.
#[derive(Clone, Copy, PartialEq, Eq, Structural, Debug)]
pub struct BlockHeader {
    pub number: U256,
    pub timestamp: U256,
    pub coinbase: EvmAddress,
    pub gas_used: U256,
    pub base_fee_per_gas: Option<U256>,
}

/// One transaction of the fixture, in decoded form. The signature itself
/// is produced and checked by the backend, outside this model.
pub struct SignedTransaction {
    /// The chain the transaction is signed for.
    pub chain_id: u64,
    pub nonce: U256,
    pub gas_limit: U256,
    /// The legacy gas price, when the fixture uses the legacy fee form.
    pub gas_price: Option<U256>,
    pub max_priority_fee_per_gas: Option<U256>,
    pub max_fee_per_gas: Option<U256>,
    /// The called account; absent for a creation transaction.
    pub to: Option<EvmAddress>,
    pub value: U256,
    pub input: Vec<u8>,
    /// The transaction's signature, when it carries one.
    pub signature: Option<TxSignature>,
}

/// A transaction signature: the two scalars and the recovery value.
#[derive(Clone, Copy, PartialEq, Eq, Structural, Debug)]
pub struct TxSignature {
    pub r: U256,
    pub s: U256,
    pub v: u64,
}

impl SignedTransaction {
    /// A copy of the transaction.
    pub fn duplicate(&self) -> (r: SignedTransaction)
        ensures
            r.chain_id == self.chain_id,
            r.nonce == self.nonce,
            r.gas_limit == self.gas_limit,
            r.gas_price == self.gas_price,
            r.max_priority_fee_per_gas == self.max_priority_fee_per_gas,
            r.max_fee_per_gas == self.max_fee_per_gas,
            r.to == self.to,
            r.value == self.value,
            r.input@ == self.input@,
            r.signature == self.signature,
    {
        SignedTransaction {
            chain_id: self.chain_id,
            nonce: self.nonce,
            gas_limit: self.gas_limit,
            gas_price: self.gas_price,
            max_priority_fee_per_gas: self.max_priority_fee_per_gas,
            max_fee_per_gas: self.max_fee_per_gas,
            to: self.to,
            value: self.value,
            input: copy_bytes(&self.input),
            signature: self.signature,
        }
    }
}

/// The fixture's block: its header, if declared, the raw encoding of its
/// transaction, and its transactions in declared-field form.
pub struct Block {
    pub block_header: Option<BlockHeader>,
    /// The raw signed-transaction encoding the fixture carries.
    pub rlp: Vec<u8>,
    pub transactions: Vec<SignedTransaction>,
}

/// A fixture's expected post-state: either a bare state-root hash, which
/// this harness cannot verify against, or a full state mapping.
pub enum RootOrState {
    Root(U256),
    State(StateMap),
}

/// The order of the secp256k1 group: the exclusive bound on a secret
/// scalar.
pub open spec fn secp256k1_order() -> int {
    115792089237316195423570985008687907852837564279074904382605163141518161494337int
}

/// Whether 32 bytes, given as their two 128-bit halves, form a valid
/// secp256k1 secret scalar: nonzero and below the group order.
pub open spec fn key_valid(lo: u128, hi: u128) -> bool {
    0 < lo + hi * pow2_128() < secp256k1_order()
}

/// The 160-bit signer address derived from a 32-byte secret key, given as
/// its two 128-bit halves.
pub uninterp spec fn eth_address_of_key(lo: u128, hi: u128) -> int;

/// Relies on `ethers_signers::LocalWallet::from_bytes` and
/// `ethers_signers::Signer::address`: the signer address derived from a
/// 32-byte secret key, a function of the key alone; `None` exactly when
/// the bytes are not a valid secret scalar, that is zero or at least the
/// group order.
#[verifier::external_body]
fn wallet_address(key: &U256) -> (r: Option<EvmAddress>)
    ensures
        (r is Some) == key_valid(key.lo, key.hi),
        r matches Some(a) ==> a.val() == eth_address_of_key(key.lo, key.hi),
{
    let mut bytes = [0u8; 32];
    bytes[..16].copy_from_slice(&key.hi.to_be_bytes());
    bytes[16..].copy_from_slice(&key.lo.to_be_bytes());
    let wallet = match ethers_signers::LocalWallet::from_bytes(&bytes) {
        Ok(w) => w,
        Err(_) => {
            return None;
        },
    };
    let addr = ethers_signers::Signer::address(&wallet);
    let hi = u32::from_be_bytes(addr.0[0..4].try_into().unwrap());
    let lo = u128::from_be_bytes(addr.0[4..20].try_into().unwrap());
    Some(EvmAddress { hi, lo })
}

/// Whether the bytes are a well-formed signed-transaction encoding.
pub uninterp spec fn tx_well_formed(bytes: Seq<u8>) -> bool;

/// The decoded content of a well-formed signed-transaction encoding:
/// first the scalar fields (chain id, nonce, gas limit, value), then the
/// optional fields (gas price, priority fee bound, fee cap, callee), then
/// the payload bytes and the carried signature scalars.
pub uninterp spec fn decoded_tx_of(bytes: Seq<u8>) -> (
    (u64, int, int, int),
    (Option<int>, Option<int>, Option<int>, Option<int>),
    (Seq<u8>, int, int, int),
);

/// The signature (two scalars and the recovery value) the secret key,
/// given as its halves, yields over the typed payload built from the
/// transaction fields; a function of the key and the fields alone.
pub uninterp spec fn sig_of(
    key_lo: u128,
    key_hi: u128,
    chain_id: u64,
    nonce: int,
    gas_limit: int,
    gas_price: Option<int>,
    max_priority_fee: Option<int>,
    max_fee: Option<int>,
    to: Option<int>,
    value: int,
    input: Seq<u8>,
) -> (int, int, int);

/// The signature the key yields over a transaction's payload.
pub open spec fn spec_sig_of_tx(tx: SignedTransaction, key: U256) -> (int, int, int) {
    sig_of(
        key.lo,
        key.hi,
        tx.chain_id,
        tx.nonce.val(),
        tx.gas_limit.val(),
        match tx.gas_price {
            Some(p) => Some(p.val()),
            None => None,
        },
        match tx.max_priority_fee_per_gas {
            Some(p) => Some(p.val()),
            None => None,
        },
        match tx.max_fee_per_gas {
            Some(p) => Some(p.val()),
            None => None,
        },
        match tx.to {
            Some(a) => Some(a.val()),
            None => None,
        },
        tx.value.val(),
        tx.input@,
    )
}

#[verifier::external_type_specification]
#[verifier::external_body]
pub struct ExTypedTransaction(ethers_core::types::transaction::eip2718::TypedTransaction);

#[verifier::external_type_specification]
#[verifier::external_body]
pub struct ExEthSignature(ethers_core::types::Signature);

#[verifier::external_type_specification]
#[verifier::external_body]
pub struct ExEthAddress(ethers_core::types::H160);

/// Relies on `ethers_core::types::H160`: 20 big-endian bytes.
#[verifier::external_body]
fn addr_to(a: &EvmAddress) -> (r: ethers_core::types::H160) {
    let mut b = [0u8; 20];
    b[..4].copy_from_slice(&a.hi.to_be_bytes());
    b[4..].copy_from_slice(&a.lo.to_be_bytes());
    ethers_core::types::H160(b)
}

/// Relies on `ethers_core::types::H160`, in the reverse direction.
#[verifier::external_body]
fn addr_from(x: &ethers_core::types::H160) -> (r: EvmAddress) {
    EvmAddress::new(
        u32::from_be_bytes(x.0[0..4].try_into().unwrap()),
        u128::from_be_bytes(x.0[4..20].try_into().unwrap()),
    )
}

/// Relies on the ethers-core legacy transaction request builders: the
/// library transaction as the equivalent legacy request.
#[verifier::external_body]
fn legacy_request(tx: &SignedTransaction, gp: &U256) -> (r:
    ethers_core::types::transaction::eip2718::TypedTransaction) {
    let w = |v: &U256| ethers_core::types::U256([v.lo as u64, (v.lo >> 64) as u64, v.hi as u64, (v.hi >> 64) as u64]);
    let mut r = ethers_core::types::TransactionRequest::new().chain_id(tx.chain_id).nonce(w(&tx.nonce)).gas(w(&tx.gas_limit)).gas_price(w(gp)).value(w(&tx.value)).data(tx.input.clone());
    if let Some(t) = &tx.to {
        r = r.to(addr_to(t));
    }
    r.into()
}

/// Relies on the ethers-core fee-market transaction request builders: the
/// library transaction as the equivalent newer request.
#[verifier::external_body]
fn newer_request(tx: &SignedTransaction) -> (r:
    ethers_core::types::transaction::eip2718::TypedTransaction) {
    let w = |v: &U256| ethers_core::types::U256([v.lo as u64, (v.lo >> 64) as u64, v.hi as u64, (v.hi >> 64) as u64]);
    let mut r = ethers_core::types::Eip1559TransactionRequest::new().chain_id(tx.chain_id).nonce(w(&tx.nonce)).gas(w(&tx.gas_limit)).value(w(&tx.value)).data(tx.input.clone());
    if let Some(p) = &tx.max_priority_fee_per_gas {
        r = r.max_priority_fee_per_gas(w(p));
    }
    if let Some(m) = &tx.max_fee_per_gas {
        r = r.max_fee_per_gas(w(m));
    }
    if let Some(t) = &tx.to {
        r = r.to(addr_to(t));
    }
    r.into()
}

/// Relies on the ethers-core typed transaction: the legacy form when a gas
/// price is set, the newer fee form otherwise.
#[verifier::external_body]
fn typed_request(tx: &SignedTransaction) -> (r:
    ethers_core::types::transaction::eip2718::TypedTransaction) {
    match &tx.gas_price {
        Some(gp) => legacy_request(tx, gp),
        None => newer_request(tx),
    }
}

/// Relies on the `TypedTransaction` fee accessors: the fee fields of the
/// variant that holds them, one for one.
#[verifier::external_body]
fn fee_fields(t: &ethers_core::types::transaction::eip2718::TypedTransaction) -> (r: (
    Option<U256>,
    Option<U256>,
    Option<U256>,
)) {
    let h = |v: &ethers_core::types::U256| U256::new(u128::from(v.0[0]) | (u128::from(v.0[1]) << 64), u128::from(v.0[2]) | (u128::from(v.0[3]) << 64));
    match t {
        TypedTransaction::Eip1559(x) => (None, x.max_priority_fee_per_gas.as_ref().map(h), x.max_fee_per_gas.as_ref().map(h)),
        o => (o.gas_price().as_ref().map(h), None, None),
    }
}

/// Relies on the layout of `ethers_core::types::Signature`: the two
/// scalars and the recovery value, one for one.
#[verifier::external_body]
fn convert_sig(s: &ethers_core::types::Signature) -> (r: TxSignature) {
    let h = |v: &ethers_core::types::U256| U256::new(u128::from(v.0[0]) | (u128::from(v.0[1]) << 64), u128::from(v.0[2]) | (u128::from(v.0[3]) << 64));
    TxSignature { r: h(&s.r), s: h(&s.s), v: s.v }
}

/// Relies on the `TypedTransaction` scalar accessors: chain id, nonce,
/// gas limit and value, one for one, absent fields as zero.
#[verifier::external_body]
fn scalar_fields(t: &ethers_core::types::transaction::eip2718::TypedTransaction) -> (r: (
    u64,
    U256,
    U256,
    U256,
)) {
    let h = |v: &ethers_core::types::U256| U256::new(u128::from(v.0[0]) | (u128::from(v.0[1]) << 64), u128::from(v.0[2]) | (u128::from(v.0[3]) << 64));
    (t.chain_id().map_or(0, |c| c.as_u64()), t.nonce().map_or(U256::zero(), h), t.gas().map_or(U256::zero(), h), t.value().map_or(U256::zero(), h))
}

/// Relies on the `TypedTransaction` accessors: each decoded field carried
/// over one for one, absent fields as zero or `None`.
#[verifier::external_body]
fn convert_typed(
    t: &ethers_core::types::transaction::eip2718::TypedTransaction,
    s: &ethers_core::types::Signature,
) -> (r: SignedTransaction) {
    let (chain_id, nonce, gas_limit, value) = scalar_fields(t);
    let (gp, mp, mf) = fee_fields(t);
    SignedTransaction {
        chain_id, nonce, gas_limit, value,
        gas_price: gp, max_priority_fee_per_gas: mp, max_fee_per_gas: mf,
        to: match t.to() { Some(ethers_core::types::NameOrAddress::Address(x)) => Some(addr_from(x)), _ => None },
        input: t.data().map_or(Vec::new(), |d| d.to_vec()),
        signature: Some(convert_sig(s)),
    }
}

/// Relies on `TypedTransaction::decode_signed`: the bytes decode to a
/// signed transaction exactly when they are a well-formed encoding.
#[verifier::external_body]
fn decode_transaction(bytes: &Vec<u8>) -> (r: Option<SignedTransaction>)
    ensures
        (r is Some) == tx_well_formed(bytes@),
        r matches Some(t) ==> ({
            let d = decoded_tx_of(bytes@);
            &&& t.chain_id == d.0.0
            &&& t.nonce.val() == d.0.1
            &&& t.gas_limit.val() == d.0.2
            &&& t.value.val() == d.0.3
            &&& (match t.gas_price {
                Some(p) => Some(p.val()),
                None => None::<int>,
            }) == d.1.0
            &&& (match t.max_priority_fee_per_gas {
                Some(p) => Some(p.val()),
                None => None::<int>,
            }) == d.1.1
            &&& (match t.max_fee_per_gas {
                Some(p) => Some(p.val()),
                None => None::<int>,
            }) == d.1.2
            &&& (match t.to {
                Some(a) => Some(a.val()),
                None => None::<int>,
            }) == d.1.3
            &&& t.input@ == d.2.0
            &&& (t.signature matches Some(sig) && sig.r.val() == d.2.1 && sig.s.val() == d.2.2
                && sig.v as int == d.2.3)
        }),
{
    let rl = ethers_core::utils::rlp::Rlp::new(bytes);
    match TypedTransaction::decode_signed(&rl) {
        Ok((t, s)) => Some(convert_typed(&t, &s)),
        Err(_) => None,
    }
}

/// Relies on `ethers_signers::Wallet::sign_transaction_sync` over the
/// equivalent typed request: the signature is a function of the secret
/// key and the transaction fields alone; a key that is no valid scalar
/// yields `None`.
#[verifier::external_body]
fn sign_transaction(tx: &SignedTransaction, key: &U256) -> (r: Option<TxSignature>)
    ensures
        !key_valid(key.lo, key.hi) ==> (r is None),
        r matches Some(sig) ==> ((sig.r.val(), sig.s.val(), sig.v as int) == sig_of(
            key.lo,
            key.hi,
            tx.chain_id,
            tx.nonce.val(),
            tx.gas_limit.val(),
            match tx.gas_price {
                Some(p) => Some(p.val()),
                None => None,
            },
            match tx.max_priority_fee_per_gas {
                Some(p) => Some(p.val()),
                None => None,
            },
            match tx.max_fee_per_gas {
                Some(p) => Some(p.val()),
                None => None,
            },
            match tx.to {
                Some(a) => Some(a.val()),
                None => None,
            },
            tx.value.val(),
            tx.input@,
        )),
{
    let mut b = [0u8; 32];
    b[..16].copy_from_slice(&key.hi.to_be_bytes());
    b[16..].copy_from_slice(&key.lo.to_be_bytes());
    let w = match ethers_signers::LocalWallet::from_bytes(&b) { Ok(w) => w, Err(_) => return None };
    match w.sign_transaction_sync(&typed_request(tx)) {
        Ok(s) => Some(convert_sig(&s)),
        Err(_) => None,
    }
}

/// The address whose packed 160-bit value is `v`.
pub open spec fn address_from_val(v: int) -> EvmAddress {
    EvmAddress { hi: (v / pow2_128()) as u32, lo: (v % pow2_128()) as u128 }
}

proof fn lemma_address_from_val(a: EvmAddress)
    ensures
        address_from_val(a.val()) == a,
{
}

/// Two accounts agree on every compared field.
pub open spec fn account_view_eq(a: AccountState, b: AccountState) -> bool {
    &&& a.nonce == b.nonce
    &&& a.balance == b.balance
    &&& a.code@ == b.code@
    &&& a.storage@ == b.storage@
}

/// Address membership only depends on the entries' keys.
proof fn lemma_assoc_has_same_keys(
    s1: Seq<(EvmAddress, AccountState)>,
    s2: Seq<(EvmAddress, AccountState)>,
    a: EvmAddress,
)
    requires
        s1.len() == s2.len(),
        forall|i: int| 0 <= i < s1.len() ==> (#[trigger] s1[i]).0 == s2[i].0,
    ensures
        crate::state::assoc_has(s1, a) == crate::state::assoc_has(s2, a),
{
    if crate::state::assoc_has(s1, a) {
        let i = choose|i: int| 0 <= i < s1.len() && (#[trigger] s1[i]).0 == a;
        assert(s2[i].0 == a);
    }
    if crate::state::assoc_has(s2, a) {
        let i = choose|i: int| 0 <= i < s2.len() && (#[trigger] s2[i]).0 == a;
        assert(s1[i].0 == a);
    }
}

/// The appended reset addresses only depend on the post-state's keys.
proof fn lemma_reset_addrs_same_keys(
    pre: Seq<(EvmAddress, AccountState)>,
    p1: Seq<(EvmAddress, AccountState)>,
    p2: Seq<(EvmAddress, AccountState)>,
)
    requires
        p1.len() == p2.len(),
        forall|i: int| 0 <= i < p1.len() ==> (#[trigger] p1[i]).0 == p2[i].0,
    ensures
        reset_addrs(pre, p1) == reset_addrs(pre, p2),
    decreases pre.len(),
{
    if pre.len() > 0 {
        lemma_reset_addrs_same_keys(pre.drop_last(), p1, p2);
        lemma_assoc_has_same_keys(p1, p2, pre.last().0);
    }
}

/// Every appended reset address comes from the pre-state.
proof fn lemma_reset_addrs_members(
    pre: Seq<(EvmAddress, AccountState)>,
    post: Seq<(EvmAddress, AccountState)>,
)
    ensures
        forall|j: int|
            0 <= j < reset_addrs(pre, post).len() ==> crate::state::assoc_has(
                pre,
                #[trigger] reset_addrs(pre, post)[j],
            ),
    decreases pre.len(),
{
    if pre.len() > 0 {
        lemma_reset_addrs_members(pre.drop_last(), post);
        assert forall|j: int|
            0 <= j < reset_addrs(pre, post).len() implies crate::state::assoc_has(
            pre,
            #[trigger] reset_addrs(pre, post)[j],
        ) by {
            let prev = reset_addrs(pre.drop_last(), post);
            if j < prev.len() {
                let a = prev[j];
                assert(crate::state::assoc_has(pre.drop_last(), a));
                let k = choose|k: int|
                    0 <= k < pre.drop_last().len() && (#[trigger] pre.drop_last()[k]).0 == a;
                assert(pre[k] == pre.drop_last()[k]);
            } else {
                assert(reset_addrs(pre, post)[j] == pre.last().0);
                assert(pre[pre.len() - 1].0 == pre.last().0);
            }
        }
    }
}

/// The completion of a declared post-state, entry by entry: the declared
/// entries first, unchanged in every compared field, then one reset
/// account for each pre-state address the declaration omits, in pre-state
/// order.
pub open spec fn completed_rel(
    completed: Seq<(EvmAddress, AccountState)>,
    post: Seq<(EvmAddress, AccountState)>,
    pre: Seq<(EvmAddress, AccountState)>,
) -> bool {
    &&& completed.len() == post.len() + reset_addrs(pre, post).len()
    &&& forall|i: int|
        0 <= i < post.len() ==> ((#[trigger] completed[i]).0 == post[i].0 && account_view_eq(
            completed[i].1,
            post[i].1,
        ))
    &&& forall|j: int|
        0 <= j < reset_addrs(pre, post).len() ==> ((#[trigger] completed[post.len() + j]).0
            == reset_addrs(pre, post)[j] && is_reset_account(completed[post.len() + j].1))
}

/// What each compared account reads back as from the backend: nonce,
/// balance and code by their read specifications, and one storage word per
/// expected key, positionally.
pub open spec fn observed_rel(
    observed: Seq<(EvmAddress, AccountState)>,
    completed: Seq<(EvmAddress, AccountState)>,
    s: SequencerState,
) -> bool {
    &&& observed.len() == completed.len()
    &&& forall|i: int|
        0 <= i < completed.len() ==> {
            let a = (#[trigger] completed[i]).0;
            &&& observed[i].0 == a
            &&& observed[i].1.nonce.val() == s.spec_nonce_read(a)
            &&& observed[i].1.balance.val() == s.spec_balance_read(a)
            &&& observed[i].1.code@ == s.spec_code_read(a)
            &&& observed[i].1.storage@.len() == completed[i].1.storage@.len()
            &&& forall|j: int|
                0 <= j < completed[i].1.storage@.len() ==> ((#[trigger] observed[i].1.storage@[j]).0
                    == completed[i].1.storage@[j].0 && observed[i].1.storage@[j].1.val()
                    == s.spec_storage_read(a, completed[i].1.storage@[j].0))
        }
}

/// One conformance-test fixture: its identity, block, pre-state, expected
/// post-state, and the sender's secret key.
pub struct BlockchainTestCase {
    pub case_name: String,
    pub case_category: String,
    pub block: Block,
    pub pre: StateMap,
    pub post: RootOrState,
    pub secret_key: U256,
}

impl BlockchainTestCase {
    pub fn new(
        case_name: String,
        case_category: String,
        block: Block,
        pre: StateMap,
        post: RootOrState,
        secret_key: U256,
    ) -> (r: BlockchainTestCase)
        ensures
            r.case_name@ == case_name@,
            r.case_category@ == case_category@,
            r.block == block,
            r.pre == pre,
            r.post == post,
            r.secret_key == secret_key,
    {
        BlockchainTestCase { case_name, case_category, block, pre, post, secret_key }
    }

    /// Addresses are unique in the pre-state and in a declared post-state
    /// mapping.
    pub open spec fn wf(self) -> bool {
        &&& addrs_unique(self.pre@)
        &&& (self.post matches RootOrState::State(m) ==> addrs_unique(m@))
    }

    /// Every pre-state account is within the machine limits of the
    /// materializer.
    pub open spec fn pre_sizes_ok(self) -> bool {
        forall|i: int|
            0 <= i < self.pre@.len() ==> {
                &&& (#[trigger] self.pre@[i]).1.code@.len() <= 0xffff_ffff
                &&& self.pre@[i].1.code@.len() + 15 <= usize::MAX
                &&& 2 * self.pre@[i].1.storage@.len() <= usize::MAX
            }
    }

    /// A header quantity narrowed to 64 bits: its value when it fits,
    /// zero otherwise.
    pub open spec fn spec_u64_of(v: U256) -> int {
        if v.hi == 0 && v.lo <= u64::MAX {
            v.lo as int
        } else {
            0
        }
    }

    /// The block environment the context is created with: number,
    /// timestamp and fee recipient from the header, zero for each absent
    /// or non-representable field.
    pub open spec fn spec_block_env(self) -> BlockEnv {
        match self.block.block_header {
            Some(h) => BlockEnv {
                number: Self::spec_u64_of(h.number) as u64,
                timestamp: Self::spec_u64_of(h.timestamp) as u64,
                coinbase: h.coinbase,
            },
            None => BlockEnv { number: 0, timestamp: 0, coinbase: EvmAddress { hi: 0, lo: 0 } },
        }
    }

    /// The block's gas usage, zero when the fixture has no header.
    pub open spec fn spec_gas_used(self) -> U256 {
        match self.block.block_header {
            Some(h) => h.gas_used,
            None => U256 { lo: 0, hi: 0 },
        }
    }

    /// The fee recipient, the zero address when the fixture has no header.
    pub open spec fn spec_coinbase(self) -> EvmAddress {
        match self.block.block_header {
            Some(h) => h.coinbase,
            None => EvmAddress { hi: 0, lo: 0 },
        }
    }

    /// The block's base fee, zero when absent.
    pub open spec fn spec_base_fee(self) -> U256 {
        match self.block.block_header {
            Some(h) => match h.base_fee_per_gas {
                Some(b) => b,
                None => U256 { lo: 0, hi: 0 },
            },
            None => U256 { lo: 0, hi: 0 },
        }
    }

    /// The transaction's legacy gas price, zero when absent.
    pub open spec fn spec_gas_price(self) -> U256 {
        if self.block.transactions@.len() > 0 {
            match self.block.transactions@[0].gas_price {
                Some(p) => p,
                None => U256 { lo: 0, hi: 0 },
            }
        } else {
            U256 { lo: 0, hi: 0 }
        }
    }

    /// The transaction's priority fee bound, zero when absent.
    pub open spec fn spec_max_priority_fee(self) -> U256 {
        if self.block.transactions@.len() > 0 {
            match self.block.transactions@[0].max_priority_fee_per_gas {
                Some(p) => p,
                None => U256 { lo: 0, hi: 0 },
            }
        } else {
            U256 { lo: 0, hi: 0 }
        }
    }

    /// The transaction's fee cap, zero when absent.
    pub open spec fn spec_max_fee(self) -> U256 {
        if self.block.transactions@.len() > 0 {
            match self.block.transactions@[0].max_fee_per_gas {
                Some(p) => p,
                None => U256 { lo: 0, hi: 0 },
            }
        } else {
            U256 { lo: 0, hi: 0 }
        }
    }

    /// The fixture specifies both the legacy and the newer fee fields.
    pub open spec fn spec_ambiguous(self) -> bool {
        spec_ambiguous_fees(self.spec_gas_price(), self.spec_max_fee())
    }

    /// The fixture's fee quantities are representable.
    pub open spec fn spec_in_range(self) -> bool {
        spec_fees_in_range(
            self.spec_gas_used(),
            self.spec_base_fee(),
            self.spec_gas_price(),
            self.spec_max_priority_fee(),
            self.spec_max_fee(),
        )
    }

    /// The declared post-state mapping; empty for the root-hash form.
    pub open spec fn declared_post(self) -> Seq<(EvmAddress, AccountState)> {
        match self.post {
            RootOrState::State(m) => m@,
            RootOrState::Root(_) => Seq::empty(),
        }
    }

    /// The price per gas the case pays.
    pub open spec fn spec_price(self) -> int {
        spec_effective_price(
            self.spec_gas_price(),
            self.spec_base_fee(),
            self.spec_max_priority_fee(),
            self.spec_max_fee(),
        )
    }

    /// The sender's transaction cost.
    pub open spec fn spec_cost(self) -> int {
        self.spec_price() * self.spec_gas_used().val()
    }

    /// The coinbase's gain.
    pub open spec fn spec_gain(self) -> int {
        (self.spec_price() - self.spec_base_fee().val()) * self.spec_gas_used().val()
    }

    /// The sender the secret key derives.
    pub open spec fn spec_sender(self) -> EvmAddress {
        address_from_val(eth_address_of_key(self.secret_key.lo, self.secret_key.hi))
    }

    /// The addresses the case compares: those of the declared post-state
    /// or of the pre-state.
    pub open spec fn compared(self, a: EvmAddress) -> bool {
        assoc_has(self.declared_post(), a) || assoc_has(self.pre@, a)
    }

    /// Every compared account is resolvable in the backend and its stored
    /// code length is readable.
    pub open spec fn reads_ok(self, s: SequencerState) -> bool {
        forall|a: EvmAddress|
            #[trigger] self.compared(a) ==> {
                &&& s.resolved(spec_handle(a))
                &&& s.spec_code_len(a).hi == 0
                &&& s.spec_code_len(a).lo <= 0xffff_ffff
            }
    }

    /// The verification verdict, tied to the diff of the completed
    /// expected state against the read-back state: the case passes exactly
    /// when every adjustment is representable and the diff is empty, and a
    /// state mismatch carries exactly that diff.
    pub open spec fn post_verdict_rel(
        self,
        s: SequencerState,
        r: Result<(), RunnerError>,
        completed: Seq<(EvmAddress, AccountState)>,
        observed: Seq<(EvmAddress, AccountState)>,
    ) -> bool {
        let sender = self.spec_sender();
        let coinbase = self.spec_coinbase();
        let cost = self.spec_cost();
        let gain = self.spec_gain();
        &&& completed_rel(completed, self.declared_post(), self.pre@)
        &&& observed_rel(observed, completed, s)
        &&& ((r is Ok) <==> (spec_balances_adjustable(
            completed,
            observed,
            sender,
            coinbase,
            cost,
            gain,
        ) && spec_state_diff(completed, observed, sender, coinbase, cost, gain).len() == 0))
        &&& (r matches Err(e) ==> (e matches RunnerError::StateMismatch(d) ==> diff_matches(
            d@,
            spec_state_diff(completed, observed, sender, coinbase, cost, gain),
        )))
    }

    /// Loads the complete pre-state into the backend: each account is
    /// materialized and funded, in declaration order. Fails exactly when
    /// some account's nonce does not fit the backend's native width.
    pub fn handle_pre_state(&self, sequencer: &mut SequencerState) -> (r: Result<
        (),
        RunnerError,
    >)
        requires
            old(sequencer).is_ready(),
            self.pre_sizes_ok(),
        ensures
            final(sequencer).is_ready(),
            final(sequencer).cfg == old(sequencer).cfg,
            final(sequencer).env == old(sequencer).env,
            (r is Ok) <==> (forall|i: int|
                0 <= i < self.pre@.len() ==> (#[trigger] self.pre@[i]).1.nonce.hi == 0),
            r matches Err(e) ==> (e is SequencerError),
            (r is Ok) ==> {
                &&& final(sequencer).store() == old(sequencer).store() + spec_setup_store(
                    old(sequencer).cfg,
                    self.pre@,
                )
                &&& final(sequencer).nonce_table() == old(sequencer).nonce_table()
                    + spec_setup_nonces(old(sequencer).cfg, self.pre@)
                &&& final(sequencer).class_table() == old(sequencer).class_table()
                    + spec_setup_classes(old(sequencer).cfg, self.pre@)
            },
    {
        let ghost cfg = old(sequencer).cfg;
        let mut i: usize = 0;
        while i < self.pre.len()
            invariant
                0 <= i <= self.pre@.len(),
                sequencer.is_ready(),
                sequencer.cfg == old(sequencer).cfg,
                sequencer.env == old(sequencer).env,
                cfg == old(sequencer).cfg,
                self.pre_sizes_ok(),
                forall|k: int| 0 <= k < i ==> (#[trigger] self.pre@[k]).1.nonce.hi == 0,
                sequencer.store() == old(sequencer).store() + spec_setup_store(
                    cfg,
                    self.pre@.take(i as int),
                ),
                sequencer.nonce_table() == old(sequencer).nonce_table() + spec_setup_nonces(
                    cfg,
                    self.pre@.take(i as int),
                ),
                sequencer.class_table() == old(sequencer).class_table() + spec_setup_classes(
                    cfg,
                    self.pre@.take(i as int),
                ),
            decreases self.pre@.len() - i,
        {
            let entry = &self.pre[i];
            let ghost store_before = sequencer.store();
            let ghost nonces_before = sequencer.nonce_table();
            let ghost classes_before = sequencer.class_table();
            match sequencer.setup_account(&entry.0, &entry.1.code, entry.1.nonce, &entry.1.storage) {
                Ok(()) => {},
                Err(e) => {
                    return Err(e);
                },
            }
            sequencer.fund(&entry.0, entry.1.balance);
            proof {
                let prefix = self.pre@.take(i as int);
                let longer = self.pre@.take(i as int + 1);
                assert(longer.drop_last() =~= prefix);
                assert(longer.last() == self.pre@[i as int]);
                let e = self.pre@[i as int];
                let acct = crate::evm_state::spec_account_entries(
                    cfg,
                    e.0,
                    e.1.code@,
                    e.1.nonce,
                    e.1.storage@,
                );
                let funding = crate::evm_state::spec_funding_entries(cfg, e.0, e.1.balance);
                assert(sequencer.store() == (store_before + acct) + funding);
                assert((old(sequencer).store() + spec_setup_store(cfg, prefix) + acct) + funding
                    =~= old(sequencer).store() + spec_setup_store(cfg, longer));
                assert(sequencer.nonce_table() =~= old(sequencer).nonce_table()
                    + spec_setup_nonces(cfg, longer)) by {
                    if e.1.code@.len() == 0 && e.1.storage@.len() == 0 {
                        assert(sequencer.nonce_table() == nonces_before.push(
                            (crate::setup::spec_handle(e.0), crate::setup::half_felt(
                                e.1.nonce.lo,
                            )),
                        ));
                    }
                }
                assert(sequencer.class_table() =~= old(sequencer).class_table()
                    + spec_setup_classes(cfg, longer));
            }
            i = i + 1;
        }
        proof {
            assert(self.pre@.take(self.pre@.len() as int) =~= self.pre@);
        }
        Ok(())
    }

    /// The fixture's transaction, made executable: the raw encoding is
    /// decoded, the chain id overwritten with the given one, and the
    /// signature recomputed from the sender's secret key over the
    /// overwritten payload. The fixture's own signature is discarded.
    /// Fails with a decode error exactly when the encoding is malformed,
    /// and with a report when the block declares no transaction or the
    /// key cannot sign.
    pub fn prepare_transaction(&self, chain_id: u64) -> (r: Result<
        SignedTransaction,
        RunnerError,
    >)
        ensures
            (r is Ok) ==> (tx_well_formed(self.block.rlp@) && self.block.transactions@.len()
                > 0),
            !tx_well_formed(self.block.rlp@) ==> (r matches Err(e) && e is DecodeError),
            (tx_well_formed(self.block.rlp@) && self.block.transactions@.len() == 0) ==> (
            r matches Err(e) && (e matches RunnerError::Other(m) && m.texts() =~= seq![
                "No transaction in pre state block"@,
            ])),
            (tx_well_formed(self.block.rlp@) && self.block.transactions@.len() > 0
                && !key_valid(self.secret_key.lo, self.secret_key.hi)) ==> (r matches Err(e)
                && (e matches RunnerError::Other(m) && m.texts() =~= seq![
                "could not sign the transaction with the sender key"@,
            ])),
            (tx_well_formed(self.block.rlp@) && self.block.transactions@.len() > 0) ==> (
            r matches Err(e) ==> (e matches RunnerError::Other(m) ==> m.texts() =~= seq![
                "could not sign the transaction with the sender key"@,
            ])),
            r matches Ok(t) ==> {
                let d = decoded_tx_of(self.block.rlp@);
                &&& t.chain_id == chain_id
                &&& t.nonce.val() == d.0.1
                &&& t.gas_limit.val() == d.0.2
                &&& t.value.val() == d.0.3
                &&& (match t.gas_price {
                    Some(p) => Some(p.val()),
                    None => None::<int>,
                }) == d.1.0
                &&& (match t.max_priority_fee_per_gas {
                    Some(p) => Some(p.val()),
                    None => None::<int>,
                }) == d.1.1
                &&& (match t.max_fee_per_gas {
                    Some(p) => Some(p.val()),
                    None => None::<int>,
                }) == d.1.2
                &&& (match t.to {
                    Some(a) => Some(a.val()),
                    None => None::<int>,
                }) == d.1.3
                &&& t.input@ == d.2.0
                &&& (t.signature matches Some(sig) && ((sig.r.val(), sig.s.val(), sig.v as int)
                    == spec_sig_of_tx(t, self.secret_key)))
            },
            r matches Err(e) ==> (e is DecodeError || e is Other),
            r matches Err(e) ==> (e is DecodeError ==> !tx_well_formed(self.block.rlp@)),
    {
        let mut tx = match decode_transaction(&self.block.rlp) {
            Some(t) => t,
            None => {
                let mut lines: Vec<String> = Vec::new();
                lines.push(String::from_str("malformed transaction encoding"));
                return Err(RunnerError::DecodeError(Messages(lines)));
            },
        };
        if self.block.transactions.len() == 0 {
            let mut lines: Vec<String> = Vec::new();
            lines.push(String::from_str("No transaction in pre state block"));
            let m = Messages(lines);
            proof {
                assert(m.texts() =~= seq!["No transaction in pre state block"@]);
            }
            return Err(RunnerError::Other(m));
        }
        tx.chain_id = chain_id;
        tx.signature = None;
        let sig = match sign_transaction(&tx, &self.secret_key) {
            Some(s) => s,
            None => {
                let mut lines: Vec<String> = Vec::new();
                lines.push(String::from_str("could not sign the transaction with the sender key"));
                let m = Messages(lines);
                proof {
                    assert(m.texts() =~= seq![
                        "could not sign the transaction with the sender key"@,
                    ]);
                }
                return Err(RunnerError::Other(m));
            },
        };
        tx.signature = Some(sig);
        Ok(tx)
    }

    /// Prepares the transaction (decode, chain-id overwrite, re-sign) and
    /// submits it. A backend-level execution failure is captured in the
    /// outcome value, not raised as an error: the harness records it and
    /// proceeds to verification.
    pub fn handle_transaction(&self, sequencer: &mut SequencerState) -> (r: Result<
        ExecutionOutcome,
        RunnerError,
    >)
        requires
            old(sequencer).is_ready(),
        ensures
            *final(sequencer) == *old(sequencer),
            (r is Ok) ==> (tx_well_formed(self.block.rlp@) && self.block.transactions@.len()
                > 0),
            !tx_well_formed(self.block.rlp@) ==> (r matches Err(e) && e is DecodeError),
            (tx_well_formed(self.block.rlp@) && self.block.transactions@.len() == 0) ==> (
            r matches Err(e) && (e matches RunnerError::Other(m) && m.texts() =~= seq![
                "No transaction in pre state block"@,
            ])),
            (tx_well_formed(self.block.rlp@) && self.block.transactions@.len() > 0
                && !key_valid(self.secret_key.lo, self.secret_key.hi)) ==> (r matches Err(e)
                && (e matches RunnerError::Other(m) && m.texts() =~= seq![
                "could not sign the transaction with the sender key"@,
            ])),
            (tx_well_formed(self.block.rlp@) && self.block.transactions@.len() > 0) ==> (
            r matches Err(e) ==> (e matches RunnerError::Other(m) ==> m.texts() =~= seq![
                "could not sign the transaction with the sender key"@,
            ])),
            r matches Ok(o) ==> (o is NotExecuted),
            r matches Err(e) ==> (e is DecodeError || e is Other),
            r matches Err(e) ==> (e is DecodeError ==> !tx_well_formed(self.block.rlp@)),
    {
        let chain_id = sequencer.cfg.chain_id;
        let tx = match self.prepare_transaction(chain_id) {
            Ok(t) => t,
            Err(e) => {
                return Err(e);
            },
        };
        Ok(sequencer.execute_transaction(&tx))
    }

    /// Verifies the backend state against the fixture's expected
    /// post-state: rejects a root-hash form, derives the sender, computes
    /// the fee quantities, completes the expected post-state, reads every
    /// compared account back, and reports every difference together. When
    /// every compared account is readable, the verdict is tied exactly to
    /// the diff of the completed expectation against the read-back state.
    pub fn handle_post_state(&self, sequencer: &SequencerState) -> (r: Result<(), RunnerError>)
        requires
            self.wf(),
            sequencer.cfg.wf(),
        ensures
            self.post is Root ==> (r matches Err(e) && e is UnsupportedPostStateForm),
            (self.post is State && !key_valid(self.secret_key.lo, self.secret_key.hi)) ==> (
            r matches Err(e) && e is Other),
            (self.post is State && key_valid(self.secret_key.lo, self.secret_key.hi)
                && self.spec_ambiguous()) ==> (r matches Err(e)
                && e is AmbiguousFeeSpecification),
            (self.post is State && key_valid(self.secret_key.lo, self.secret_key.hi)
                && !self.spec_ambiguous() && !self.spec_in_range()) ==> (r matches Err(e)
                && e is SequencerError),
            (self.post is State && key_valid(self.secret_key.lo, self.secret_key.hi)
                && !self.spec_ambiguous() && self.spec_in_range()) ==> ((r is Ok) || (
            r matches Err(e) && (e is StateMismatch || e is SequencerError))),
            r matches Err(e) ==> (e matches RunnerError::StateMismatch(d) ==> d@.len() > 0),
            (self.post is State && key_valid(self.secret_key.lo, self.secret_key.hi)
                && !self.spec_ambiguous() && self.spec_in_range() && self.reads_ok(*sequencer))
                ==> (exists|completed: Seq<(EvmAddress, AccountState)>, observed: Seq<
                (EvmAddress, AccountState),
            >| self.post_verdict_rel(*sequencer, r, completed, observed)),
    {
        // A post-state given as a bare root hash cannot be verified here.
        let declared: &StateMap = match &self.post {
            RootOrState::Root(_) => {
                return Err(RunnerError::UnsupportedPostStateForm);
            },
            RootOrState::State(m) => m,
        };
        // The sender is derived from the fixture's secret key.
        let sender = match wallet_address(&self.secret_key) {
            Some(a) => a,
            None => {
                let mut lines: Vec<String> = Vec::new();
                lines.push(String::from_str("invalid sender secret key"));
                return Err(RunnerError::Other(Messages(lines)));
            },
        };
        proof {
            lemma_address_from_val(sender);
            assert(sender == self.spec_sender());
        }
        // Header and transaction fee fields, defaulted to zero.
        let gas_used = match &self.block.block_header {
            Some(h) => h.gas_used,
            None => U256::zero(),
        };
        let coinbase = match &self.block.block_header {
            Some(h) => h.coinbase,
            None => EvmAddress::new(0, 0),
        };
        let base_fee = match &self.block.block_header {
            Some(h) => match h.base_fee_per_gas {
                Some(b) => b,
                None => U256::zero(),
            },
            None => U256::zero(),
        };
        let (gas_price, max_priority, max_fee) = if self.block.transactions.len() > 0 {
            let tx = &self.block.transactions[0];
            (
                match tx.gas_price {
                    Some(p) => p,
                    None => U256::zero(),
                },
                match tx.max_priority_fee_per_gas {
                    Some(p) => p,
                    None => U256::zero(),
                },
                match tx.max_fee_per_gas {
                    Some(p) => p,
                    None => U256::zero(),
                },
            )
        } else {
            (U256::zero(), U256::zero(), U256::zero())
        };
        proof {
            U256::lemma_val_injective(gas_used, self.spec_gas_used());
            U256::lemma_val_injective(base_fee, self.spec_base_fee());
            assert(gas_used == self.spec_gas_used());
            assert(coinbase == self.spec_coinbase());
            assert(base_fee == self.spec_base_fee());
            assert(gas_price == self.spec_gas_price());
            assert(max_priority == self.spec_max_priority_fee());
            assert(max_fee == self.spec_max_fee());
        }
        let fee = match fee_outcome(gas_used, base_fee, gas_price, max_priority, max_fee) {
            Ok(f) => f,
            Err(e) => {
                return Err(e);
            },
        };
        proof {
            assert(fee.effective_price.val() == self.spec_price());
            assert(fee.transaction_cost.val() == self.spec_cost());
            assert(fee.coinbase_gain.val() == self.spec_gain());
        }
        let dup = duplicate_state_map(declared);
        let ghost dupv = dup@;
        let completed = update_post_state(dup, &self.pre);
        proof {
            lemma_reset_addrs_same_keys(self.pre@, dupv, declared@);
            assert forall|i: int|
                0 <= i < declared@.len() implies ((#[trigger] completed@[i]).0 == declared@[i].0
                && account_view_eq(completed@[i].1, declared@[i].1)) by {
                assert(completed@.take(dupv.len() as int)[i] == completed@[i]);
                assert(completed@[i] == dupv[i]);
            }
            assert(self.declared_post() == declared@);
            assert(reset_addrs(self.pre@, dupv) == reset_addrs(self.pre@, declared@));
            assert forall|j: int|
                0 <= j < reset_addrs(self.pre@, declared@).len() implies ((
                #[trigger] completed@[declared@.len() + j]).0 == reset_addrs(
                    self.pre@,
                    declared@,
                )[j] && is_reset_account(completed@[declared@.len() + j].1)) by {
                assert(completed@[dupv.len() + j].0 == reset_addrs(self.pre@, dupv)[j]);
                assert(is_reset_account(completed@[dupv.len() + j].1));
            }
            assert(completed_rel(completed@, declared@, self.pre@));
            lemma_reset_addrs_members(self.pre@, declared@);
            assert forall|k: int|
                0 <= k < completed@.len() implies self.compared(
                (#[trigger] completed@[k]).0,
            ) by {
                if k < declared@.len() {
                    assert(completed@[k].0 == declared@[k].0);
                    assert(assoc_has(declared@, declared@[k].0));
                } else {
                    let j = k - declared@.len();
                    assert(completed@[declared@.len() + j].0 == reset_addrs(
                        self.pre@,
                        declared@,
                    )[j]);
                    assert(assoc_has(self.pre@, reset_addrs(self.pre@, declared@)[j]));
                }
            }
        }
        // Read every compared account back from the backend.
        let mut observed: StateMap = Vec::new();
        let mut i: usize = 0;
        while i < completed.len()
            invariant
                0 <= i <= completed@.len(),
                sequencer.cfg.wf(),
                key_valid(self.secret_key.lo, self.secret_key.hi),
                !self.spec_ambiguous(),
                self.spec_in_range(),
                self.post is State,
                forall|k: int|
                    0 <= k < completed@.len() ==> self.compared((#[trigger] completed@[k]).0),
                observed@.len() == i,
                forall|k: int|
                    0 <= k < i ==> {
                        let a = (#[trigger] completed@[k]).0;
                        &&& observed@[k].0 == a
                        &&& observed@[k].1.nonce.val() == sequencer.spec_nonce_read(a)
                        &&& observed@[k].1.balance.val() == sequencer.spec_balance_read(a)
                        &&& observed@[k].1.code@ == sequencer.spec_code_read(a)
                        &&& observed@[k].1.storage@.len() == completed@[k].1.storage@.len()
                        &&& forall|j: int|
                            0 <= j < completed@[k].1.storage@.len() ==> ((#[trigger] observed@[k].1.storage@[j]).0
                                == completed@[k].1.storage@[j].0
                                && observed@[k].1.storage@[j].1.val()
                                == sequencer.spec_storage_read(a, completed@[k].1.storage@[j].0))
                    },
            decreases completed@.len() - i,
        {
            let entry = &completed[i];
            let addr = entry.0;
            proof {
                assert(self.compared(completed@[i as int].0));
            }
            let nonce = match sequencer.get_nonce_at(&addr) {
                Ok(v) => v,
                Err(e) => {
                    proof {
                        assert(!self.reads_ok(*sequencer)) by {
                            if self.reads_ok(*sequencer) {
                                assert(self.compared(addr));
                            }
                        }
                    }
                    return Err(e);
                },
            };
            let balance = match sequencer.get_balance_at(&addr) {
                Ok(v) => v,
                Err(e) => {
                    proof {
                        assert(!self.reads_ok(*sequencer)) by {
                            if self.reads_ok(*sequencer) {
                                assert(self.compared(addr));
                            }
                        }
                    }
                    return Err(e);
                },
            };
            let code = match sequencer.get_code_at(&addr) {
                Ok(v) => v,
                Err(e) => {
                    proof {
                        assert(!self.reads_ok(*sequencer)) by {
                            if self.reads_ok(*sequencer) {
                                assert(self.compared(addr));
                            }
                        }
                    }
                    return Err(e);
                },
            };
            let mut storage: Vec<(U256, U256)> = Vec::new();
            let mut j: usize = 0;
            while j < entry.1.storage.len()
                invariant
                    0 <= j <= entry.1.storage@.len(),
                    0 <= i < completed@.len(),
                    *entry == completed@[i as int],
                    addr == completed@[i as int].0,
                    self.compared(addr),
                    key_valid(self.secret_key.lo, self.secret_key.hi),
                    !self.spec_ambiguous(),
                    self.spec_in_range(),
                    self.post is State,
                    storage@.len() == j,
                    forall|jj: int|
                        0 <= jj < j ==> ((#[trigger] storage@[jj]).0
                            == completed@[i as int].1.storage@[jj].0 && storage@[jj].1.val()
                            == sequencer.spec_storage_read(
                            addr,
                            completed@[i as int].1.storage@[jj].0,
                        )),
                decreases entry.1.storage@.len() - j,
            {
                let key = entry.1.storage[j].0;
                let value = match sequencer.get_storage_at(&addr, key) {
                    Ok(v) => v,
                    Err(e) => {
                        proof {
                            assert(!self.reads_ok(*sequencer)) by {
                                if self.reads_ok(*sequencer) {
                                    assert(self.compared(addr));
                                }
                            }
                        }
                        return Err(e);
                    },
                };
                storage.push((key, value));
                j = j + 1;
            }
            observed.push((addr, AccountState { nonce, balance, code, storage }));
            i = i + 1;
        }
        proof {
            assert(observed_rel(observed@, completed@, *sequencer));
        }
        let diff = match compute_diff(&completed, &observed, sender, coinbase, &fee) {
            Ok(d) => d,
            Err(e) => {
                proof {
                    assert forall|k: int|
                        0 <= k < completed@.len() implies assoc_has(
                        observed@,
                        (#[trigger] completed@[k]).0,
                    ) by {
                        assert(observed@[k].0 == completed@[k].0);
                    }
                    assert(self.post_verdict_rel(
                        *sequencer,
                        Err::<(), RunnerError>(e),
                        completed@,
                        observed@,
                    ));
                }
                return Err(e);
            },
        };
        proof {
            assert forall|k: int|
                0 <= k < completed@.len() implies assoc_has(
                observed@,
                (#[trigger] completed@[k]).0,
            ) by {
                assert(observed@[k].0 == completed@[k].0);
            }
        }
        if diff.len() > 0 {
            let err = RunnerError::StateMismatch(diff);
            proof {
                assert(self.post_verdict_rel(
                    *sequencer,
                    Err::<(), RunnerError>(err),
                    completed@,
                    observed@,
                ));
            }
            return Err(err);
        }
        proof {
            assert(self.post_verdict_rel(*sequencer, Ok::<(), RunnerError>(()), completed@, observed@));
        }
        Ok(())
    }

    /// The backend context the case's phases build, and the verdict it
    /// grounds: the context is pinned by the pre-state load, and on it the
    /// post-state verdict is tied to the diff of the completed expectation
    /// against the read-back state.
    pub open spec fn loaded_verdict_rel(
        self,
        cfg: ChainConfig,
        s: SequencerState,
        r: Result<(), RunnerError>,
    ) -> bool {
        &&& s.cfg == cfg
        &&& s.env == self.spec_block_env()
        &&& s.store() == spec_setup_store(cfg, self.pre@)
        &&& s.nonce_table() == spec_setup_nonces(cfg, self.pre@)
        &&& s.class_table() == spec_setup_classes(cfg, self.pre@)
        &&& ((self.post is State && key_valid(self.secret_key.lo, self.secret_key.hi)
            && !self.spec_ambiguous() && self.spec_in_range() && self.reads_ok(s) && !(
        r matches Err(e) && (e is Other || e is DecodeError))) ==> (exists|
            completed: Seq<(EvmAddress, AccountState)>,
            observed: Seq<(EvmAddress, AccountState)>,
        | self.post_verdict_rel(s, r, completed, observed)))
    }

    /// The result is the abort the signer forced: the sender key could
    /// not produce the signature.
    pub open spec fn is_signing_failure(r: Result<(), RunnerError>) -> bool {
        r matches Err(e) && (e matches RunnerError::Other(m) && m.texts() =~= seq![
            "could not sign the transaction with the sender key"@,
        ])
    }

    /// Runs the case start to finish against a fresh backend context:
    /// provision, pre-state load, transaction submission, post-state
    /// verification. The first failing phase aborts the rest and its error
    /// is returned unchanged; nothing is retried.
    pub fn run(&self, cfg: &ChainConfig) -> (r: Result<(), RunnerError>)
        requires
            self.wf(),
            self.pre_sizes_ok(),
            cfg.wf(),
        ensures
            (exists|i: int|
                0 <= i < self.pre@.len() && (#[trigger] self.pre@[i]).1.nonce.hi != 0) ==> (
            r matches Err(e) && e is SequencerError),
            (forall|i: int|
                0 <= i < self.pre@.len() ==> (#[trigger] self.pre@[i]).1.nonce.hi == 0)
                && !tx_well_formed(self.block.rlp@) ==> (r matches Err(e) && e is DecodeError),
            (forall|i: int|
                0 <= i < self.pre@.len() ==> (#[trigger] self.pre@[i]).1.nonce.hi == 0)
                && tx_well_formed(self.block.rlp@) && self.block.transactions@.len() == 0 ==> (
            r matches Err(e) && e is Other),
            (forall|i: int|
                0 <= i < self.pre@.len() ==> (#[trigger] self.pre@[i]).1.nonce.hi == 0)
                && tx_well_formed(self.block.rlp@) && self.block.transactions@.len() > 0 ==> {
                &&& !key_valid(self.secret_key.lo, self.secret_key.hi) ==> (r matches Err(e)
                    && e is Other)
                &&& (key_valid(self.secret_key.lo, self.secret_key.hi) && self.post is Root)
                    ==> ((r matches Err(e) && e is UnsupportedPostStateForm)
                    || Self::is_signing_failure(r))
                &&& (key_valid(self.secret_key.lo, self.secret_key.hi) && self.post is State
                    && self.spec_ambiguous()) ==> ((r matches Err(e)
                    && e is AmbiguousFeeSpecification) || Self::is_signing_failure(r))
                &&& (key_valid(self.secret_key.lo, self.secret_key.hi) && self.post is State
                    && !self.spec_ambiguous() && !self.spec_in_range()) ==> ((r matches Err(e)
                    && e is SequencerError) || Self::is_signing_failure(r))
                &&& (key_valid(self.secret_key.lo, self.secret_key.hi) && self.post is State
                    && !self.spec_ambiguous() && self.spec_in_range()) ==> ((r is Ok) || (
                r matches Err(e) && (e is StateMismatch || e is SequencerError))
                    || Self::is_signing_failure(r))
                &&& (exists|s: SequencerState| self.loaded_verdict_rel(*cfg, s, r))
            },
            r matches Err(e) ==> (e matches RunnerError::StateMismatch(d) ==> d@.len() > 0),
    {
        let env = match &self.block.block_header {
            Some(h) => BlockEnv {
                number: u64_of(h.number),
                timestamp: u64_of(h.timestamp),
                coinbase: h.coinbase,
            },
            None => BlockEnv { number: 0, timestamp: 0, coinbase: EvmAddress::new(0, 0) },
        };
        proof {
            assert(env == self.spec_block_env());
        }
        let mut sequencer = SequencerState::new(*cfg, env);
        sequencer.setup_state();
        match self.handle_pre_state(&mut sequencer) {
            Ok(()) => {},
            Err(e) => {
                return Err(e);
            },
        }
        proof {
            assert(Seq::<((crate::codec::Felt, crate::codec::SlotView), crate::codec::Felt)>::empty()
                + spec_setup_store(*cfg, self.pre@) =~= spec_setup_store(*cfg, self.pre@));
            assert(Seq::<(crate::codec::Felt, crate::codec::Felt)>::empty() + spec_setup_nonces(
                *cfg,
                self.pre@,
            ) =~= spec_setup_nonces(*cfg, self.pre@));
            assert(Seq::<(crate::codec::Felt, crate::codec::Felt)>::empty() + spec_setup_classes(
                *cfg,
                self.pre@,
            ) =~= spec_setup_classes(*cfg, self.pre@));
        }
        let _outcome = match self.handle_transaction(&mut sequencer) {
            Ok(o) => o,
            Err(e) => {
                proof {
                    assert(self.loaded_verdict_rel(*cfg, sequencer, Err::<(), RunnerError>(e)));
                }
                return Err(e);
            },
        };
        let r = self.handle_post_state(&sequencer);
        proof {
            assert(self.loaded_verdict_rel(*cfg, sequencer, r));
        }
        r
    }
}

/// Narrows a header quantity to 64 bits, zero when it does not fit.
fn u64_of(v: U256) -> (r: u64)
    ensures
        r as int == BlockchainTestCase::spec_u64_of(v),
{
    if v.hi == 0 && v.lo <= u64::MAX as u128 {
        v.lo as u64
    } else {
        0
    }
}

/// A copy of a state mapping, account by account.
fn duplicate_state_map(m: &StateMap) -> (r: StateMap)
    ensures
        r@.len() == m@.len(),
        forall|i: int|
            0 <= i < m@.len() ==> {
                &&& (#[trigger] r@[i]).0 == m@[i].0
                &&& r@[i].1.nonce == m@[i].1.nonce
                &&& r@[i].1.balance == m@[i].1.balance
                &&& r@[i].1.code@ == m@[i].1.code@
                &&& r@[i].1.storage@ == m@[i].1.storage@
            },
        addrs_unique(m@) ==> addrs_unique(r@),
{
    let mut out: StateMap = Vec::new();
    let mut i: usize = 0;
    while i < m.len()
        invariant
            0 <= i <= m@.len(),
            out@.len() == i,
            forall|k: int|
                0 <= k < i ==> {
                    &&& (#[trigger] out@[k]).0 == m@[k].0
                    &&& out@[k].1.nonce == m@[k].1.nonce
                    &&& out@[k].1.balance == m@[k].1.balance
                    &&& out@[k].1.code@ == m@[k].1.code@
                    &&& out@[k].1.storage@ == m@[k].1.storage@
                },
        decreases m@.len() - i,
    {
        let entry = &m[i];
        let mut storage: Vec<(U256, U256)> = Vec::new();
        let mut j: usize = 0;
        while j < entry.1.storage.len()
            invariant
                0 <= j <= entry.1.storage@.len(),
                storage@ == entry.1.storage@.take(j as int),
            decreases entry.1.storage@.len() - j,
        {
            storage.push(entry.1.storage[j]);
            proof {
                assert(storage@ =~= entry.1.storage@.take(j as int + 1));
            }
            j = j + 1;
        }
        proof {
            assert(entry.1.storage@.take(entry.1.storage@.len() as int) =~= entry.1.storage@);
        }
        let account = AccountState {
            nonce: entry.1.nonce,
            balance: entry.1.balance,
            code: copy_bytes(&entry.1.code),
            storage,
        };
        out.push((entry.0, account));
        i = i + 1;
    }
    out
}

} // verus!
