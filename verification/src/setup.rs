//! The account materializer: given one EVM account's address, code, nonce
//! and storage entries, it produces the complete set of backend storage
//! writes that instantiate that account, choosing between the plain
//! (externally owned) and the contract account implementation class.
//!
//! The funding materializer produces the writes that fund an account's
//! native-token balance and grant the system fee-sponsor contract an
//! unlimited spending allowance. The allowance is a harness convenience
//! that lets the sponsor settle gas independently of the modeled balance;
//! it is not EVM behavior.

use vstd::prelude::*;

use crate::codec::{address_of, uint256_addresses_of, Felt, SlotAddress, SlotView};
use crate::state::EvmAddress;
use crate::word::U256;

verus! {

/// The backend identities a test chain is provisioned with: the system
/// contract that owns every materialized account, the implementation
/// classes, and the fee token.
#[derive(Clone, Copy, PartialEq, Eq, Structural, Debug)]
pub struct ChainConfig {
    /// Handle of the system contract that owns the materialized accounts
    /// and sponsors gas.
    pub system_address: Felt,
    /// Implementation class of a plain externally-owned account.
    pub eoa_class_hash: Felt,
    /// Implementation class of a contract account.
    pub contract_class_hash: Felt,
    /// Proxy class every account is registered under.
    pub proxy_class_hash: Felt,
    /// Handle of the native fee token contract.
    pub fee_token_address: Felt,
    /// Chain id every fixture transaction is re-signed under.
    pub chain_id: u64,
}

impl ChainConfig {
    /// The two implementation classes are distinct, so an account's kind
    /// can be told from its `_implementation` storage variable.
    pub open spec fn wf(self) -> bool {
        self.eoa_class_hash != self.contract_class_hash
    }
}

/// Failure of the account materializer.
#[derive(Clone, Copy, PartialEq, Eq, Structural, Debug)]
pub enum SetupError {
    /// The nonce does not fit the backend's native nonce width.
    OutOfRange,
}

/// The complete set of backend mutations that instantiate one account.
pub struct SetupPlan {
    /// The account's backend-native handle.
    pub target: Felt,
    /// Writes into the account's own storage space, in order.
    pub writes: Vec<(SlotAddress, Felt)>,
    /// The registration entry, written into the system contract's storage
    /// space: it maps the EVM address to the account's native handle.
    pub registry_write: (SlotAddress, Felt),
    /// For a plain account, the native nonce to set directly; a contract
    /// account keeps its nonce in a storage variable instead.
    pub native_nonce: Option<Felt>,
    /// The proxy class the account is registered under.
    pub class_hash: Felt,
}

/// The writes that fund an account and authorize the fee sponsor.
pub struct FundingPlan {
    /// The account's backend-native handle.
    pub target: Felt,
    /// Writes into the account's own storage space, in order.
    pub writes: Vec<(SlotAddress, Felt)>,
}

/// A variable without keys, at word offset zero.
pub open spec fn slot0(name: Seq<char>) -> SlotView {
    SlotView { name, keys: Seq::empty(), offset: 0 }
}

/// A variable with one key, at word offset zero.
pub open spec fn slot1(name: Seq<char>, key: Felt) -> SlotView {
    SlotView { name, keys: seq![key], offset: 0 }
}

/// A half-word held in a backend word.
pub open spec fn half_felt(x: u128) -> Felt {
    Felt { lo: x, hi: 0 }
}

/// The backend handle of an EVM address: its packed 160-bit value.
pub open spec fn spec_handle(addr: EvmAddress) -> Felt {
    Felt { lo: addr.lo, hi: addr.hi as u128 }
}

/// An executable write list matches its mathematical description.
pub open spec fn writes_match(ws: Seq<(SlotAddress, Felt)>, model: Seq<(SlotView, Felt)>) -> bool {
    &&& ws.len() == model.len()
    &&& forall|i: int|
        0 <= i < ws.len() ==> (#[trigger] ws[i]).0@ == model[i].0 && ws[i].1 == model[i].1
}

/// The identity writes every account receives: reverse-lookup address,
/// initialization flag, owner reference, bytecode length, and the system
/// contract reference.
pub open spec fn spec_base_writes(cfg: ChainConfig, addr: EvmAddress, code_len: int) -> Seq<
    (SlotView, Felt),
> {
    seq![
        (slot0("evm_address"@), spec_handle(addr)),
        (slot0("is_initialized_"@), half_felt(1)),
        (slot0("Ownable_owner"@), cfg.system_address),
        (slot0("bytecode_len_"@), Felt { lo: code_len as u128, hi: 0 }),
        (slot0("system_address"@), cfg.system_address),
    ]
}

/// The kind-specific writes: a plain account records only its
/// implementation class, a contract account also keeps its nonce in a
/// storage variable.
pub open spec fn spec_kind_writes(cfg: ChainConfig, nonce: U256, plain: bool) -> Seq<
    (SlotView, Felt),
> {
    if plain {
        seq![(slot0("_implementation"@), cfg.eoa_class_hash)]
    } else {
        seq![
            (slot0("nonce"@), half_felt(nonce.lo)),
            (slot0("_implementation"@), cfg.contract_class_hash),
        ]
    }
}

/// 256^k.
pub open spec fn pow256(k: nat) -> int
    decreases k,
{
    if k == 0 {
        1
    } else {
        256 * pow256((k - 1) as nat)
    }
}

/// The big-endian value of a byte sequence.
pub open spec fn be_word(s: Seq<u8>) -> int
    decreases s.len(),
{
    if s.len() == 0 {
        0
    } else {
        be_word(s.drop_last()) * 256 + s.last()
    }
}

/// How many backend words the bytecode occupies, at 16 bytes per word.
pub open spec fn chunk_count(len: int) -> int {
    (len + 15) / 16
}

/// The bytes of the bytecode's `i`-th 16-byte chunk.
pub open spec fn chunk_window(code: Seq<u8>, i: int) -> Seq<u8> {
    code.subrange(
        16 * i,
        if 16 * i + 16 <= code.len() {
            16 * i + 16
        } else {
            code.len() as int
        },
    )
}

/// The value of the bytecode's `i`-th chunk: big-endian, with a final
/// partial chunk padded with zero bytes on the right, preserving original
/// byte order.
pub open spec fn word_of_chunk(code: Seq<u8>, i: int) -> int {
    be_word(chunk_window(code, i)) * pow256((16 - chunk_window(code, i).len()) as nat)
}

/// The bytecode written as an indexed sequence of packed words.
pub open spec fn spec_bytecode_writes(code: Seq<u8>) -> Seq<(SlotView, Felt)> {
    Seq::new(
        chunk_count(code.len() as int) as nat,
        |i: int|
            (
                slot1("bytecode_"@, half_felt(i as u128)),
                Felt { lo: word_of_chunk(code, i) as u128, hi: 0 },
            ),
    )
}

/// Each storage entry split into two half-word slots: the low half of the
/// value under the low half of the key, then the high half under the high
/// half of the key.
pub open spec fn spec_storage_writes(storage: Seq<(U256, U256)>) -> Seq<(SlotView, Felt)> {
    Seq::new(
        (2 * storage.len()) as nat,
        |i: int|
            if i % 2 == 0 {
                (slot1("storage_"@, half_felt(storage[i / 2].0.lo)), half_felt(storage[i / 2].1.lo))
            } else {
                (slot1("storage_"@, half_felt(storage[i / 2].0.hi)), half_felt(storage[i / 2].1.hi))
            },
    )
}

/// The full ordered write list for one account.
pub open spec fn spec_account_writes(
    cfg: ChainConfig,
    addr: EvmAddress,
    code: Seq<u8>,
    nonce: U256,
    storage: Seq<(U256, U256)>,
) -> Seq<(SlotView, Felt)> {
    spec_base_writes(cfg, addr, code.len() as int) + spec_kind_writes(
        cfg,
        nonce,
        code.len() == 0 && storage.len() == 0,
    ) + spec_bytecode_writes(code) + spec_storage_writes(storage)
}

pub proof fn lemma_pow256_pos(k: nat)
    ensures
        pow256(k) >= 1,
    decreases k,
{
    if k > 0 {
        lemma_pow256_pos((k - 1) as nat);
    }
}

pub proof fn lemma_pow256_le(a: nat, b: nat)
    requires
        a <= b,
    ensures
        pow256(a) <= pow256(b),
    decreases b,
{
    if a < b {
        lemma_pow256_le(a, (b - 1) as nat);
        lemma_pow256_pos((b - 1) as nat);
    }
}

pub proof fn lemma_pow256_16()
    ensures
        pow256(16) == crate::word::pow2_128(),
{
    reveal_with_fuel(pow256, 17);
}

proof fn lemma_be_word_bound(s: Seq<u8>)
    ensures
        0 <= be_word(s) < pow256(s.len() as nat),
    decreases s.len(),
{
    if s.len() == 0 {
    } else {
        lemma_be_word_bound(s.drop_last());
    }
}

/// A slot for a variable whose name is a known-ASCII literal.
pub(crate) fn make_slot(name: &str, keys: Vec<Felt>) -> (r: SlotAddress)
    requires
        vstd::string::is_ascii(name),
    ensures
        r@ == (SlotView { name: name@, keys: keys@, offset: 0 }),
{
    match address_of(name, keys) {
        Ok(a) => a,
        Err(_) => vstd::pervasive::unreached(),
    }
}

/// Packs the `i`-th 16-byte chunk of the bytecode into one backend word.
fn pack_chunk(code: &Vec<u8>, i: usize) -> (r: u128)
    requires
        16 * i < code@.len(),
        code@.len() + 15 <= usize::MAX,
    ensures
        r == word_of_chunk(code@, i as int),
{
    let ghost window = chunk_window(code@, i as int);
    let ghost l = window.len() as int;
    let mut acc: u128 = 0;
    let mut j: usize = 0;
    proof {
        lemma_pow256_16();
        assert(window =~= window.take(l));
    }
    while j < 16
        invariant
            0 <= j <= 16,
            l == window.len(),
            1 <= l <= 16,
            window == chunk_window(code@, i as int),
            16 * i < code@.len(),
            code@.len() + 15 <= usize::MAX,
            pow256(16) == crate::word::pow2_128(),
            j <= l ==> acc == be_word(window.take(j as int)),
            j > l ==> acc == be_word(window) * pow256((j - l) as nat),
            0 <= acc < pow256(j as nat),
        decreases 16 - j,
    {
        let byte: u8 = if 16 * i + j < code.len() {
            code[16 * i + j]
        } else {
            0
        };
        proof {
            lemma_pow256_le((j + 1) as nat, 16);
            lemma_be_word_bound(window.take(j as int));
            if j < l {
                assert(window.take(j as int + 1).drop_last() =~= window.take(j as int));
                assert(window.take(j as int + 1).last() == window[j as int]);
                assert(window[j as int] == code@[16 * i + j]);
            } else {
                assert(window.take(l) =~= window);
                assert(16 * i + j >= code@.len());
                let p = pow256((j - l) as nat);
                lemma_be_word_bound(window);
                lemma_pow256_pos((j - l) as nat);
                if j == l {
                    assert(p == 1);
                    assert(acc == be_word(window) * p);
                }
                assert(pow256((j + 1 - l) as nat) == 256 * p);
                assert((be_word(window) * p) * 256 == be_word(window) * (256 * p))
                    by (nonlinear_arith);
            }
        }
        acc = acc * 256 + (byte as u128);
        j = j + 1;
    }
    proof {
        if l == 16 {
            assert(window.take(16) =~= window);
        }
    }
    acc
}

/// The ordered identity writes for one account.
fn base_writes(cfg: &ChainConfig, address: &EvmAddress, code_len: u32) -> (r: Vec<
    (SlotAddress, Felt),
>)
    ensures
        writes_match(r@, spec_base_writes(*cfg, *address, code_len as int)),
{
    proof {
        reveal_strlit("evm_address");
        reveal_strlit("is_initialized_");
        reveal_strlit("Ownable_owner");
        reveal_strlit("bytecode_len_");
        reveal_strlit("system_address");
    }
    let mut ws: Vec<(SlotAddress, Felt)> = Vec::new();
    ws.push((make_slot("evm_address", Vec::new()), Felt::from_address(address)));
    ws.push((make_slot("is_initialized_", Vec::new()), Felt::from_u128(1)));
    ws.push((make_slot("Ownable_owner", Vec::new()), cfg.system_address));
    ws.push((make_slot("bytecode_len_", Vec::new()), Felt::from_u32(code_len)));
    ws.push((make_slot("system_address", Vec::new()), cfg.system_address));
    ws
}

/// The packed bytecode write list.
fn bytecode_writes(code: &Vec<u8>) -> (r: Vec<(SlotAddress, Felt)>)
    requires
        code@.len() <= 0xffff_ffff,
        code@.len() + 15 <= usize::MAX,
    ensures
        writes_match(r@, spec_bytecode_writes(code@)),
{
    proof {
        reveal_strlit("bytecode_");
    }
    let n: usize = (code.len() + 15) / 16;
    let mut ws: Vec<(SlotAddress, Felt)> = Vec::new();
    let mut i: usize = 0;
    while i < n
        invariant
            0 <= i <= n,
            n == chunk_count(code@.len() as int),
            code@.len() <= 0xffff_ffff,
            code@.len() + 15 <= usize::MAX,
            vstd::string::is_ascii("bytecode_"),
            ws@.len() == i,
            forall|k: int|
                0 <= k < i ==> (#[trigger] ws@[k]).0@ == spec_bytecode_writes(code@)[k].0
                    && ws@[k].1 == spec_bytecode_writes(code@)[k].1,
        decreases n - i,
    {
        proof {
            assert(16 * i < code@.len());
        }
        let word = pack_chunk(code, i);
        proof {
            lemma_be_word_bound(chunk_window(code@, i as int));
        }
        let mut keys: Vec<Felt> = Vec::new();
        keys.push(Felt::from_u32(i as u32));
        proof {
            assert(keys@ =~= seq![Felt { lo: i as u128, hi: 0 }]);
        }
        ws.push((make_slot("bytecode_", keys), Felt::from_u128(word)));
        i = i + 1;
    }
    ws
}

/// The split storage entry write list.
fn storage_writes(storage: &Vec<(U256, U256)>) -> (r: Vec<(SlotAddress, Felt)>)
    requires
        2 * storage@.len() <= usize::MAX,
    ensures
        writes_match(r@, spec_storage_writes(storage@)),
{
    proof {
        reveal_strlit("storage_");
    }
    let mut ws: Vec<(SlotAddress, Felt)> = Vec::new();
    let mut i: usize = 0;
    while i < storage.len()
        invariant
            0 <= i <= storage@.len(),
            2 * storage@.len() <= usize::MAX,
            vstd::string::is_ascii("storage_"),
            ws@.len() == 2 * i,
            forall|k: int|
                0 <= k < 2 * i ==> (#[trigger] ws@[k]).0@ == spec_storage_writes(storage@)[k].0
                    && ws@[k].1 == spec_storage_writes(storage@)[k].1,
        decreases storage@.len() - i,
    {
        let (key, value) = storage[i];
        let mut lo_keys: Vec<Felt> = Vec::new();
        lo_keys.push(Felt::from_u128(key.lo));
        proof {
            assert(lo_keys@ =~= seq![Felt { lo: key.lo, hi: 0 }]);
        }
        ws.push((make_slot("storage_", lo_keys), Felt::from_u128(value.lo)));
        let mut hi_keys: Vec<Felt> = Vec::new();
        hi_keys.push(Felt::from_u128(key.hi));
        proof {
            assert(hi_keys@ =~= seq![Felt { lo: key.hi, hi: 0 }]);
        }
        ws.push((make_slot("storage_", hi_keys), Felt::from_u128(value.hi)));
        i = i + 1;
    }
    ws
}

/// Materializes one account: produces every storage write, the native
/// nonce for a plain account, the registration entry, and the proxy class.
///
/// A plain account is one with empty code and no storage entries; any
/// other account is a contract account. Fails exactly when the nonce does
/// not fit the backend's 128-bit native nonce width.
pub fn materialize(
    cfg: &ChainConfig,
    address: &EvmAddress,
    code: &Vec<u8>,
    nonce: U256,
    storage: &Vec<(U256, U256)>,
) -> (r: Result<SetupPlan, SetupError>)
    requires
        code@.len() <= 0xffff_ffff,
        code@.len() + 15 <= usize::MAX,
        2 * storage@.len() <= usize::MAX,
    ensures
        (r is Ok) <==> nonce.hi == 0,
        (r is Err) ==> r == Err::<SetupPlan, SetupError>(SetupError::OutOfRange),
        r matches Ok(p) ==> {
            &&& p.target == spec_handle(*address)
            &&& writes_match(
                p.writes@,
                spec_account_writes(*cfg, *address, code@, nonce, storage@),
            )
            &&& p.registry_write.0@ == slot1("evm_to_native_address"@, spec_handle(*address))
            &&& p.registry_write.1 == spec_handle(*address)
            &&& p.native_nonce == (if code@.len() == 0 && storage@.len() == 0 {
                Some(half_felt(nonce.lo))
            } else {
                None::<Felt>
            })
            &&& p.class_hash == cfg.proxy_class_hash
        },
{
    if nonce.hi != 0 {
        return Err(SetupError::OutOfRange);
    }
    proof {
        reveal_strlit("nonce");
        reveal_strlit("_implementation");
        reveal_strlit("evm_to_native_address");
    }
    let plain = code.len() == 0 && storage.len() == 0;
    let mut ws = base_writes(cfg, address, code.len() as u32);
    let native_nonce: Option<Felt>;
    if plain {
        ws.push((make_slot("_implementation", Vec::new()), cfg.eoa_class_hash));
        native_nonce = Some(Felt::from_u128(nonce.lo));
    } else {
        ws.push((make_slot("nonce", Vec::new()), Felt::from_u128(nonce.lo)));
        ws.push((make_slot("_implementation", Vec::new()), cfg.contract_class_hash));
        native_nonce = None;
    }
    let mut bw = bytecode_writes(code);
    ws.append(&mut bw);
    let mut sw = storage_writes(storage);
    ws.append(&mut sw);
    let handle = Felt::from_address(address);
    let mut reg_keys: Vec<Felt> = Vec::new();
    reg_keys.push(handle);
    proof {
        assert(reg_keys@ =~= seq![spec_handle(*address)]);
    }
    let registry_write = (make_slot("evm_to_native_address", reg_keys), handle);
    Ok(
        SetupPlan {
            target: handle,
            writes: ws,
            registry_write,
            native_nonce,
            class_hash: cfg.proxy_class_hash,
        },
    )
}

/// The funding writes for one account: its two-slot native-token balance,
/// and an unlimited (maximum-representable) allowance from the account to
/// the system fee-sponsor contract.
pub fn fund(cfg: &ChainConfig, address: &EvmAddress, balance: U256) -> (r: FundingPlan)
    ensures
        r.target == spec_handle(*address),
        writes_match(r.writes@, spec_funding_writes(*cfg, *address, balance)),
{
    proof {
        reveal_strlit("ERC20_balances");
        reveal_strlit("ERC20_allowances");
    }
    let handle = Felt::from_address(address);
    let mut ws: Vec<(SlotAddress, Felt)> = Vec::new();
    let mut bal_keys: Vec<Felt> = Vec::new();
    bal_keys.push(cfg.fee_token_address);
    proof {
        assert(bal_keys@ =~= seq![cfg.fee_token_address]);
    }
    let (bal_lo, bal_hi) = match uint256_addresses_of("ERC20_balances", bal_keys) {
        Ok(p) => p,
        Err(_) => vstd::pervasive::unreached(),
    };
    let (lo, hi) = balance.split_u256();
    ws.push((bal_lo, Felt::from_u128(lo)));
    ws.push((bal_hi, Felt::from_u128(hi)));
    let mut allow_keys: Vec<Felt> = Vec::new();
    allow_keys.push(cfg.fee_token_address);
    allow_keys.push(handle);
    proof {
        assert(allow_keys@ =~= seq![cfg.fee_token_address, spec_handle(*address)]);
    }
    let (allow_lo, allow_hi) = match uint256_addresses_of("ERC20_allowances", allow_keys) {
        Ok(p) => p,
        Err(_) => vstd::pervasive::unreached(),
    };
    ws.push((allow_lo, Felt::from_u128(u128::MAX)));
    ws.push((allow_hi, Felt::from_u128(u128::MAX)));
    FundingPlan { target: handle, writes: ws }
}

/// The two balance slots for the account, then its two allowance slots,
/// all granted to the fee token and sponsor.
pub open spec fn spec_funding_writes(cfg: ChainConfig, addr: EvmAddress, balance: U256) -> Seq<
    (SlotView, Felt),
> {
    seq![
        (
            SlotView { name: "ERC20_balances"@, keys: seq![cfg.fee_token_address], offset: 0 },
            half_felt(balance.lo),
        ),
        (
            SlotView { name: "ERC20_balances"@, keys: seq![cfg.fee_token_address], offset: 1 },
            half_felt(balance.hi),
        ),
        (
            SlotView {
                name: "ERC20_allowances"@,
                keys: seq![cfg.fee_token_address, spec_handle(addr)],
                offset: 0,
            },
            half_felt(u128::MAX),
        ),
        (
            SlotView {
                name: "ERC20_allowances"@,
                keys: seq![cfg.fee_token_address, spec_handle(addr)],
                offset: 1,
            },
            half_felt(u128::MAX),
        ),
    ]
}

} // verus!
