//! The abstract EVM account model: addresses, per-account state, and the
//! address-keyed state mappings that fixtures declare.

use vstd::prelude::*;

use crate::word::{pow2_128, U256};

verus! {

/// A 20-byte account identifier, held as a 32-bit high part and a 128-bit
/// low part: the identifier's value is `hi * 2^128 + lo`.
#[derive(Clone, Copy, PartialEq, Eq, Structural, Debug)]
pub struct EvmAddress {
    pub hi: u32,
    pub lo: u128,
}

impl EvmAddress {
    /// The 160-bit value of the address.
    pub open spec fn val(self) -> int {
        self.lo + (self.hi as int) * pow2_128()
    }

    pub fn new(hi: u32, lo: u128) -> (r: EvmAddress)
        ensures
            r.hi == hi,
            r.lo == lo,
    {
        EvmAddress { hi, lo }
    }

    /// Equality of addresses is byte-exact, hence value-exact.
    pub proof fn lemma_val_injective(a: EvmAddress, b: EvmAddress)
        ensures
            (a.val() == b.val()) <==> (a == b),
    {
    }

    pub fn eq_addr(&self, other: &EvmAddress) -> (r: bool)
        ensures
            r == (*self == *other),
    {
        self.hi == other.hi && self.lo == other.lo
    }
}

/// One account's EVM-visible state: nonce, balance, code and storage.
/// The storage mapping has no implicit default: a key that is absent holds
/// the zero word.
#[derive(Clone, Debug)]
pub struct AccountState {
    pub nonce: U256,
    pub balance: U256,
    pub code: Vec<u8>,
    pub storage: Vec<(U256, U256)>,
}

impl AccountState {
    /// Storage keys are unique.
    pub open spec fn wf(self) -> bool {
        forall|i: int, j: int|
            0 <= i < j < self.storage@.len() ==> (#[trigger] self.storage@[i]).0 != (
            #[trigger] self.storage@[j]).0
    }

    /// The word held at `key`, the zero word when the key is absent.
    pub open spec fn storage_word(self, key: U256) -> int {
        if assoc_has(self.storage@, key) {
            assoc_at(self.storage@, key).val()
        } else {
            0
        }
    }

    /// The all-default account: nonce 0, balance 0, empty code, empty
    /// storage.
    pub fn empty() -> (r: AccountState)
        ensures
            r.nonce.val() == 0,
            r.balance.val() == 0,
            r.code@ =~= Seq::<u8>::empty(),
            r.storage@ =~= Seq::<(U256, U256)>::empty(),
            r.wf(),
    {
        AccountState { nonce: U256::zero(), balance: U256::zero(), code: Vec::new(), storage: Vec::new() }
    }

    /// Looks a storage key up, returning the zero word when it is absent.
    pub fn storage_at(&self, key: U256) -> (r: U256)
        ensures
            r.val() == self.storage_word(key),
    {
        let mut i: usize = 0;
        while i < self.storage.len()
            invariant
                0 <= i <= self.storage@.len(),
                !assoc_has(self.storage@.take(i as int), key),
            decreases self.storage@.len() - i,
        {
            let (k, v) = self.storage[i];
            if k.eq_word(&key) {
                proof {
                    lemma_assoc_prefix(self.storage@, key, i as int);
                }
                return v;
            }
            proof {
                assert(self.storage@.take(i as int + 1).drop_last() =~= self.storage@.take(
                    i as int,
                ));
            }
            i = i + 1;
        }
        proof {
            assert(self.storage@.take(self.storage@.len() as int) =~= self.storage@);
        }
        U256::zero()
    }
}

impl U256 {
    pub fn eq_word(&self, other: &U256) -> (r: bool)
        ensures
            r == (*self == *other),
    {
        self.lo == other.lo && self.hi == other.hi
    }
}

/// Whether an association sequence holds the key.
pub open spec fn assoc_has<K, V>(s: Seq<(K, V)>, key: K) -> bool {
    exists|i: int| 0 <= i < s.len() && (#[trigger] s[i]).0 == key
}

/// The value of the first entry with the key.
pub open spec fn assoc_at<K, V>(s: Seq<(K, V)>, key: K) -> V
    decreases s.len(),
{
    if s.len() == 0 {
        arbitrary()
    } else if s[0].0 == key {
        s[0].1
    } else {
        assoc_at(s.drop_first(), key)
    }
}

/// If the key first occurs at position `i`, the lookup returns that entry's
/// value.
pub proof fn lemma_assoc_prefix<K, V>(s: Seq<(K, V)>, key: K, i: int)
    requires
        0 <= i < s.len(),
        s[i].0 == key,
        !assoc_has(s.take(i), key),
    ensures
        assoc_has(s, key),
        assoc_at(s, key) == s[i].1,
    decreases i,
{
    if i == 0 {
    } else {
        let st = s.take(i);
        assert(st[0] == s[0]);
        assert(st[0].0 != key);
        assert forall|j: int| 0 <= j < st.drop_first().len() implies (#[trigger] st.drop_first()[j]).0
            != key by {
            assert(st.drop_first()[j] == st[j + 1]);
        }
        assert(!assoc_has(st.drop_first(), key));
        assert(st.drop_first() =~= s.drop_first().take(i - 1));
        lemma_assoc_prefix(s.drop_first(), key, i - 1);
        assert(s.drop_first()[i - 1] == s[i]);
    }
}

/// A mapping from address to account state, held in declaration order.
pub type StateMap = Vec<(EvmAddress, AccountState)>;

/// Finds the account an address maps to, if any.
pub fn find_account<'a>(s: &'a StateMap, addr: &EvmAddress) -> (r: Option<&'a AccountState>)
    ensures
        r is Some <==> assoc_has(s@, *addr),
        r matches Some(a) ==> *a == assoc_at(s@, *addr),
{
    let mut i: usize = 0;
    while i < s.len()
        invariant
            0 <= i <= s@.len(),
            !assoc_has(s@.take(i as int), *addr),
        decreases s@.len() - i,
    {
        let entry = &s[i];
        if entry.0.eq_addr(addr) {
            proof {
                lemma_assoc_prefix(s@, *addr, i as int);
            }
            return Some(&entry.1);
        }
        proof {
            assert(s@.take(i as int + 1).drop_last() =~= s@.take(i as int));
        }
        i = i + 1;
    }
    proof {
        assert(s@.take(s@.len() as int) =~= s@);
    }
    None
}

/// Copies a byte vector.
pub(crate) fn copy_bytes(v: &Vec<u8>) -> (r: Vec<u8>)
    ensures
        r@ == v@,
{
    let mut out: Vec<u8> = Vec::new();
    let mut i: usize = 0;
    while i < v.len()
        invariant
            0 <= i <= v@.len(),
            out@ == v@.take(i as int),
        decreases v@.len() - i,
    {
        out.push(v[i]);
        proof {
            assert(v@.take(i as int + 1).drop_last() =~= v@.take(i as int));
            assert(out@ =~= v@.take(i as int + 1));
        }
        i = i + 1;
    }
    proof {
        assert(v@.take(v@.len() as int) =~= v@);
    }
    out
}

} // verus!
