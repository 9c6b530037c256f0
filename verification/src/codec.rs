//! The storage address codec: maps a named storage variable of an account
//! (optionally keyed by backend-native words) to the slot address the
//! backend stores it under.
//!
//! A slot address is the structured pair of the variable name and its key
//! tuple, plus a word offset for variables that span two consecutive slots.
//! The mapping is deterministic and injective by construction; it is total
//! over ASCII variable names and rejects any other name, since the
//! backend's addressing scheme only admits ASCII.

use vstd::prelude::*;

use crate::word::pow2_128;

verus! {

/// A backend-native field value, wide enough for every word the harness
/// writes: half-words, byte counts, and packed 160-bit addresses.
#[derive(Clone, Copy, PartialEq, Eq, Structural, Debug)]
pub struct Felt {
    pub lo: u128,
    pub hi: u128,
}

impl Felt {
    /// The mathematical value of the field element.
    pub open spec fn val(self) -> int {
        self.lo + self.hi * pow2_128()
    }

    pub fn zero() -> (r: Felt)
        ensures
            r.val() == 0,
            r.lo == 0,
            r.hi == 0,
    {
        Felt { lo: 0, hi: 0 }
    }

    pub fn from_u128(x: u128) -> (r: Felt)
        ensures
            r.val() == x,
            r.lo == x,
            r.hi == 0,
    {
        Felt { lo: x, hi: 0 }
    }

    pub fn from_u32(x: u32) -> (r: Felt)
        ensures
            r.val() == x,
            r.lo == x,
            r.hi == 0,
    {
        Felt { lo: x as u128, hi: 0 }
    }

    /// The packed value of an EVM address, used as the account's handle in
    /// registry and allowance keys.
    pub fn from_address(a: &crate::state::EvmAddress) -> (r: Felt)
        ensures
            r.val() == a.val(),
            r.lo == a.lo,
            r.hi == a.hi,
    {
        Felt { lo: a.lo, hi: a.hi as u128 }
    }

    pub proof fn lemma_val_injective(a: Felt, b: Felt)
        ensures
            (a.val() == b.val()) <==> (a == b),
    {
    }

    pub fn eq_felt(&self, other: &Felt) -> (r: bool)
        ensures
            r == (*self == *other),
    {
        self.lo == other.lo && self.hi == other.hi
    }
}

/// Failure of the storage address codec.
#[derive(Clone, Copy, PartialEq, Eq, Structural, Debug)]
pub enum CodecError {
    /// The variable name holds a non-ASCII character.
    InvalidVariableName,
}

/// The mathematical content of a slot address.
#[verifier::ext_equal]
pub ghost struct SlotView {
    pub name: Seq<char>,
    pub keys: Seq<Felt>,
    pub offset: int,
}

/// The backend-native location of one storage word, derived from the
/// variable name and key tuple it belongs to.
#[derive(Clone, Debug)]
pub struct SlotAddress {
    pub name: String,
    pub keys: Vec<Felt>,
    pub offset: u64,
}

impl View for SlotAddress {
    type V = SlotView;

    open spec fn view(&self) -> SlotView {
        SlotView { name: self.name@, keys: self.keys@, offset: self.offset as int }
    }
}

impl SlotAddress {
    /// A copy of the slot address.
    pub fn duplicate(&self) -> (r: SlotAddress)
        ensures
            r@ == self@,
    {
        let mut keys: Vec<Felt> = Vec::new();
        let mut i: usize = 0;
        while i < self.keys.len()
            invariant
                0 <= i <= self.keys@.len(),
                keys@ == self.keys@.take(i as int),
            decreases self.keys@.len() - i,
        {
            keys.push(self.keys[i]);
            proof {
                assert(keys@ =~= self.keys@.take(i as int + 1));
            }
            i = i + 1;
        }
        proof {
            assert(self.keys@.take(self.keys@.len() as int) =~= self.keys@);
        }
        let r = SlotAddress { name: self.name.clone(), keys, offset: self.offset };
        proof {
            assert(r@ =~= self@);
        }
        r
    }

    /// Structural equality of slot addresses.
    pub fn eq_slot(&self, other: &SlotAddress) -> (r: bool)
        ensures
            r == (self@ == other@),
    {
        if self.offset != other.offset {
            return false;
        }
        if !(self.name == other.name) {
            return false;
        }
        if self.keys.len() != other.keys.len() {
            return false;
        }
        let mut i: usize = 0;
        while i < self.keys.len()
            invariant
                0 <= i <= self.keys@.len(),
                self.keys@.len() == other.keys@.len(),
                forall|j: int| 0 <= j < i ==> self.keys@[j] == other.keys@[j],
            decreases self.keys@.len() - i,
        {
            if !self.keys[i].eq_felt(&other.keys[i]) {
                return false;
            }
            i = i + 1;
        }
        proof {
            assert(self.keys@ =~= other.keys@);
            assert(self@ =~= other@);
        }
        true
    }
}

/// The slot address of the storage variable `name` keyed by `keys`.
///
/// Deterministic and total over ASCII names; a name with a non-ASCII
/// character is rejected. The returned address carries exactly the given
/// name and keys at word offset zero, so distinct `(name, keys)` pairs give
/// distinct addresses.
pub fn address_of(name: &str, keys: Vec<Felt>) -> (r: Result<SlotAddress, CodecError>)
    ensures
        (r is Ok) <==> vstd::string::is_ascii(name),
        r matches Ok(a) ==> a@ == (SlotView { name: name@, keys: keys@, offset: 0 }),
        (r is Err) ==> r == Err::<SlotAddress, CodecError>(CodecError::InvalidVariableName),
{
    if !name.is_ascii() {
        return Err(CodecError::InvalidVariableName);
    }
    Ok(SlotAddress { name: String::from_str(name), keys, offset: 0 })
}

/// The pair of consecutive slot addresses a two-slot (256-bit) storage
/// variable occupies: the low word at offset zero, the high word at offset
/// one.
pub fn uint256_addresses_of(name: &str, keys: Vec<Felt>) -> (r: Result<
    (SlotAddress, SlotAddress),
    CodecError,
>)
    ensures
        (r is Ok) <==> vstd::string::is_ascii(name),
        r matches Ok(p) ==> p.0@ == (SlotView { name: name@, keys: keys@, offset: 0 })
            && p.1@ == (SlotView { name: name@, keys: keys@, offset: 1 }),
        (r is Err) ==> r == Err::<(SlotAddress, SlotAddress), CodecError>(
            CodecError::InvalidVariableName,
        ),
{
    if !name.is_ascii() {
        return Err(CodecError::InvalidVariableName);
    }
    let low = SlotAddress { name: String::from_str(name), keys: keys.clone(), offset: 0 };
    let high = SlotAddress { name: String::from_str(name), keys, offset: 1 };
    Ok((low, high))
}

/// The codec never aliases: two slot addresses are equal exactly when they
/// were derived from the same variable name, the same key tuple and the
/// same word offset. Together with the codec being a function of its
/// arguments, this makes the `(name, keys)`-to-address mapping injective.
pub proof fn lemma_slot_address_injective(a: SlotView, b: SlotView)
    ensures
        (a == b) <==> (a.name == b.name && a.keys == b.keys && a.offset == b.offset),
{
    if a.name == b.name && a.keys == b.keys && a.offset == b.offset {
        assert(a =~= b);
    }
}

} // verus!
