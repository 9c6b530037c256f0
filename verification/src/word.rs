//! 256-bit EVM words, stored as two 128-bit halves.
//!
//! The backend's native word is narrower than the EVM's 256-bit word, so a
//! word is split into a low and a high half for storage and re-assembled on
//! read-back. All arithmetic used by the fee rules lives here, with checked
//! variants for callers that must detect overflow.

use vstd::prelude::*;

verus! {

/// 2^64, used to split a 128-bit limb for wide multiplication.
pub const POW2_64: u128 = 0x1_0000_0000_0000_0000;

/// 2^128 as a spec-level integer.
pub open spec fn pow2_128() -> int {
    340282366920938463463374607431768211456int
}

/// 2^256 as a spec-level integer.
pub open spec fn pow2_256() -> int {
    115792089237316195423570985008687907853269984665640564039457584007913129639936int
}

/// Relates the power-of-two constants to each other.
proof fn lemma_pow_facts()
    ensures
        pow2_128() == (POW2_64 as int) * (POW2_64 as int),
        pow2_256() == pow2_128() * pow2_128(),
{
    assert(pow2_128() == (POW2_64 as int) * (POW2_64 as int)) by (nonlinear_arith);
    assert(pow2_256() == pow2_128() * pow2_128()) by (nonlinear_arith);
}

/// An unsigned 256-bit word: `val() == lo + hi * 2^128`.
#[derive(Clone, Copy, PartialEq, Eq, Structural, Debug)]
pub struct U256 {
    pub lo: u128,
    pub hi: u128,
}

impl U256 {
    /// The mathematical value of the word.
    pub open spec fn val(self) -> int {
        self.lo + self.hi * pow2_128()
    }

    /// Two words with the same value are the same word.
    pub proof fn lemma_val_injective(a: U256, b: U256)
        ensures
            (a.val() == b.val()) <==> (a == b),
    {
    }

    pub fn new(lo: u128, hi: u128) -> (r: U256)
        ensures
            r.lo == lo,
            r.hi == hi,
    {
        U256 { lo, hi }
    }

    pub fn zero() -> (r: U256)
        ensures
            r.val() == 0,
    {
        U256 { lo: 0, hi: 0 }
    }

    pub fn from_u128(x: u128) -> (r: U256)
        ensures
            r.val() == x,
            r.lo == x,
            r.hi == 0,
    {
        U256 { lo: x, hi: 0 }
    }

    pub fn from_u64(x: u64) -> (r: U256)
        ensures
            r.val() == x,
    {
        U256 { lo: x as u128, hi: 0 }
    }

    pub fn is_zero(&self) -> (r: bool)
        ensures
            r == (self.val() == 0),
    {
        self.lo == 0 && self.hi == 0
    }

    pub fn le(&self, other: &U256) -> (r: bool)
        ensures
            r == (self.val() <= other.val()),
    {
        if self.hi < other.hi {
            true
        } else if self.hi == other.hi {
            self.lo <= other.lo
        } else {
            false
        }
    }

    /// The smaller of the two words.
    pub fn min_word(a: U256, b: U256) -> (r: U256)
        ensures
            r.val() == if a.val() <= b.val() { a.val() } else { b.val() },
    {
        if a.le(&b) {
            a
        } else {
            b
        }
    }

    /// Limb-wise bitwise or, as used to select between two fee fields of
    /// which at most one is nonzero.
    pub fn bit_or(a: U256, b: U256) -> (r: U256)
        ensures
            r.lo == (a.lo | b.lo),
            r.hi == (a.hi | b.hi),
            a.val() == 0 ==> r == b,
            b.val() == 0 ==> r == a,
    {
        let r = U256 { lo: a.lo | b.lo, hi: a.hi | b.hi };
        proof {
            let al = a.lo;
            let ah = a.hi;
            let bl = b.lo;
            let bh = b.hi;
            assert(al == 0 ==> (al | bl) == bl) by (bit_vector);
            assert(ah == 0 ==> (ah | bh) == bh) by (bit_vector);
            assert(bl == 0 ==> (al | bl) == al) by (bit_vector);
            assert(bh == 0 ==> (ah | bh) == ah) by (bit_vector);
        }
        r
    }

    /// Sum, if it fits in 256 bits.
    pub fn checked_add(&self, other: &U256) -> (r: Option<U256>)
        ensures
            r is Some <==> self.val() + other.val() < pow2_256(),
            r matches Some(s) ==> s.val() == self.val() + other.val(),
    {
        let (lo, carry) = carry_add(self.lo, other.lo);
        let c: u128 = if carry { 1 } else { 0 };
        if self.hi <= u128::MAX - c && self.hi + c <= u128::MAX - other.hi {
            Some(U256 { lo, hi: self.hi + c + other.hi })
        } else {
            None
        }
    }

    /// Difference, if it does not underflow.
    pub fn checked_sub(&self, other: &U256) -> (r: Option<U256>)
        ensures
            r is Some <==> other.val() <= self.val(),
            r matches Some(s) ==> s.val() == self.val() - other.val(),
    {
        if other.le(self) {
            let (lo, borrow) = borrow_sub(self.lo, other.lo);
            let b: u128 = if borrow { 1 } else { 0 };
            Some(U256 { lo, hi: self.hi - other.hi - b })
        } else {
            None
        }
    }

    /// Product, if it fits in 256 bits.
    pub fn checked_mul(&self, other: &U256) -> (r: Option<U256>)
        ensures
            r is Some <==> self.val() * other.val() < pow2_256(),
            r matches Some(p) ==> p.val() == self.val() * other.val(),
    {
        let (x, y): (U256, u128) = if self.hi == 0 {
            (*other, self.lo)
        } else if other.hi == 0 {
            (*self, other.lo)
        } else {
            proof {
                lemma_pow_facts();
                assert(self.val() * other.val() >= pow2_256()) by (nonlinear_arith)
                    requires
                        self.val() >= pow2_128(),
                        other.val() >= pow2_128(),
                        pow2_256() == pow2_128() * pow2_128(),
                ;
            }
            return None;
        };
        proof {
            assert(self.val() * other.val() == x.val() * y) by (nonlinear_arith)
                requires
                    (self.val() == x.val() && other.val() == y) || (self.val() == y
                        && other.val() == x.val()),
            ;
        }
        let (l0, l1) = mul_wide(x.lo, y);
        let (h0, h1) = mul_wide(x.hi, y);
        proof {
            lemma_pow_facts();
            assert(x.val() * y == x.lo * y + (x.hi * y) * pow2_128()) by (nonlinear_arith)
                requires
                    x.val() == x.lo + x.hi * pow2_128(),
            ;
            assert(x.lo * y == l0 + l1 * pow2_128());
            assert(x.hi * y == h0 + h1 * pow2_128());
            assert((h0 + h1 * pow2_128()) * pow2_128() == h0 * pow2_128() + h1 * pow2_256())
                by (nonlinear_arith)
                requires
                    pow2_256() == pow2_128() * pow2_128(),
            ;
            assert(x.val() * y == l0 + (l1 + h0) * pow2_128() + h1 * pow2_256());
        }
        if h1 != 0 {
            None
        } else if l1 > u128::MAX - h0 {
            None
        } else {
            Some(U256 { lo: l0, hi: l1 + h0 })
        }
    }

    /// The low and high 128-bit halves, in that order. This is the splitting
    /// used for every two-slot value the backend stores.
    pub fn split_u256(&self) -> (r: (u128, u128))
        ensures
            r.0 == self.val() % pow2_128(),
            r.1 == self.val() / pow2_128(),
            r.0 == self.lo,
            r.1 == self.hi,
    {
        (self.lo, self.hi)
    }

    /// Re-assemble a word from its low and high halves, as the storage
    /// reader does with the two slots it fetched.
    pub fn from_halves(lo: u128, hi: u128) -> (r: U256)
        ensures
            r.val() == lo + hi * pow2_128(),
            r.lo == lo,
            r.hi == hi,
    {
        U256 { lo, hi }
    }
}

/// Splitting a word and re-assembling the halves recovers the word exactly,
/// for every value including zero and the maximum representable word.
pub proof fn lemma_split_join_roundtrip(v: U256)
    ensures
        (U256 { lo: (v.val() % pow2_128()) as u128, hi: (v.val() / pow2_128()) as u128 }) == v,
{
}

/// 128-bit addition with explicit carry: `r.0 + (r.1 ? 2^128 : 0) == a + b`.
fn carry_add(a: u128, b: u128) -> (r: (u128, bool))
    ensures
        r.0 + (if r.1 { pow2_128() } else { 0 }) == a + b,
{
    if a <= u128::MAX - b {
        (a + b, false)
    } else {
        (a - (u128::MAX - b) - 1, true)
    }
}

/// 128-bit subtraction with explicit borrow: `r.0 - (r.1 ? 2^128 : 0) == a - b`.
fn borrow_sub(a: u128, b: u128) -> (r: (u128, bool))
    ensures
        r.0 - (if r.1 { pow2_128() } else { 0 }) == a - b,
{
    if a >= b {
        (a - b, false)
    } else {
        (a + 1 + (u128::MAX - b), true)
    }
}

/// Full 128x128 -> 256 bit multiplication: `r.0 + r.1 * 2^128 == x * y`.
fn mul_wide(x: u128, y: u128) -> (r: (u128, u128))
    ensures
        r.0 + r.1 * pow2_128() == x * y,
{
    let x0 = x % POW2_64;
    let x1 = x / POW2_64;
    let y0 = y % POW2_64;
    let y1 = y / POW2_64;
    proof {
        lemma_pow_facts();
        assert(x0 * y0 < pow2_128() && x0 * y1 < pow2_128() && x1 * y0 < pow2_128() && x1 * y1
            < pow2_128()) by (nonlinear_arith)
            requires
                x0 < POW2_64,
                x1 < POW2_64,
                y0 < POW2_64,
                y1 < POW2_64,
                pow2_128() == POW2_64 * POW2_64,
        ;
    }
    let ll = x0 * y0;
    let lh = x0 * y1;
    let hl = x1 * y0;
    let hh = x1 * y1;
    proof {
        lemma_pow_facts();
        assert(x * y == ll + (lh + hl) * POW2_64 + hh * pow2_128()) by (nonlinear_arith)
            requires
                x == x0 + x1 * POW2_64,
                y == y0 + y1 * POW2_64,
                ll == x0 * y0,
                lh == x0 * y1,
                hl == x1 * y0,
                hh == x1 * y1,
                pow2_128() == POW2_64 * POW2_64,
        ;
    }
    let (mid, midc) = carry_add(lh, hl);
    let mid0 = mid % POW2_64;
    let mid1 = mid / POW2_64;
    let shifted = mid0 * POW2_64;
    let (lo, c2) = carry_add(ll, shifted);
    let ghost hi_val: int = hh + mid1 + (if midc { POW2_64 as int } else { 0 }) + (if c2 {
        1int
    } else {
        0int
    });
    proof {
        lemma_pow_facts();
        // mid * 2^64 expands over mid's own halves; the mid-level carry
        // contributes 2^192 == 2^64 * 2^128.
        assert((lh + hl) * POW2_64 == shifted + mid1 * pow2_128() + (if midc {
            POW2_64 * pow2_128()
        } else {
            0int
        })) by (nonlinear_arith)
            requires
                lh + hl == mid + (if midc { pow2_128() } else { 0int }),
                mid == mid0 + mid1 * POW2_64,
                shifted == mid0 * POW2_64,
                pow2_128() == POW2_64 * POW2_64,
        ;
        assert(x * y == lo + hi_val * pow2_128());
        assert(x * y <= (pow2_128() - 1) * (pow2_128() - 1)) by (nonlinear_arith)
            requires
                0 <= x < pow2_128(),
                0 <= y < pow2_128(),
        ;
        assert(hi_val * pow2_128() <= x * y);
        assert(hi_val < pow2_128()) by (nonlinear_arith)
            requires
                hi_val * pow2_128() <= (pow2_128() - 1) * (pow2_128() - 1),
        ;
    }
    let m: u128 = if midc {
        POW2_64
    } else {
        0
    };
    let c: u128 = if c2 {
        1
    } else {
        0
    };
    (lo, hh + mid1 + m + c)
}

} // verus!
