//! The harness error taxonomy.
//!
//! Infrastructure failures (a malformed fixture transaction, a backend
//! refusal, an ambiguous fee specification) abort a case early; a
//! `StateMismatch` is the normal "test failed" outcome and aggregates every
//! field-level difference found, never just the first.

use vstd::prelude::*;

use crate::state::EvmAddress;
use crate::word::U256;

verus! {

/// One field-level difference between expected and actual post-state.
#[derive(Clone, Debug)]
pub enum DiffEntry {
    /// A storage word differs at `key`.
    Storage { address: EvmAddress, key: U256, expected: U256, actual: U256 },
    /// The account nonce differs.
    Nonce { address: EvmAddress, expected: U256, actual: U256 },
    /// The account bytecode differs.
    Code { address: EvmAddress, expected: Vec<u8>, actual: Vec<u8> },
    /// The fee-adjusted balance differs.
    Balance { address: EvmAddress, expected: U256, actual: U256 },
}

/// A list of human-readable report lines.
#[derive(Debug)]
pub struct Messages(pub Vec<String>);

impl Messages {
    /// The lines' character sequences.
    pub open spec fn texts(self) -> Seq<Seq<char>> {
        self.0@.map_values(|s: String| s@)
    }

    /// The full report text: a line break, the lines joined by line
    /// breaks in insertion order, and a final line break.
    pub fn joined(&self) -> (r: String)
        ensures
            r@ == spec_joined(self.texts()),
    {
        let mut out = String::from_str("\n");
        if self.0.len() == 0 {
            out.append("\n");
            proof {
                assert(out@ =~= spec_joined(self.texts()));
            }
            return out;
        }
        let mut i: usize = 0;
        while i < self.0.len()
            invariant
                0 <= i <= self.0@.len(),
                out@ == "\n"@ + spec_joined_body(self.texts().take(i as int)),
            decreases self.0@.len() - i,
        {
            out.append(self.0[i].as_str());
            out.append("\n");
            proof {
                assert(self.texts().take(i as int + 1).drop_last() =~= self.texts().take(i as int));
                assert(self.texts().take(i as int + 1).last() == self.0@[i as int]@);
            }
            i = i + 1;
        }
        proof {
            assert(self.texts().take(self.texts().len() as int) =~= self.texts());
        }
        out
    }
}

/// The lines in order, each followed by a line break.
pub open spec fn spec_joined_body(ts: Seq<Seq<char>>) -> Seq<char>
    decreases ts.len(),
{
    if ts.len() == 0 {
        Seq::empty()
    } else {
        spec_joined_body(ts.drop_last()) + ts.last() + "\n"@
    }
}

/// The full report: a line break, then every line followed by one; two
/// line breaks when there are no lines.
pub open spec fn spec_joined(ts: Seq<Seq<char>>) -> Seq<char> {
    if ts.len() == 0 {
        "\n"@ + "\n"@
    } else {
        "\n"@ + spec_joined_body(ts)
    }
}

impl From<Vec<String>> for Messages {
    fn from(messages: Vec<String>) -> (r: Messages) {
        Messages(messages)
    }
}

impl vstd::std_specs::convert::FromSpecImpl<Vec<String>> for Messages {
    open spec fn obeys_from_spec() -> bool {
        true
    }

    open spec fn from_spec(messages: Vec<String>) -> Messages {
        Messages(messages)
    }
}

/// Why a test case could not be verified, or how it failed.
#[derive(Debug)]
pub enum RunnerError {
    /// The fixture's transaction encoding is malformed; the case is
    /// unusable and no partial verification is attempted.
    DecodeError(Messages),
    /// The backend rejected a setup or read operation, for example an
    /// unresolvable account or an out-of-range numeric conversion.
    SequencerError(Messages),
    /// The fixture sets both the legacy gas price and the newer fee fields;
    /// exactly one of the two is allowed.
    AmbiguousFeeSpecification,
    /// The fixture declares its expected post-state as a bare state-root
    /// hash, which this harness has no way to verify against.
    UnsupportedPostStateForm,
    /// The post-state comparison found differences: the accumulated,
    /// complete list of them.
    StateMismatch(Vec<DiffEntry>),
    /// Any other failure, with its report lines.
    Other(Messages),
}

impl DiffEntry {
    /// The difference as one report line: the compared field, the
    /// account, and the expected and actual values.
    pub fn render(&self) -> (r: String)
        ensures
            r@ == spec_line(*self),
    {
        match self {
            DiffEntry::Storage { address, key, expected, actual } => {
                let mut out = String::from_str("storage mismatch for 0x");
                out.append(hex_address(address).as_str());
                out.append(" at 0x");
                out.append(hex_word(key, 64).as_str());
                out.append(": expected 0x");
                out.append(hex_word(expected, 64).as_str());
                out.append(", got 0x");
                out.append(hex_word(actual, 64).as_str());
                proof {
                    assert(out@ =~= spec_line(*self));
                }
                out
            },
            DiffEntry::Nonce { address, expected, actual } => {
                let mut out = String::from_str("nonce mismatch for 0x");
                out.append(hex_address(address).as_str());
                out.append(": expected 0x");
                out.append(hex_word(expected, 64).as_str());
                out.append(", got 0x");
                out.append(hex_word(actual, 64).as_str());
                proof {
                    assert(out@ =~= spec_line(*self));
                }
                out
            },
            DiffEntry::Code { address, expected, actual } => {
                let mut out = String::from_str("code mismatch for 0x");
                out.append(hex_address(address).as_str());
                out.append(": expected 0x");
                out.append(hex_bytes(expected).as_str());
                out.append(", got 0x");
                out.append(hex_bytes(actual).as_str());
                proof {
                    assert(out@ =~= spec_line(*self));
                }
                out
            },
            DiffEntry::Balance { address, expected, actual } => {
                let mut out = String::from_str("balance mismatch for 0x");
                out.append(hex_address(address).as_str());
                out.append(": expected 0x");
                out.append(hex_word(expected, 64).as_str());
                out.append(", got 0x");
                out.append(hex_word(actual, 64).as_str());
                proof {
                    assert(out@ =~= spec_line(*self));
                }
                out
            },
        }
    }
}

/// The lowercase digit of one hex nibble.
pub open spec fn hex_digit(d: int) -> char {
    if d == 0 {
        '0'
    } else if d == 1 {
        '1'
    } else if d == 2 {
        '2'
    } else if d == 3 {
        '3'
    } else if d == 4 {
        '4'
    } else if d == 5 {
        '5'
    } else if d == 6 {
        '6'
    } else if d == 7 {
        '7'
    } else if d == 8 {
        '8'
    } else if d == 9 {
        '9'
    } else if d == 10 {
        'a'
    } else if d == 11 {
        'b'
    } else if d == 12 {
        'c'
    } else if d == 13 {
        'd'
    } else if d == 14 {
        'e'
    } else {
        'f'
    }
}

/// `width` lowercase hex digits of `v`, most significant first.
pub open spec fn spec_hex(v: int, width: nat) -> Seq<char>
    decreases width,
{
    if width == 0 {
        Seq::empty()
    } else {
        spec_hex(v / 16, (width - 1) as nat).push(hex_digit(v % 16))
    }
}

/// The hex digits of a byte string, two per byte.
pub open spec fn spec_hex_bytes(s: Seq<u8>) -> Seq<char>
    decreases s.len(),
{
    if s.len() == 0 {
        Seq::empty()
    } else {
        spec_hex_bytes(s.drop_last()) + spec_hex(s.last() as int, 2)
    }
}

/// One report line per difference: the field, the account, the expected
/// and the actual value, all in fixed-width hex.
pub open spec fn spec_line(e: DiffEntry) -> Seq<char> {
    match e {
        DiffEntry::Storage { address, key, expected, actual } => "storage mismatch for 0x"@
            + spec_hex(address.val(), 40) + " at 0x"@ + spec_hex(key.val(), 64)
            + ": expected 0x"@ + spec_hex(expected.val(), 64) + ", got 0x"@ + spec_hex(
            actual.val(),
            64,
        ),
        DiffEntry::Nonce { address, expected, actual } => "nonce mismatch for 0x"@ + spec_hex(
            address.val(),
            40,
        ) + ": expected 0x"@ + spec_hex(expected.val(), 64) + ", got 0x"@ + spec_hex(
            actual.val(),
            64,
        ),
        DiffEntry::Code { address, expected, actual } => "code mismatch for 0x"@ + spec_hex(
            address.val(),
            40,
        ) + ": expected 0x"@ + spec_hex_bytes(expected@) + ", got 0x"@ + spec_hex_bytes(actual@),
        DiffEntry::Balance { address, expected, actual } => "balance mismatch for 0x"@ + spec_hex(
            address.val(),
            40,
        ) + ": expected 0x"@ + spec_hex(expected.val(), 64) + ", got 0x"@ + spec_hex(
            actual.val(),
            64,
        ),
    }
}

/// One hex digit as text.
fn hex_digit_str(d: u8) -> (r: &'static str)
    requires
        d < 16,
    ensures
        r@ == seq![hex_digit(d as int)],
{
    proof {
        reveal_strlit("0");
        reveal_strlit("1");
        reveal_strlit("2");
        reveal_strlit("3");
        reveal_strlit("4");
        reveal_strlit("5");
        reveal_strlit("6");
        reveal_strlit("7");
        reveal_strlit("8");
        reveal_strlit("9");
        reveal_strlit("a");
        reveal_strlit("b");
        reveal_strlit("c");
        reveal_strlit("d");
        reveal_strlit("e");
        reveal_strlit("f");
    }
    let r: &'static str = match d {
        0 => "0",
        1 => "1",
        2 => "2",
        3 => "3",
        4 => "4",
        5 => "5",
        6 => "6",
        7 => "7",
        8 => "8",
        9 => "9",
        10 => "a",
        11 => "b",
        12 => "c",
        13 => "d",
        14 => "e",
        _ => "f",
    };
    proof {
        assert(r@ =~= seq![hex_digit(d as int)]);
    }
    r
}

/// The word shifted right by one hex digit.
fn div16(v: &U256) -> (r: U256)
    ensures
        r.val() == v.val() / 16,
{
    let r = U256 {
        lo: v.lo / 16 + (v.hi % 16) * 0x1000_0000_0000_0000_0000_0000_0000_0000,
        hi: v.hi / 16,
    };
    proof {
        assert(v.val() == 16 * r.val() + (v.lo % 16) as int);
        vstd::arithmetic::div_mod::lemma_fundamental_div_mod_converse(
            v.val(),
            16,
            r.val(),
            (v.lo % 16) as int,
        );
    }
    r
}

/// The fixed-width hex text of a word.
fn hex_word(v: &U256, width: usize) -> (r: String)
    ensures
        r@ == spec_hex(v.val(), width as nat),
    decreases width,
{
    if width == 0 {
        let r = String::new();
        proof {
            assert(r@ =~= spec_hex(v.val(), 0));
        }
        r
    } else {
        let q = div16(v);
        let mut s = hex_word(&q, width - 1);
        let d: u8 = (v.lo % 16) as u8;
        proof {
            assert(v.val() == 16 * (v.val() / 16) + (v.lo % 16) as int) by {
                assert(v.val() == 16 * q.val() + (v.lo % 16) as int);
            }
            vstd::arithmetic::div_mod::lemma_fundamental_div_mod_converse(
                v.val(),
                16,
                v.val() / 16,
                (v.lo % 16) as int,
            );
            assert(v.val() % 16 == v.lo % 16);
        }
        s.append(hex_digit_str(d));
        proof {
            assert(s@ =~= spec_hex(v.val(), width as nat));
        }
        s
    }
}

/// The hex text of an account address, 40 digits.
fn hex_address(a: &EvmAddress) -> (r: String)
    ensures
        r@ == spec_hex(a.val(), 40),
{
    let w = U256 { lo: a.lo, hi: a.hi as u128 };
    proof {
        assert(w.val() == a.val());
    }
    hex_word(&w, 40)
}

/// The hex text of a byte string.
fn hex_bytes(v: &Vec<u8>) -> (r: String)
    ensures
        r@ == spec_hex_bytes(v@),
{
    let mut out = String::new();
    let mut i: usize = 0;
    proof {
        assert(out@ =~= spec_hex_bytes(v@.take(0)));
    }
    while i < v.len()
        invariant
            0 <= i <= v@.len(),
            out@ == spec_hex_bytes(v@.take(i as int)),
        decreases v@.len() - i,
    {
        let b = v[i];
        out.append(hex_digit_str(b / 16));
        out.append(hex_digit_str(b % 16));
        proof {
            assert(v@.take(i as int + 1).drop_last() =~= v@.take(i as int));
            assert(v@.take(i as int + 1).last() == v@[i as int]);
            assert(spec_hex(b as int, 2) =~= seq![hex_digit(b as int / 16), hex_digit(b as int % 16)]) by {
                reveal_with_fuel(spec_hex, 3);
                assert((b as int / 16) % 16 == b as int / 16);
            }
            assert(out@ =~= spec_hex_bytes(v@.take(i as int + 1)));
        }
        i = i + 1;
    }
    proof {
        assert(v@.take(v@.len() as int) =~= v@);
    }
    out
}

/// One report line per difference, in order.
pub fn messages_of(diff: &Vec<DiffEntry>) -> (r: Messages)
    ensures
        r.texts().len() == diff@.len(),
        forall|i: int| 0 <= i < diff@.len() ==> r.texts()[i] == spec_line(#[trigger] diff@[i]),
{
    let mut lines: Vec<String> = Vec::new();
    let mut i: usize = 0;
    while i < diff.len()
        invariant
            0 <= i <= diff@.len(),
            lines@.len() == i,
            forall|k: int| 0 <= k < i ==> (#[trigger] lines@[k])@ == spec_line(diff@[k]),
        decreases diff@.len() - i,
    {
        lines.push(diff[i].render());
        i = i + 1;
    }
    Messages(lines)
}

} // verus!
