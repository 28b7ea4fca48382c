//! Compact difficulty targets: the packed 32-bit encoding of a 256-bit
//! proof-of-work bound, as it appears in the `bits` field of headers, blocks
//! and block templates.
//!
//! On the wire a compact target is an unprefixed big-endian hex string; the
//! canonical rendering has exactly eight lowercase digits.

use vstd::prelude::*;

use crate::error::DecodeError;
use crate::hex::{
    hex_char_value, hex_decode_spec, hex_encode, hex_encode_spec, hex_lower_spec,
    hex_digit_value, is_hex_digit, is_hex_seq, lemma_hex_digit_value_bounds,
};

verus! {

/// Packed 32-bit encoding of a 256-bit difficulty bound.
#[derive(Clone, Copy, Debug, PartialEq, Eq, Structural)]
pub struct CompactTarget {
    /// The consensus (packed) form: one exponent byte, three mantissa bytes.
    pub consensus: u32,
}

/// Value of a hex digit string read most significant digit first.
pub open spec fn hex_seq_value(s: Seq<char>) -> int
    recommends
        is_hex_seq(s),
    decreases s.len(),
{
    if s.len() == 0 {
        0
    } else {
        16 * hex_seq_value(s.drop_last()) + hex_digit_value(s.last())
    }
}

/// The four big-endian bytes of a 32-bit value.
pub open spec fn be_bytes_of_u32(v: u32) -> Seq<u8> {
    seq![
        (v as int / 0x1000000) as u8,
        ((v as int / 0x10000) % 256) as u8,
        ((v as int / 0x100) % 256) as u8,
        (v as int % 256) as u8,
    ]
}

/// Canonical wire form of a compact target: the lowercase hex rendering of
/// its four big-endian bytes.
pub open spec fn compact_target_hex_spec(v: u32) -> Seq<char> {
    hex_encode_spec(be_bytes_of_u32(v))
}

/// A hex digit string denotes a nonnegative value below `16 ^ len`.
pub proof fn lemma_hex_seq_value_bounds(s: Seq<char>)
    requires
        is_hex_seq(s),
    ensures
        0 <= hex_seq_value(s),
        hex_seq_value(s) < vstd::arithmetic::power::pow(16, s.len()),
    decreases s.len(),
{
    vstd::arithmetic::power::lemma_pow_positive(16, s.len());
    if s.len() > 0 {
        assert(is_hex_seq(s.drop_last()));
        lemma_hex_digit_value_bounds(s.last());
        lemma_hex_seq_value_bounds(s.drop_last());
        assert(vstd::arithmetic::power::pow(16, s.len()) == 16 * vstd::arithmetic::power::pow(
            16,
            (s.len() - 1) as nat,
        )) by {
            vstd::arithmetic::power::lemma_pow_adds(16, 1nat, (s.len() - 1) as nat);
            vstd::arithmetic::power::lemma_pow1(16);
        }
    }
}

/// Appending digits never shrinks the denoted value.
proof fn lemma_hex_seq_value_grows(s: Seq<char>, i: int, j: int)
    requires
        0 <= i <= j <= s.len(),
        is_hex_seq(s),
    ensures
        hex_seq_value(s.take(i)) <= hex_seq_value(s.take(j)),
    decreases j - i,
{
    if i < j {
        lemma_hex_seq_value_grows(s, i, j - 1);
        assert(s.take(j).drop_last() =~= s.take(j - 1));
        assert(is_hex_seq(s.take(j)));
        assert(is_hex_seq(s.take(j - 1)));
        lemma_hex_digit_value_bounds(s[j - 1]);
        lemma_hex_seq_value_bounds(s.take(j));
        lemma_hex_seq_value_bounds(s.take(j - 1));
    }
}

/// An even-length digit string denotes the same value as its bytes read in
/// base 256.
proof fn lemma_hex_seq_value_as_bytes(s: Seq<char>)
    requires
        s.len() % 2 == 0,
        is_hex_seq(s),
    ensures
        hex_seq_value(s) == be_bytes_value(hex_decode_spec(s)),
    decreases s.len(),
{
    if s.len() > 0 {
        let n = s.len() as int;
        let prefix = s.take(n - 2);
        assert(is_hex_seq(prefix));
        lemma_hex_seq_value_as_bytes(prefix);
        lemma_hex_digit_value_bounds(s[n - 2]);
        lemma_hex_digit_value_bounds(s[n - 1]);
        assert(s.drop_last().drop_last() =~= prefix);
        assert(s.drop_last().last() == s[n - 2]);
        assert(hex_seq_value(s) == 16 * hex_seq_value(s.drop_last()) + hex_digit_value(s[n - 1]));
        assert(hex_seq_value(s.drop_last()) == 16 * hex_seq_value(prefix) + hex_digit_value(
            s[n - 2],
        ));
        let dec = hex_decode_spec(s);
        assert(dec.drop_last() =~= hex_decode_spec(prefix));
        assert(2 * (n / 2 - 1) == n - 2);
        assert(dec.last() == dec[n / 2 - 1]);
        assert(dec[n / 2 - 1] as int == 16 * hex_digit_value(s[n - 2]) + hex_digit_value(s[n - 1]));
        assert(be_bytes_value(dec) == 256 * be_bytes_value(dec.drop_last()) + dec.last());
    }
}

/// Value of a byte string read most significant byte first.
pub open spec fn be_bytes_value(b: Seq<u8>) -> int
    decreases b.len(),
{
    if b.len() == 0 {
        0
    } else {
        256 * be_bytes_value(b.drop_last()) + b.last()
    }
}

/// Two hundred fifty-six to the `k`.
pub open spec fn pow256(k: nat) -> int {
    vstd::arithmetic::power::pow(256, k)
}

/// The exponent byte of a packed compact value.
pub open spec fn compact_exponent(bits: u32) -> int {
    bits as int / 0x1000000
}

/// The mantissa of a packed compact value, pre-shifted for the three small
/// exponents that denote a fraction of the three mantissa bytes.
pub open spec fn compact_mantissa(bits: u32) -> int {
    let e = compact_exponent(bits);
    let raw = bits as int % 0x1000000;
    if e == 0 {
        raw / 0x1000000
    } else if e == 1 {
        raw / 0x10000
    } else if e == 2 {
        raw / 0x100
    } else {
        raw
    }
}

/// How many whole bytes the mantissa is shifted left.
pub open spec fn compact_shift_bytes(bits: u32) -> nat {
    let e = compact_exponent(bits);
    if e <= 3 {
        0
    } else {
        (e - 3) as nat
    }
}

/// The 256-bit target a compact value denotes: the mantissa placed at its
/// byte shift. The mantissa is signed; a set sign bit denotes target zero.
pub open spec fn target_of_compact(bits: u32) -> int {
    if compact_mantissa(bits) > 0x7FFFFF {
        0
    } else {
        compact_mantissa(bits) * pow256(compact_shift_bytes(bits))
    }
}

/// A byte string read in base 256 denotes a nonnegative value below
/// `256 ^ len`.
pub proof fn lemma_be_bytes_value_bounds(b: Seq<u8>)
    ensures
        0 <= be_bytes_value(b),
        be_bytes_value(b) < pow256(b.len()),
    decreases b.len(),
{
    vstd::arithmetic::power::lemma_pow_positive(256, b.len());
    if b.len() > 0 {
        lemma_be_bytes_value_bounds(b.drop_last());
        assert(pow256(b.len()) == 256 * pow256((b.len() - 1) as nat)) by {
            vstd::arithmetic::power::lemma_pow_adds(256, 1nat, (b.len() - 1) as nat);
            vstd::arithmetic::power::lemma_pow1(256);
        }
    }
}

/// Byte strings of one length are determined by the value they denote: the
/// base-256 reading has no two spellings.
pub proof fn lemma_be_bytes_value_injective(a: Seq<u8>, b: Seq<u8>)
    requires
        a.len() == b.len(),
        be_bytes_value(a) == be_bytes_value(b),
    ensures
        a == b,
    decreases a.len(),
{
    if a.len() > 0 {
        let v = be_bytes_value(a);
        assert(v == 256 * be_bytes_value(a.drop_last()) + a.last());
        assert(v == 256 * be_bytes_value(b.drop_last()) + b.last());
        lemma_be_bytes_value_bounds(a.drop_last());
        lemma_be_bytes_value_bounds(b.drop_last());
        vstd::arithmetic::div_mod::lemma_fundamental_div_mod_converse(
            v,
            256,
            be_bytes_value(a.drop_last()),
            a.last() as int,
        );
        vstd::arithmetic::div_mod::lemma_fundamental_div_mod_converse(
            v,
            256,
            be_bytes_value(b.drop_last()),
            b.last() as int,
        );
        assert(a.last() == b.last());
        lemma_be_bytes_value_injective(a.drop_last(), b.drop_last());
        assert forall|i: int| 0 <= i < a.len() implies a[i] == b[i] by {
            if i < a.len() - 1 {
                assert(a.drop_last()[i] == b.drop_last()[i]);
            }
        }
        assert(a =~= b);
    } else {
        assert(a =~= b);
    }
}

/// The all-zero byte string denotes zero.
proof fn lemma_be_bytes_value_zeros(b: Seq<u8>)
    requires
        forall|i: int| 0 <= i < b.len() ==> b[i] == 0u8,
    ensures
        be_bytes_value(b) == 0,
    decreases b.len(),
{
    if b.len() > 0 {
        lemma_be_bytes_value_zeros(b.drop_last());
    }
}

/// Replacing one byte moves the denoted value by the difference at that
/// byte's weight.
proof fn lemma_be_bytes_value_update(b: Seq<u8>, i: int, v: u8)
    requires
        0 <= i < b.len(),
    ensures
        be_bytes_value(b.update(i, v)) == be_bytes_value(b) + (v - b[i]) * pow256(
            (b.len() - 1 - i) as nat,
        ),
    decreases b.len(),
{
    let u = b.update(i, v);
    if i == b.len() - 1 {
        assert(u.drop_last() =~= b.drop_last());
        assert(u.last() == v);
        assert(pow256(0nat) == 1) by {
            vstd::arithmetic::power::lemma_pow0(256);
        }
    } else {
        assert(u.last() == b.last());
        assert(u.drop_last() =~= b.drop_last().update(i, v));
        lemma_be_bytes_value_update(b.drop_last(), i, v);
        let k = (b.len() - 2 - i) as nat;
        assert(256 * ((v - b[i]) * pow256(k)) == (v - b[i]) * (256 * pow256(k))) by {
            vstd::arithmetic::mul::lemma_mul_is_associative(256, v - b[i], pow256(k));
            vstd::arithmetic::mul::lemma_mul_is_commutative(256, v - b[i]);
            vstd::arithmetic::mul::lemma_mul_is_associative(v - b[i], 256, pow256(k));
        }
        assert(256 * pow256(k) == pow256((k + 1) as nat)) by {
            vstd::arithmetic::power::lemma_pow_adds(256, 1nat, k);
            vstd::arithmetic::power::lemma_pow1(256);
        }
    }
}

/// A 32-bit value assembled from four bytes splits back into those bytes.
proof fn lemma_be_bytes_of_u32_recompose(d0: int, d1: int, d2: int, d3: int)
    requires
        0 <= d0 < 256,
        0 <= d1 < 256,
        0 <= d2 < 256,
        0 <= d3 < 256,
    ensures
        be_bytes_of_u32((d0 * 0x1000000 + d1 * 0x10000 + d2 * 0x100 + d3) as u32) == seq![
            d0 as u8,
            d1 as u8,
            d2 as u8,
            d3 as u8,
        ],
{
    let v = d0 * 0x1000000 + d1 * 0x10000 + d2 * 0x100 + d3;
    vstd::arithmetic::div_mod::lemma_fundamental_div_mod_converse(
        v,
        0x1000000,
        d0,
        d1 * 0x10000 + d2 * 0x100 + d3,
    );
    vstd::arithmetic::div_mod::lemma_fundamental_div_mod_converse(
        v,
        0x10000,
        d0 * 0x100 + d1,
        d2 * 0x100 + d3,
    );
    vstd::arithmetic::div_mod::lemma_fundamental_div_mod_converse(
        d0 * 0x100 + d1,
        0x100,
        d0,
        d1,
    );
    vstd::arithmetic::div_mod::lemma_fundamental_div_mod_converse(
        v,
        0x100,
        d0 * 0x10000 + d1 * 0x100 + d2,
        d3,
    );
    vstd::arithmetic::div_mod::lemma_fundamental_div_mod_converse(
        d0 * 0x10000 + d1 * 0x100 + d2,
        0x100,
        d0 * 0x100 + d1,
        d2,
    );
    assert(be_bytes_of_u32(v as u32) =~= seq![d0 as u8, d1 as u8, d2 as u8, d3 as u8]);
}

/// A string the compact-target parser accepts: nonempty hex whose value fits
/// 32 bits.
pub open spec fn compact_hex_ok(s: Seq<char>) -> bool {
    s.len() > 0 && is_hex_seq(s) && hex_seq_value(s) <= u32::MAX
}

/// The error the compact-target parser reports, by the first failing check.
pub open spec fn compact_hex_error(s: Seq<char>) -> DecodeError
    recommends
        !compact_hex_ok(s),
{
    if s.len() == 0 {
        DecodeError::EmptyInput
    } else if !is_hex_seq(s) {
        DecodeError::InvalidHexChar
    } else {
        DecodeError::ValueOutOfRange
    }
}

impl CompactTarget {
    /// Wraps a consensus (packed) value unchanged.
    pub fn from_consensus(v: u32) -> (r: Self)
        ensures
            r.consensus == v,
    {
        CompactTarget { consensus: v }
    }

    /// The consensus (packed) value.
    pub fn to_consensus(&self) -> (v: u32)
        ensures
            v == self.consensus,
    {
        self.consensus
    }

    /// Parses an unprefixed big-endian hex string. Accepts any number of
    /// digits whose value fits 32 bits; rejects an empty string, a non-hex
    /// character (so also a `0x` prefix), and a value above `u32::MAX`.
    pub fn from_unprefixed_hex(s: &str) -> (r: Result<Self, DecodeError>)
        ensures
            r is Ok <==> compact_hex_ok(s@),
            r matches Ok(t) ==> t.consensus as int == hex_seq_value(s@),
            r matches Err(e) ==> e == compact_hex_error(s@),
    {
        let n = s.unicode_len();
        if n == 0 {
            return Err(DecodeError::EmptyInput);
        }
        let mut i: usize = 0;
        while i < n
            invariant
                n == s@.len(),
                i <= n,
                forall|j: int| 0 <= j < i ==> is_hex_digit(#[trigger] s@[j]),
            decreases n - i,
        {
            if hex_char_value(s.get_char(i)).is_none() {
                return Err(DecodeError::InvalidHexChar);
            }
            i = i + 1;
        }
        let mut acc: u64 = 0;
        let mut i: usize = 0;
        while i < n
            invariant
                n == s@.len(),
                i <= n,
                is_hex_seq(s@),
                acc <= u32::MAX,
                acc as int == hex_seq_value(s@.take(i as int)),
            decreases n - i,
        {
            let d = match hex_char_value(s.get_char(i)) {
                Some(d) => d,
                None => {
                    return Err(DecodeError::InvalidHexChar);
                },
            };
            acc = 16 * acc + (d as u64);
            proof {
                assert(s@.take(i + 1).drop_last() =~= s@.take(i as int));
            }
            i = i + 1;
            if acc > u32::MAX as u64 {
                proof {
                    lemma_hex_seq_value_grows(s@, i as int, n as int);
                    assert(s@.take(n as int) =~= s@);
                }
                return Err(DecodeError::ValueOutOfRange);
            }
        }
        proof {
            assert(s@.take(n as int) =~= s@);
        }
        Ok(CompactTarget { consensus: acc as u32 })
    }

    /// Expands the packed value to the 256-bit target it denotes, as
    /// thirty-two big-endian bytes: a direct reinterpretation with no
    /// rounding. `None` when the shifted mantissa does not fit 256 bits.
    pub fn to_target_be_bytes(&self) -> (r: Option<[u8; 32]>)
        ensures
            r is Some <==> target_of_compact(self.consensus) < pow256(32),
            r matches Some(t) ==> be_bytes_value(t@) == target_of_compact(self.consensus),
    {
        let bits = self.consensus;
        let e = bits / 0x1000000;
        let raw = bits % 0x1000000;
        let m: u32 = if e == 0 {
            raw / 0x1000000
        } else if e == 1 {
            raw / 0x10000
        } else if e == 2 {
            raw / 0x100
        } else {
            raw
        };
        proof {
            assert(m as int == compact_mantissa(bits));
            vstd::arithmetic::power::lemma_pow_positive(256, 32);
        }
        let t = vstd::array::array_fill_for_copy_types::<u8, 32>(0);
        proof {
            lemma_be_bytes_value_zeros(t@);
        }
        if m > 0x7FFFFF {
            // The mantissa is signed; a negative one denotes target zero.
            return Some(t);
        }
        let ghost sh = compact_shift_bytes(bits);
        if m == 0 {
            proof {
                vstd::arithmetic::mul::lemma_mul_basics(pow256(sh));
            }
            return Some(t);
        }
        let s: usize = if e <= 3 {
            0
        } else {
            (e - 3) as usize
        };
        proof {
            assert(s as nat == sh);
        }
        let b0 = (m % 0x100) as u8;
        let b1 = ((m / 0x100) % 0x100) as u8;
        let b2 = (m / 0x10000) as u8;
        proof {
            vstd::arithmetic::div_mod::lemma_fundamental_div_mod(m as int, 0x100);
            vstd::arithmetic::div_mod::lemma_fundamental_div_mod(m as int / 0x100, 0x100);
            assert(m as int == (b2 as int) * 0x10000 + (b1 as int) * 0x100 + (b0 as int));
            assert(pow256((sh + 1) as nat) == 0x100 * pow256(sh) && pow256((sh + 2) as nat)
                == 0x10000 * pow256(sh)) by {
                vstd::arithmetic::power::lemma_pow_adds(256, 1nat, sh);
                vstd::arithmetic::power::lemma_pow_adds(256, 2nat, sh);
                vstd::arithmetic::power::lemma_pow1(256);
                assert(vstd::arithmetic::power::pow(256, 2nat) == 0x10000) by {
                    reveal_with_fuel(vstd::arithmetic::power::pow, 3);
                }
            }
            vstd::arithmetic::power::lemma_pow_positive(256, sh);
        }
        if s <= 29 {
            let mut t = t;
            let ghost t0 = t@;
            t[31 - s] = b0;
            proof {
                lemma_be_bytes_value_update(t0, 31 - s, b0);
            }
            let ghost t1 = t@;
            t[30 - s] = b1;
            proof {
                lemma_be_bytes_value_update(t1, 30 - s, b1);
            }
            let ghost t2 = t@;
            t[29 - s] = b2;
            proof {
                lemma_be_bytes_value_update(t2, 29 - s, b2);
                assert(be_bytes_value(t@) == (b0 as int) * pow256(sh) + (b1 as int) * pow256(
                    (sh + 1) as nat,
                ) + (b2 as int) * pow256((sh + 2) as nat));
                assert((b1 as int) * (0x100 * pow256(sh)) == ((b1 as int) * 0x100) * pow256(sh))
                    by {
                    vstd::arithmetic::mul::lemma_mul_is_associative(b1 as int, 0x100, pow256(sh));
                }
                assert((b2 as int) * (0x10000 * pow256(sh)) == ((b2 as int) * 0x10000) * pow256(
                    sh,
                )) by {
                    vstd::arithmetic::mul::lemma_mul_is_associative(
                        b2 as int,
                        0x10000,
                        pow256(sh),
                    );
                }
                assert(((b2 as int) * 0x10000) * pow256(sh) + ((b1 as int) * 0x100) * pow256(sh)
                    + (b0 as int) * pow256(sh) == m as int * pow256(sh)) by {
                    vstd::arithmetic::mul::lemma_mul_is_distributive_add_other_way(
                        pow256(sh),
                        (b2 as int) * 0x10000,
                        (b1 as int) * 0x100,
                    );
                    vstd::arithmetic::mul::lemma_mul_is_distributive_add_other_way(
                        pow256(sh),
                        (b2 as int) * 0x10000 + (b1 as int) * 0x100,
                        b0 as int,
                    );
                }
                lemma_be_bytes_value_bounds(t@);
            }
            Some(t)
        } else if s == 30 {
            if b2 != 0 {
                proof {
                    assert(m >= 0x10000);
                    vstd::arithmetic::mul::lemma_mul_inequality(0x10000, m as int, pow256(30nat));
                    assert(0x10000 * pow256(30nat) == pow256(32nat)) by {
                        vstd::arithmetic::power::lemma_pow_adds(256, 2nat, 30nat);
                        assert(vstd::arithmetic::power::pow(256, 2nat) == 0x10000) by {
                            reveal_with_fuel(vstd::arithmetic::power::pow, 3);
                        }
                    }
                }
                return None;
            }
            let mut t = t;
            let ghost t0 = t@;
            t[1] = b0;
            proof {
                lemma_be_bytes_value_update(t0, 1, b0);
            }
            let ghost t1 = t@;
            t[0] = b1;
            proof {
                lemma_be_bytes_value_update(t1, 0, b1);
                assert(be_bytes_value(t@) == (b0 as int) * pow256(30nat) + (b1 as int) * pow256(
                    31nat,
                ));
                assert((b1 as int) * (0x100 * pow256(30nat)) == ((b1 as int) * 0x100) * pow256(
                    30nat,
                )) by {
                    vstd::arithmetic::mul::lemma_mul_is_associative(
                        b1 as int,
                        0x100,
                        pow256(30nat),
                    );
                }
                assert(((b1 as int) * 0x100) * pow256(30nat) + (b0 as int) * pow256(30nat)
                    == m as int * pow256(30nat)) by {
                    vstd::arithmetic::mul::lemma_mul_is_distributive_add_other_way(
                        pow256(30nat),
                        (b1 as int) * 0x100,
                        b0 as int,
                    );
                }
                lemma_be_bytes_value_bounds(t@);
            }
            Some(t)
        } else if s == 31 {
            if b2 != 0 || b1 != 0 {
                proof {
                    assert(m >= 0x100);
                    vstd::arithmetic::mul::lemma_mul_inequality(0x100, m as int, pow256(31nat));
                    assert(0x100 * pow256(31nat) == pow256(32nat)) by {
                        vstd::arithmetic::power::lemma_pow_adds(256, 1nat, 31nat);
                        vstd::arithmetic::power::lemma_pow1(256);
                    }
                }
                return None;
            }
            let mut t = t;
            let ghost t0 = t@;
            t[0] = b0;
            proof {
                lemma_be_bytes_value_update(t0, 0, b0);
                lemma_be_bytes_value_bounds(t@);
            }
            Some(t)
        } else {
            proof {
                vstd::arithmetic::power::lemma_pow_increases(256, 32nat, sh);
                vstd::arithmetic::mul::lemma_mul_inequality(1, m as int, pow256(sh));
                vstd::arithmetic::mul::lemma_mul_basics(pow256(sh));
            }
            None
        }
    }

    /// Renders the packed value as exactly eight lowercase big-endian hex
    /// digits.
    pub fn to_unprefixed_hex(&self) -> (r: String)
        ensures
            r@ == compact_target_hex_spec(self.consensus),
    {
        let v = self.consensus;
        let bytes: [u8; 4] = [
            (v / 0x1000000) as u8,
            ((v / 0x10000) % 256) as u8,
            ((v / 0x100) % 256) as u8,
            (v % 256) as u8,
        ];
        proof {
            assert(bytes@ =~= be_bytes_of_u32(v));
        }
        hex_encode(bytes.as_slice())
    }
}

/// Compact-target round trip: a well-formed eight-digit hex string decodes
/// successfully, and re-encoding reproduces it exactly up to lowercasing.
#[verifier::rlimit(50)]
pub proof fn lemma_compact_target_round_trip(s: Seq<char>)
    requires
        s.len() == 8,
        is_hex_seq(s),
    ensures
        0 <= hex_seq_value(s) <= u32::MAX,
        compact_target_hex_spec(hex_seq_value(s) as u32) == hex_lower_spec(s),
{
    lemma_hex_seq_value_bounds(s);
    assert(vstd::arithmetic::power::pow(16, 8) == 0x100000000) by {
        reveal_with_fuel(vstd::arithmetic::power::pow, 9);
    }
    let v = hex_seq_value(s) as u32;
    lemma_hex_seq_value_as_bytes(s);
    let dec = hex_decode_spec(s);
    assert(dec.len() == 4);
    lemma_hex_digit_value_bounds(s[0]);
    lemma_hex_digit_value_bounds(s[1]);
    lemma_hex_digit_value_bounds(s[2]);
    lemma_hex_digit_value_bounds(s[3]);
    lemma_hex_digit_value_bounds(s[4]);
    lemma_hex_digit_value_bounds(s[5]);
    lemma_hex_digit_value_bounds(s[6]);
    lemma_hex_digit_value_bounds(s[7]);
    // Expand the base-256 fold of the four decoded bytes.
    let d3 = dec.drop_last();
    let d2 = d3.drop_last();
    let d1 = d2.drop_last();
    assert(d1.drop_last() =~= Seq::<u8>::empty());
    assert(be_bytes_value(d1.drop_last()) == 0);
    assert(d1.last() == dec[0] && d2.last() == dec[1] && d3.last() == dec[2] && dec.last()
        == dec[3]);
    assert(be_bytes_value(dec) == 256 * be_bytes_value(d3) + dec[3]);
    assert(be_bytes_value(d3) == 256 * be_bytes_value(d2) + dec[2]);
    assert(be_bytes_value(d2) == 256 * be_bytes_value(d1) + dec[1]);
    assert(be_bytes_value(d1) == dec[0]);
    assert(v as int == ((dec[0] as int) * 0x1000000) + ((dec[1] as int) * 0x10000) + ((
    dec[2] as int) * 0x100) + (dec[3] as int));
    lemma_be_bytes_of_u32_recompose(dec[0] as int, dec[1] as int, dec[2] as int, dec[3] as int);
    assert(be_bytes_of_u32(v) =~= dec);
    crate::hex::lemma_hex_lower_round_trip(s);
}

} // verus!
