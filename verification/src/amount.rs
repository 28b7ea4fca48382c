//! Amounts as fixed-point decimal strings: the wire reports an amount in
//! whole-coin units with up to eight fractional digits, while the domain
//! stores it as an integer count of satoshis, the smallest unit.

use vstd::prelude::*;

use crate::error::DecodeError;
use crate::text::push_char;

verus! {

/// A decimal digit.
pub open spec fn is_dec_digit(c: char) -> bool {
    '0' <= c && c <= '9'
}

/// Numeric value of a decimal digit.
pub open spec fn dec_digit_value(c: char) -> int
    recommends
        is_dec_digit(c),
{
    c as int - '0' as int
}

/// Every character of `s` is a decimal digit.
pub open spec fn all_dec_digits(s: Seq<char>) -> bool {
    forall|i: int| 0 <= i < s.len() ==> is_dec_digit(#[trigger] s[i])
}

/// Value of a decimal digit string read most significant digit first.
pub open spec fn dec_seq_value(s: Seq<char>) -> int
    recommends
        all_dec_digits(s),
    decreases s.len(),
{
    if s.len() == 0 {
        0
    } else {
        10 * dec_seq_value(s.drop_last()) + dec_digit_value(s.last())
    }
}

/// Ten to the `k`.
pub open spec fn pow10(k: nat) -> int {
    vstd::arithmetic::power::pow(10, k)
}

/// `k` splits `s` into a nonempty integer part, a dot, and a nonempty
/// fractional part, both parts all digits (of any length).
pub open spec fn amount_split_at(s: Seq<char>, k: int) -> bool {
    &&& 1 <= k < s.len() - 1
    &&& s[k] == '.'
    &&& all_dec_digits(s.take(k))
    &&& all_dec_digits(s.skip(k + 1))
}

/// A well-formed amount string: either all digits, or digits around a single
/// dot with one to eight fractional digits.
pub open spec fn amount_wf(s: Seq<char>) -> bool {
    ||| s.len() >= 1 && all_dec_digits(s)
    ||| exists|k: int| amount_split_at(s, k) && s.len() - k - 1 <= 8
}

/// An otherwise well-formed amount string with more than eight fractional
/// digits, which the smallest unit cannot represent.
pub open spec fn amount_too_precise(s: Seq<char>) -> bool {
    exists|k: int| amount_split_at(s, k) && s.len() - k - 1 > 8
}

/// The satoshi value denoted by a well-formed amount string.
pub open spec fn amount_sats_spec(s: Seq<char>) -> int
    recommends
        amount_wf(s),
{
    if s.len() >= 1 && all_dec_digits(s) {
        dec_seq_value(s) * 100_000_000
    } else {
        let k = choose|k: int| amount_split_at(s, k);
        dec_seq_value(s.take(k)) * 100_000_000 + dec_seq_value(s.skip(k + 1)) * pow10(
            (8 - (s.len() - k - 1)) as nat,
        )
    }
}

/// An amount in the smallest indivisible unit.
#[derive(Clone, Copy, Debug, PartialEq, Eq, Structural)]
pub struct AmountBtc {
    /// Satoshis: one hundred-millionth of a whole coin.
    pub sats: u64,
}

/// A digit string denotes a nonnegative value below `10 ^ len`.
pub proof fn lemma_dec_seq_value_bounds(s: Seq<char>)
    requires
        all_dec_digits(s),
    ensures
        0 <= dec_seq_value(s),
        dec_seq_value(s) < pow10(s.len()),
    decreases s.len(),
{
    vstd::arithmetic::power::lemma_pow_positive(10, s.len());
    if s.len() > 0 {
        assert(all_dec_digits(s.drop_last()));
        lemma_dec_seq_value_bounds(s.drop_last());
        assert(pow10(s.len()) == 10 * pow10((s.len() - 1) as nat)) by {
            vstd::arithmetic::power::lemma_pow_adds(10, 1nat, (s.len() - 1) as nat);
            vstd::arithmetic::power::lemma_pow1(10);
        }
    }
}

/// A prefix of a digit string never denotes more than the whole string.
proof fn lemma_dec_seq_value_grows(s: Seq<char>, i: int)
    requires
        0 <= i <= s.len(),
        all_dec_digits(s),
    ensures
        dec_seq_value(s.take(i)) <= dec_seq_value(s),
    decreases s.len() - i,
{
    assert(s.take(s.len() as int) =~= s);
    if i < s.len() {
        let shorter = s.take(s.len() - 1);
        assert(all_dec_digits(shorter));
        if i < s.len() - 1 {
            lemma_dec_seq_value_grows(shorter, i);
            assert(shorter.take(i) =~= s.take(i));
        } else {
            assert(s.take(i) =~= shorter);
        }
        assert(s.drop_last() =~= shorter);
        lemma_dec_seq_value_bounds(shorter);
        assert(is_dec_digit(s.last()));
        assert(dec_seq_value(s) == 10 * dec_seq_value(shorter) + dec_digit_value(s.last()));
    }
}

/// At most one position can split an amount string.
pub proof fn lemma_amount_split_unique(s: Seq<char>, k1: int, k2: int)
    requires
        amount_split_at(s, k1),
        amount_split_at(s, k2),
    ensures
        k1 == k2,
{
    if k1 < k2 {
        assert(s.take(k2)[k1] == '.');
        assert(is_dec_digit(s.take(k2)[k1]));
    }
    if k2 < k1 {
        assert(s.take(k1)[k2] == '.');
        assert(is_dec_digit(s.take(k1)[k2]));
    }
}

/// Numeric value of one decimal character, or `None` outside `0-9`.
pub fn dec_char_value(c: char) -> (r: Option<u8>)
    ensures
        r is Some <==> is_dec_digit(c),
        r matches Some(v) ==> v < 10 && v as int == dec_digit_value(c),
{
    if '0' <= c && c <= '9' {
        Some((c as u8) - ('0' as u8))
    } else {
        None
    }
}

/// Ten to the `k` as a machine integer, for `k` up to eight.
pub fn pow10_u64(k: usize) -> (r: u64)
    requires
        k <= 8,
    ensures
        r as int == pow10(k as nat),
{
    proof {
        reveal_with_fuel(vstd::arithmetic::power::pow, 9);
    }
    if k == 0 {
        1
    } else if k == 1 {
        10
    } else if k == 2 {
        100
    } else if k == 3 {
        1_000
    } else if k == 4 {
        10_000
    } else if k == 5 {
        100_000
    } else if k == 6 {
        1_000_000
    } else if k == 7 {
        10_000_000
    } else {
        100_000_000
    }
}

/// Value of the digits of `s` between `from` and `to`, or `None` when it
/// exceeds `u64::MAX`.
fn dec_value_range(s: &str, from: usize, to: usize) -> (r: Option<u64>)
    requires
        from <= to <= s@.len(),
        forall|j: int| from <= j < to ==> is_dec_digit(#[trigger] s@[j]),
    ensures
        r is Some <==> dec_seq_value(s@.subrange(from as int, to as int)) <= u64::MAX,
        r matches Some(v) ==> v as int == dec_seq_value(s@.subrange(from as int, to as int)),
{
    let ghost whole = s@.subrange(from as int, to as int);
    let mut acc: u64 = 0;
    let mut i: usize = from;
    while i < to
        invariant
            from <= i <= to <= s@.len(),
            whole == s@.subrange(from as int, to as int),
            forall|j: int| from <= j < to ==> is_dec_digit(#[trigger] s@[j]),
            all_dec_digits(whole),
            acc as int == dec_seq_value(s@.subrange(from as int, i as int)),
        decreases to - i,
    {
        let d = match dec_char_value(s.get_char(i)) {
            Some(d) => d,
            None => {
                proof {
                    assert(is_dec_digit(s@[i as int]));
                }
                return None;
            },
        };
        if acc > (u64::MAX - (d as u64)) / 10 {
            proof {
                vstd::arithmetic::div_mod::lemma_fundamental_div_mod(
                    u64::MAX - d as int,
                    10,
                );
                assert(s@.subrange(from as int, i + 1).drop_last() =~= s@.subrange(
                    from as int,
                    i as int,
                ));
                assert(dec_seq_value(s@.subrange(from as int, i + 1)) > u64::MAX);
                lemma_dec_seq_value_grows(whole, i + 1 - from);
                assert(whole.take(i + 1 - from) =~= s@.subrange(from as int, i + 1));
            }
            return None;
        }
        acc = 10 * acc + (d as u64);
        proof {
            assert(s@.subrange(from as int, i + 1).drop_last() =~= s@.subrange(
                from as int,
                i as int,
            ));
        }
        i = i + 1;
    }
    Some(acc)
}

impl From<u64> for AmountBtc {
    /// Wraps a satoshi count unchanged.
    fn from(sats: u64) -> (r: Self) {
        AmountBtc { sats }
    }
}

impl vstd::std_specs::convert::FromSpecImpl<u64> for AmountBtc {
    open spec fn obeys_from_spec() -> bool {
        true
    }

    open spec fn from_spec(sats: u64) -> Self {
        AmountBtc { sats }
    }
}

impl From<AmountBtc> for u64 {
    /// Unwraps the satoshi count unchanged.
    fn from(amount: AmountBtc) -> (r: Self) {
        amount.sats
    }
}

impl vstd::std_specs::convert::FromSpecImpl<AmountBtc> for u64 {
    open spec fn obeys_from_spec() -> bool {
        true
    }

    open spec fn from_spec(amount: AmountBtc) -> Self {
        amount.sats
    }
}

impl AmountBtc {
    /// Wraps a satoshi count unchanged.
    pub fn from_sats(sats: u64) -> (r: Self)
        ensures
            r.sats == sats,
    {
        AmountBtc { sats }
    }

    /// The satoshi count.
    pub fn to_sats(&self) -> (r: u64)
        ensures
            r == self.sats,
    {
        self.sats
    }

    /// Parses a fixed-point decimal amount string into satoshis. Rejects
    /// anything but digits around at most one dot, more than eight
    /// fractional digits, and values above `u64::MAX` satoshis.
    pub fn from_btc_str(s: &str) -> (r: Result<Self, DecodeError>)
        ensures
            r is Ok <==> amount_wf(s@) && amount_sats_spec(s@) <= u64::MAX,
            r matches Ok(a) ==> a.sats as int == amount_sats_spec(s@),
            r matches Err(e) ==> e == (if amount_too_precise(s@) {
                DecodeError::AmountTooPrecise
            } else if !amount_wf(s@) {
                DecodeError::AmountMalformed
            } else {
                DecodeError::AmountOverflow
            }),
    {
        let n = s.unicode_len();
        let mut dot: Option<usize> = None;
        let mut i: usize = 0;
        while i < n
            invariant
                n == s@.len(),
                i <= n,
                match dot {
                    Some(k) => k < i && s@[k as int] == '.' && forall|j: int|
                        0 <= j < i && j != k ==> is_dec_digit(#[trigger] s@[j]),
                    None => forall|j: int| 0 <= j < i ==> is_dec_digit(#[trigger] s@[j]),
                },
            decreases n - i,
        {
            let c = s.get_char(i);
            if c == '.' {
                if let Some(k) = dot {
                    // A second dot: no split position can be valid.
                    proof {
                        assert forall|k2: int| !amount_split_at(s@, k2) by {
                            if amount_split_at(s@, k2) {
                                if k2 < k as int {
                                    assert(s@.skip(k2 + 1)[k - k2 - 1] == '.');
                                } else if k2 > k as int {
                                    assert(s@.take(k2)[k as int] == '.');
                                } else {
                                    assert(s@.skip(k2 + 1)[i - k2 - 1] == '.');
                                }
                            }
                        }
                        assert(!all_dec_digits(s@)) by {
                            assert(s@[k as int] == '.');
                        }
                    }
                    return Err(DecodeError::AmountMalformed);
                }
                dot = Some(i);
            } else {
                if dec_char_value(c).is_none() {
                    // A character that is neither digit nor dot: no split
                    // position can be valid.
                    proof {
                        assert forall|k2: int| !amount_split_at(s@, k2) by {
                            if amount_split_at(s@, k2) {
                                if (i as int) < k2 {
                                    assert(is_dec_digit(s@.take(k2)[i as int]));
                                } else if (i as int) > k2 {
                                    assert(is_dec_digit(s@.skip(k2 + 1)[i - k2 - 1]));
                                }
                            }
                        }
                        assert(!all_dec_digits(s@)) by {
                            assert(!is_dec_digit(s@[i as int]));
                        }
                    }
                    return Err(DecodeError::AmountMalformed);
                }
            }
            i = i + 1;
        }
        match dot {
            None => {
                if n == 0 {
                    proof {
                        assert forall|k2: int| !amount_split_at(s@, k2) by {}
                    }
                    return Err(DecodeError::AmountMalformed);
                }
                proof {
                    assert(all_dec_digits(s@));
                    assert forall|k2: int| !amount_split_at(s@, k2) by {
                        if amount_split_at(s@, k2) {
                            assert(is_dec_digit(s@[k2]));
                        }
                    }
                }
                let v = match dec_value_range(s, 0, n) {
                    Some(v) => v,
                    None => {
                        proof {
                            assert(s@.subrange(0, n as int) =~= s@);
                            lemma_int_times_sats_grows(dec_seq_value(s@));
                        }
                        return Err(DecodeError::AmountOverflow);
                    },
                };
                proof {
                    assert(s@.subrange(0, n as int) =~= s@);
                }
                if v > u64::MAX / 100_000_000 {
                    proof {
                        lemma_sats_overflow(v as int);
                    }
                    return Err(DecodeError::AmountOverflow);
                }
                proof {
                    lemma_sats_fits(v as int);
                }
                Ok(AmountBtc { sats: v * 100_000_000 })
            },
            Some(k) => {
                let flen = n - k - 1;
                if k == 0 || flen == 0 {
                    proof {
                        assert(!all_dec_digits(s@)) by {
                            assert(s@[k as int] == '.');
                        }
                        assert forall|k2: int| !amount_split_at(s@, k2) by {
                            if amount_split_at(s@, k2) {
                                if k2 != k as int {
                                    assert(is_dec_digit(s@[k2]));
                                }
                            }
                        }
                    }
                    return Err(DecodeError::AmountMalformed);
                }
                proof {
                    assert(all_dec_digits(s@.take(k as int))) by {
                        assert forall|j: int| 0 <= j < k implies is_dec_digit(
                            #[trigger] s@.take(k as int)[j],
                        ) by {}
                    }
                    assert(all_dec_digits(s@.skip(k + 1))) by {
                        assert forall|j: int| 0 <= j < s@.len() - k - 1 implies is_dec_digit(
                            #[trigger] s@.skip(k + 1)[j],
                        ) by {}
                    }
                    assert(amount_split_at(s@, k as int));
                }
                if flen > 8 {
                    return Err(DecodeError::AmountTooPrecise);
                }
                proof {
                    assert(amount_wf(s@));
                    assert(!amount_too_precise(s@)) by {
                        if amount_too_precise(s@) {
                            let k2 = choose|k2: int|
                                amount_split_at(s@, k2) && s@.len() - k2 - 1 > 8;
                            lemma_amount_split_unique(s@, k as int, k2);
                        }
                    }
                    let kc = choose|kc: int| amount_split_at(s@, kc);
                    lemma_amount_split_unique(s@, k as int, kc);
                }
                let int_val = match dec_value_range(s, 0, k) {
                    Some(v) => v,
                    None => {
                        proof {
                            assert(s@.subrange(0, k as int) =~= s@.take(k as int));
                            lemma_split_overflow_int_part(s@, k as int);
                        }
                        return Err(DecodeError::AmountOverflow);
                    },
                };
                let frac_val = match dec_value_range(s, k + 1, n) {
                    Some(v) => v,
                    None => {
                        proof {
                            assert(s@.subrange(k + 1, n as int) =~= s@.skip(k + 1));
                            lemma_dec_seq_value_bounds(s@.skip(k + 1));
                            vstd::arithmetic::power::lemma_pow_increases(
                                10,
                                (n - k - 1) as nat,
                                8nat,
                            );
                            assert(pow10(8nat) == 100_000_000) by {
                                reveal_with_fuel(vstd::arithmetic::power::pow, 9);
                            }
                            assert(false);
                        }
                        return Err(DecodeError::AmountOverflow);
                    },
                };
                proof {
                    assert(s@.subrange(0, k as int) =~= s@.take(k as int));
                    assert(s@.subrange(k + 1, n as int) =~= s@.skip(k + 1));
                    lemma_dec_seq_value_bounds(s@.skip(k + 1));
                    vstd::arithmetic::power::lemma_pow_increases(10, (n - k - 1) as nat, 8nat);
                    assert(pow10(8nat) == 100_000_000) by {
                        reveal_with_fuel(vstd::arithmetic::power::pow, 9);
                    }
                }
                let scale = pow10_u64(8 - flen);
                proof {
                    lemma_frac_scaled_bound(frac_val as int, (n - k - 1) as nat);
                }
                let fs = frac_val * scale;
                if int_val > (u64::MAX - fs) / 100_000_000 {
                    proof {
                        lemma_split_sats_overflow(int_val as int, fs as int);
                    }
                    return Err(DecodeError::AmountOverflow);
                }
                proof {
                    lemma_split_sats_fits(int_val as int, fs as int);
                }
                Ok(AmountBtc { sats: int_val * 100_000_000 + fs })
            },
        }
    }
}

/// Decimal rendering of a nonnegative integer: no leading zeros, a single
/// `'0'` for zero. Digit characters are shared with the hex codec, whose
/// first ten digits are the decimal ones.
pub open spec fn dec_str_spec(n: int) -> Seq<char>
    recommends
        n >= 0,
    decreases n,
{
    if n < 10 {
        seq![crate::hex::hex_char_lower(n)]
    } else {
        dec_str_spec(n / 10).push(crate::hex::hex_char_lower(n % 10))
    }
}

/// Zero-padded decimal rendering of the low `width` digits of `n`.
pub open spec fn dec_str_pad_spec(n: int, width: nat) -> Seq<char>
    recommends
        n >= 0,
    decreases width,
{
    if width == 0 {
        Seq::empty()
    } else {
        dec_str_pad_spec(n / 10, (width - 1) as nat).push(crate::hex::hex_char_lower(n % 10))
    }
}

/// Canonical wire form of a satoshi count: the whole-coin part, a dot, and
/// exactly eight fractional digits.
pub open spec fn amount_btc_str_spec(sats: u64) -> Seq<char> {
    dec_str_spec(sats as int / 100_000_000) + seq!['.'] + dec_str_pad_spec(
        sats as int % 100_000_000,
        8,
    )
}

/// The unpadded decimal rendering is nonempty, all digits, and denotes its
/// input.
pub proof fn lemma_dec_str_spec_props(n: int)
    requires
        n >= 0,
    ensures
        dec_str_spec(n).len() >= 1,
        all_dec_digits(dec_str_spec(n)),
        dec_seq_value(dec_str_spec(n)) == n,
    decreases n,
{
    if n < 10 {
        let c = crate::hex::hex_char_lower(n);
        assert(is_dec_digit(c));
        assert(dec_str_spec(n) == seq![c]);
        assert(seq![c].last() == c);
        assert(seq![c].drop_last() =~= Seq::<char>::empty());
        assert(dec_seq_value(seq![c]) == 10 * dec_seq_value(seq![c].drop_last()) + dec_digit_value(
            c,
        ));
    } else {
        lemma_dec_str_spec_props(n / 10);
        let prev = dec_str_spec(n / 10);
        let c = crate::hex::hex_char_lower(n % 10);
        assert(is_dec_digit(c) && dec_digit_value(c) == n % 10);
        assert(prev.push(c).drop_last() =~= prev);
        assert(dec_seq_value(prev.push(c)) == 10 * (n / 10) + n % 10);
    }
}

/// The padded decimal rendering has exactly `width` digits and denotes its
/// input when the input fits the width.
pub proof fn lemma_dec_str_pad_props(n: int, width: nat)
    requires
        0 <= n < pow10(width),
    ensures
        dec_str_pad_spec(n, width).len() == width,
        all_dec_digits(dec_str_pad_spec(n, width)),
        dec_seq_value(dec_str_pad_spec(n, width)) == n,
    decreases width,
{
    if width == 0 {
        assert(pow10(0nat) == 1) by {
            vstd::arithmetic::power::lemma_pow0(10);
        }
    } else {
        assert(pow10(width) == 10 * pow10((width - 1) as nat)) by {
            vstd::arithmetic::power::lemma_pow_adds(10, 1nat, (width - 1) as nat);
            vstd::arithmetic::power::lemma_pow1(10);
        }
        vstd::arithmetic::div_mod::lemma_fundamental_div_mod(n, 10);
        lemma_dec_str_pad_props(n / 10, (width - 1) as nat);
        let prev = dec_str_pad_spec(n / 10, (width - 1) as nat);
        let c = crate::hex::hex_char_lower(n % 10);
        assert(is_dec_digit(c) && dec_digit_value(c) == n % 10);
        assert(prev.push(c).drop_last() =~= prev);
        assert(dec_seq_value(prev.push(c)) == 10 * (n / 10) + n % 10);
    }
}

impl AmountBtc {
    /// Renders the amount in its canonical wire form: the whole-coin part
    /// with no leading zeros, a dot, and exactly eight fractional digits.
    pub fn to_btc_string(&self) -> (r: String)
        ensures
            r@ == amount_btc_str_spec(self.sats),
    {
        let q = self.sats / 100_000_000;
        let f = self.sats % 100_000_000;
        // Integer-part digits, least significant first.
        let mut rev: Vec<char> = Vec::new();
        let mut m = q;
        proof {
            assert(dec_str_spec(q as int) =~= dec_str_spec(q as int).add(rev@.reverse()));
        }
        loop
            invariant_except_break
                dec_str_spec(q as int) == dec_str_spec(m as int).add(rev@.reverse()),
            ensures
                dec_str_spec(q as int) == rev@.reverse(),
            decreases m,
        {
            // Walk the digits from the last one; stop once the next quotient
            // hits zero.
            let c = crate::hex::hex_char_of((m % 10) as u8);
            let ghost old_rev = rev@;
            let ghost old_m = m as int;
            rev.push(c);
            m = m / 10;
            proof {
                assert(rev@.reverse() =~= seq![c].add(old_rev.reverse()));
                if old_m < 10 {
                    assert(old_m % 10 == old_m);
                    assert(dec_str_spec(old_m) == seq![c]);
                } else {
                    assert(dec_str_spec(old_m) == dec_str_spec(old_m / 10).push(c));
                    assert(dec_str_spec(old_m) =~= dec_str_spec(m as int).add(seq![c]));
                }
            }
            if m == 0 {
                proof {
                    assert(dec_str_spec(q as int) =~= rev@.reverse());
                }
                break;
            }
            proof {
                assert(dec_str_spec(q as int) =~= dec_str_spec(m as int).add(rev@.reverse()));
            }
        }
        let mut out = String::new();
        let mut i: usize = rev.len();
        while i > 0
            invariant
                i <= rev@.len(),
                out@ == rev@.subrange(i as int, rev@.len() as int).reverse(),
            decreases i,
        {
            i = i - 1;
            push_char(&mut out, rev[i]);
            proof {
                assert(out@ =~= rev@.subrange(i as int, rev@.len() as int).reverse());
            }
        }
        proof {
            assert(rev@.subrange(0, rev@.len() as int) =~= rev@);
            assert(out@ == dec_str_spec(q as int));
        }
        push_char(&mut out, '.');
        // Fractional digits: exactly eight, zero padded, least significant
        // first.
        let mut frev: Vec<char> = Vec::new();
        let mut fm = f;
        let mut cnt: usize = 0;
        while cnt < 8
            invariant
                cnt <= 8,
                frev@.len() == cnt,
                dec_str_pad_spec(f as int, 8) == dec_str_pad_spec(
                    fm as int,
                    (8 - cnt) as nat,
                ).add(frev@.reverse()),
            decreases 8 - cnt,
        {
            let ghost old_frev = frev@;
            let ghost old_fm = fm as int;
            frev.push(crate::hex::hex_char_of((fm % 10) as u8));
            fm = fm / 10;
            cnt = cnt + 1;
            proof {
                assert(frev@.reverse() =~= seq![
                    crate::hex::hex_char_lower(old_fm % 10),
                ].add(old_frev.reverse()));
                assert(dec_str_pad_spec(old_fm, (8 - cnt + 1) as nat) == dec_str_pad_spec(
                    fm as int,
                    (8 - cnt) as nat,
                ).push(crate::hex::hex_char_lower(old_fm % 10)));
                assert(dec_str_pad_spec(fm as int, (8 - cnt) as nat).add(frev@.reverse())
                    =~= dec_str_pad_spec(old_fm, (8 - cnt + 1) as nat).add(old_frev.reverse()));
            }
        }
        proof {
            assert(dec_str_pad_spec(fm as int, 0nat) =~= Seq::<char>::empty());
            assert(dec_str_pad_spec(fm as int, 0nat).add(frev@.reverse()) =~= frev@.reverse());
        }
        let mut j: usize = frev.len();
        proof {
            assert(frev@.len() == 8);
        }
        while j > 0
            invariant
                j <= frev@.len(),
                frev@.len() == 8,
                dec_str_pad_spec(f as int, 8) == frev@.reverse(),
                out@ == dec_str_spec(q as int).add(seq!['.']).add(
                    frev@.subrange(j as int, 8).reverse(),
                ),
            decreases j,
        {
            j = j - 1;
            push_char(&mut out, frev[j]);
            proof {
                assert(out@ =~= dec_str_spec(q as int).add(seq!['.']).add(
                    frev@.subrange(j as int, 8).reverse(),
                ));
            }
        }
        proof {
            assert(frev@.subrange(0, 8) =~= frev@);
            assert(out@ =~= amount_btc_str_spec(self.sats));
        }
        out
    }
}

/// Amount round trip: the canonical rendering of any satoshi count is well
/// formed and decodes back to the same count.
pub proof fn lemma_amount_round_trip(sats: u64)
    ensures
        amount_wf(amount_btc_str_spec(sats)),
        amount_sats_spec(amount_btc_str_spec(sats)) == sats,
{
    let q = sats as int / 100_000_000;
    let f = sats as int % 100_000_000;
    vstd::arithmetic::div_mod::lemma_fundamental_div_mod(sats as int, 100_000_000);
    lemma_dec_str_spec_props(q);
    assert(pow10(8nat) == 100_000_000) by {
        reveal_with_fuel(vstd::arithmetic::power::pow, 9);
    }
    lemma_dec_str_pad_props(f, 8);
    let enc = amount_btc_str_spec(sats);
    let k = dec_str_spec(q).len() as int;
    assert(enc[k] == '.');
    assert(enc.take(k) =~= dec_str_spec(q));
    assert(enc.skip(k + 1) =~= dec_str_pad_spec(f, 8));
    assert(amount_split_at(enc, k));
    assert(enc.len() - k - 1 == 8);
    assert(amount_wf(enc));
    assert(!(enc.len() >= 1 && all_dec_digits(enc))) by {
        assert(!is_dec_digit(enc[k]));
    }
    let kc = choose|kc: int| amount_split_at(enc, kc);
    lemma_amount_split_unique(enc, k, kc);
    assert(pow10(0nat) == 1) by {
        vstd::arithmetic::power::lemma_pow0(10);
    }
}

/// A nonnegative integer-part value only grows when scaled to satoshis.
proof fn lemma_int_times_sats_grows(v: int)
    requires
        v >= 0,
    ensures
        v * 100_000_000 >= v,
{
    vstd::arithmetic::mul::lemma_mul_inequality(1, 100_000_000, v);
}

/// Scaling above `u64::MAX / 10^8` overflows `u64` satoshis.
proof fn lemma_sats_overflow(v: int)
    requires
        v > u64::MAX as int / 100_000_000,
    ensures
        v * 100_000_000 > u64::MAX,
{
    let q = u64::MAX as int / 100_000_000;
    vstd::arithmetic::div_mod::lemma_fundamental_div_mod(u64::MAX as int, 100_000_000);
    vstd::arithmetic::mul::lemma_mul_inequality(q + 1, v, 100_000_000);
}

/// Scaling at most `u64::MAX / 10^8` fits in `u64` satoshis.
proof fn lemma_sats_fits(v: int)
    requires
        0 <= v <= u64::MAX as int / 100_000_000,
    ensures
        v * 100_000_000 <= u64::MAX,
{
    let q = u64::MAX as int / 100_000_000;
    vstd::arithmetic::div_mod::lemma_fundamental_div_mod(u64::MAX as int, 100_000_000);
    vstd::arithmetic::mul::lemma_mul_inequality(v, q, 100_000_000);
}

/// An integer part too large for `u64` makes the whole amount overflow.
proof fn lemma_split_overflow_int_part(s: Seq<char>, k: int)
    requires
        amount_split_at(s, k),
        s.len() - k - 1 <= 8,
        dec_seq_value(s.take(k)) > u64::MAX,
        amount_split_at(s, choose|kc: int| amount_split_at(s, kc)) ==> (choose|kc: int|
            amount_split_at(s, kc)) == k,
    ensures
        amount_sats_spec(s) > u64::MAX,
{
    assert(!all_dec_digits(s)) by {
        assert(s[k] == '.');
    }
    let iv = dec_seq_value(s.take(k));
    let fv = dec_seq_value(s.skip(k + 1));
    assert(all_dec_digits(s.skip(k + 1)));
    lemma_dec_seq_value_bounds(s.skip(k + 1));
    vstd::arithmetic::power::lemma_pow_positive(10, (8 - (s.len() - k - 1)) as nat);
    lemma_int_times_sats_grows(iv);
    vstd::arithmetic::mul::lemma_mul_inequality(0, fv, pow10((8 - (s.len() - k - 1)) as nat));
}

/// A fractional value scaled to eight digits stays below `10^8`.
proof fn lemma_frac_scaled_bound(fv: int, flen: nat)
    requires
        1 <= flen <= 8,
        0 <= fv < pow10(flen),
    ensures
        fv * pow10((8 - flen) as nat) < 100_000_000,
        fv * pow10((8 - flen) as nat) >= 0,
{
    let p = pow10((8 - flen) as nat);
    vstd::arithmetic::power::lemma_pow_positive(10, (8 - flen) as nat);
    vstd::arithmetic::mul::lemma_mul_inequality(fv, pow10(flen) - 1, p);
    assert((pow10(flen) - 1) * p == pow10(flen) * p - p) by {
        vstd::arithmetic::mul::lemma_mul_is_distributive_sub_other_way(p, pow10(flen), 1);
    }
    assert(pow10(flen) * p == pow10(8nat)) by {
        vstd::arithmetic::power::lemma_pow_adds(10, flen, (8 - flen) as nat);
    }
    assert(pow10(8nat) == 100_000_000) by {
        reveal_with_fuel(vstd::arithmetic::power::pow, 9);
    }
    vstd::arithmetic::mul::lemma_mul_nonnegative(fv, p);
}

/// The overflow test for a split amount is exact: above the quotient the sum
/// exceeds `u64::MAX`.
proof fn lemma_split_sats_overflow(iv: int, fs: int)
    requires
        0 <= fs <= u64::MAX,
        iv > (u64::MAX - fs) / 100_000_000,
    ensures
        iv * 100_000_000 + fs > u64::MAX,
{
    let q = (u64::MAX - fs) / 100_000_000;
    vstd::arithmetic::div_mod::lemma_fundamental_div_mod(u64::MAX - fs, 100_000_000);
    vstd::arithmetic::mul::lemma_mul_inequality(q + 1, iv, 100_000_000);
}

/// The overflow test for a split amount is exact: at or below the quotient
/// the sum fits.
proof fn lemma_split_sats_fits(iv: int, fs: int)
    requires
        0 <= fs <= u64::MAX,
        0 <= iv <= (u64::MAX - fs) / 100_000_000,
    ensures
        iv * 100_000_000 + fs <= u64::MAX,
{
    let q = (u64::MAX - fs) / 100_000_000;
    vstd::arithmetic::div_mod::lemma_fundamental_div_mod(u64::MAX - fs, 100_000_000);
    vstd::arithmetic::mul::lemma_mul_inequality(iv, q, 100_000_000);
}

} // verus!
