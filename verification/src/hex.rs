//! Hex codec: fixed- and variable-length byte sequences to and from
//! lowercase hex strings, plus the reversed-byte variant used by hash-like
//! wire fields that report their bytes in display order.

use vstd::prelude::*;

use crate::error::DecodeError;
use crate::text::push_char;

verus! {

/// A hexadecimal digit, upper or lower case.
pub open spec fn is_hex_digit(c: char) -> bool {
    ('0' <= c && c <= '9') || ('a' <= c && c <= 'f') || ('A' <= c && c <= 'F')
}

/// Numeric value of a hex digit.
pub open spec fn hex_digit_value(c: char) -> int
    recommends
        is_hex_digit(c),
{
    if '0' <= c && c <= '9' {
        c as int - '0' as int
    } else if 'a' <= c && c <= 'f' {
        10 + c as int - 'a' as int
    } else {
        10 + c as int - 'A' as int
    }
}

/// Lowercase hex digit for a value below sixteen.
pub open spec fn hex_char_lower(v: int) -> char
    recommends
        0 <= v < 16,
{
    if v == 0 {
        '0'
    } else if v == 1 {
        '1'
    } else if v == 2 {
        '2'
    } else if v == 3 {
        '3'
    } else if v == 4 {
        '4'
    } else if v == 5 {
        '5'
    } else if v == 6 {
        '6'
    } else if v == 7 {
        '7'
    } else if v == 8 {
        '8'
    } else if v == 9 {
        '9'
    } else if v == 10 {
        'a'
    } else if v == 11 {
        'b'
    } else if v == 12 {
        'c'
    } else if v == 13 {
        'd'
    } else if v == 14 {
        'e'
    } else {
        'f'
    }
}

/// Every character of `s` is a hex digit.
pub open spec fn is_hex_seq(s: Seq<char>) -> bool {
    forall|i: int| 0 <= i < s.len() ==> is_hex_digit(#[trigger] s[i])
}

/// The lowercase hex rendering of `bytes`: two digits per byte, high nibble
/// first.
pub open spec fn hex_encode_spec(bytes: Seq<u8>) -> Seq<char> {
    Seq::new(
        bytes.len() * 2,
        |i: int|
            if i % 2 == 0 {
                hex_char_lower(bytes[i / 2] as int / 16)
            } else {
                hex_char_lower(bytes[i / 2] as int % 16)
            },
    )
}

/// The bytes denoted by an even-length hex string.
pub open spec fn hex_decode_spec(s: Seq<char>) -> Seq<u8>
    recommends
        s.len() % 2 == 0,
        is_hex_seq(s),
{
    Seq::new(
        s.len() / 2,
        |i: int| (16 * hex_digit_value(s[2 * i]) + hex_digit_value(s[2 * i + 1])) as u8,
    )
}

/// Case-insensitive normalization of a hex string to lowercase.
pub open spec fn hex_lower_spec(s: Seq<char>) -> Seq<char>
    recommends
        is_hex_seq(s),
{
    Seq::new(s.len(), |i: int| hex_char_lower(hex_digit_value(s[i])))
}

/// Numeric value of one hex character, or `None` outside `0-9a-fA-F`.
pub fn hex_char_value(c: char) -> (r: Option<u8>)
    ensures
        r is Some <==> is_hex_digit(c),
        r matches Some(v) ==> v < 16 && v as int == hex_digit_value(c),
{
    if '0' <= c && c <= '9' {
        Some((c as u8) - ('0' as u8))
    } else if 'a' <= c && c <= 'f' {
        Some(10 + (c as u8) - ('a' as u8))
    } else if 'A' <= c && c <= 'F' {
        Some(10 + (c as u8) - ('A' as u8))
    } else {
        None
    }
}

/// Lowercase hex character of a nibble.
pub fn hex_char_of(v: u8) -> (c: char)
    requires
        v < 16,
    ensures
        c == hex_char_lower(v as int),
{
    if v == 0 {
        '0'
    } else if v == 1 {
        '1'
    } else if v == 2 {
        '2'
    } else if v == 3 {
        '3'
    } else if v == 4 {
        '4'
    } else if v == 5 {
        '5'
    } else if v == 6 {
        '6'
    } else if v == 7 {
        '7'
    } else if v == 8 {
        '8'
    } else if v == 9 {
        '9'
    } else if v == 10 {
        'a'
    } else if v == 11 {
        'b'
    } else if v == 12 {
        'c'
    } else if v == 13 {
        'd'
    } else if v == 14 {
        'e'
    } else {
        'f'
    }
}

/// Renders bytes as a lowercase hex string, two digits per byte.
pub fn hex_encode(bytes: &[u8]) -> (r: String)
    ensures
        r@ == hex_encode_spec(bytes@),
{
    let mut r = String::new();
    let mut i: usize = 0;
    while i < bytes.len()
        invariant
            i <= bytes@.len(),
            r@ == hex_encode_spec(bytes@.take(i as int)),
        decreases bytes@.len() - i,
    {
        let b = bytes[i];
        push_char(&mut r, hex_char_of(b / 16));
        push_char(&mut r, hex_char_of(b % 16));
        i = i + 1;
        proof {
            assert(r@ =~= hex_encode_spec(bytes@.take(i as int)));
        }
    }
    proof {
        assert(bytes@.take(bytes@.len() as int) =~= bytes@);
    }
    r
}

/// Parses a hex string of any even length into its bytes. Rejects an odd
/// number of digits and any character outside `0-9a-fA-F`.
pub fn hex_decode(s: &str) -> (r: Result<Vec<u8>, DecodeError>)
    ensures
        r is Ok <==> s@.len() % 2 == 0 && is_hex_seq(s@),
        r matches Ok(v) ==> v@ == hex_decode_spec(s@),
        r matches Err(e) ==> (e == DecodeError::OddHexLength <==> s@.len() % 2 != 0),
        r matches Err(e) ==> (s@.len() % 2 == 0 ==> e == DecodeError::InvalidHexChar),
{
    let n = s.unicode_len();
    if n % 2 != 0 {
        return Err(DecodeError::OddHexLength);
    }
    let mut out: Vec<u8> = Vec::new();
    let mut i: usize = 0;
    while i < n
        invariant
            n == s@.len(),
            n % 2 == 0,
            i % 2 == 0,
            i <= n,
            out@.len() == i / 2,
            forall|j: int| 0 <= j < i ==> is_hex_digit(#[trigger] s@[j]),
            forall|j: int|
                0 <= j < i / 2 ==> (#[trigger] out@[j]) as int == 16 * hex_digit_value(
                    s@[2 * j],
                ) + hex_digit_value(s@[2 * j + 1]),
        decreases n - i,
    {
        let c1 = s.get_char(i);
        let c2 = s.get_char(i + 1);
        let v1 = match hex_char_value(c1) {
            Some(v) => v,
            None => {
                return Err(DecodeError::InvalidHexChar);
            },
        };
        let v2 = match hex_char_value(c2) {
            Some(v) => v,
            None => {
                return Err(DecodeError::InvalidHexChar);
            },
        };
        out.push(16 * v1 + v2);
        i = i + 2;
    }
    proof {
        assert(out@ =~= hex_decode_spec(s@));
    }
    Ok(out)
}

/// The reversed-hex rendering of `bytes`: the bytes in reverse order, then
/// hex. Hash-like wire fields use it to report display order.
pub open spec fn reversed_hex_encode_spec(bytes: Seq<u8>) -> Seq<char> {
    hex_encode_spec(bytes.reverse())
}

/// The bytes denoted by a reversed-hex string: hex-decode, then reverse.
pub open spec fn reversed_hex_decode_spec(s: Seq<char>) -> Seq<u8>
    recommends
        s.len() % 2 == 0,
        is_hex_seq(s),
{
    hex_decode_spec(s).reverse()
}

/// Parses a hex string into exactly `N` bytes. The digit count must be
/// exactly `2 * N`; a wrong count is reported before any digit is examined.
pub fn hex_decode_fixed<const N: usize>(s: &str) -> (r: Result<[u8; N], DecodeError>)
    requires
        N <= usize::MAX / 2,
    ensures
        r is Ok <==> s@.len() == 2 * N && is_hex_seq(s@),
        r matches Ok(a) ==> a@ == hex_decode_spec(s@),
        r matches Err(e) ==> (if s@.len() != 2 * N {
            e == (DecodeError::WrongLength { expected: (2 * N) as usize, actual: s@.len() as usize })
        } else {
            e == DecodeError::InvalidHexChar
        }),
{
    let n = s.unicode_len();
    if n % 2 != 0 || n / 2 != N {
        return Err(DecodeError::WrongLength { expected: 2 * N, actual: n });
    }
    let v = match hex_decode(s) {
        Ok(v) => v,
        Err(e) => {
            return Err(e);
        },
    };
    let mut a: [u8; N] = vstd::array::array_fill_for_copy_types::<u8, N>(0);
    let mut i: usize = 0;
    while i < N
        invariant
            i <= N,
            v@.len() == N,
            v@ == hex_decode_spec(s@),
            forall|j: int| 0 <= j < i ==> a@[j] == v@[j],
        decreases N - i,
    {
        a[i] = v[i];
        i = i + 1;
    }
    proof {
        assert(a@ =~= hex_decode_spec(s@));
    }
    Ok(a)
}

/// Parses a reversed-hex string into exactly `N` bytes: hex-decode, then
/// reverse the byte order.
pub fn reversed_hex_decode_fixed<const N: usize>(s: &str) -> (r: Result<
    [u8; N],
    DecodeError,
>)
    requires
        N <= usize::MAX / 2,
    ensures
        r is Ok <==> s@.len() == 2 * N && is_hex_seq(s@),
        r matches Ok(a) ==> a@ == reversed_hex_decode_spec(s@),
        r matches Err(e) ==> (if s@.len() != 2 * N {
            e == (DecodeError::WrongLength { expected: (2 * N) as usize, actual: s@.len() as usize })
        } else {
            e == DecodeError::InvalidHexChar
        }),
{
    let fwd = match hex_decode_fixed::<N>(s) {
        Ok(a) => a,
        Err(e) => {
            return Err(e);
        },
    };
    let mut a: [u8; N] = vstd::array::array_fill_for_copy_types::<u8, N>(0);
    let mut i: usize = 0;
    while i < N
        invariant
            i <= N,
            fwd@.len() == N,
            fwd@ == hex_decode_spec(s@),
            forall|j: int| 0 <= j < i ==> a@[j] == fwd@[N - 1 - j],
        decreases N - i,
    {
        a[i] = fwd[N - 1 - i];
        i = i + 1;
    }
    proof {
        assert(a@ =~= reversed_hex_decode_spec(s@));
    }
    Ok(a)
}

/// Renders `N` bytes as a reversed-hex string: reverse the byte order, then
/// hex.
pub fn reversed_hex_encode_fixed<const N: usize>(a: &[u8; N]) -> (r: String)
    ensures
        r@ == reversed_hex_encode_spec(a@),
{
    let mut rev: Vec<u8> = Vec::new();
    let mut i: usize = 0;
    while i < N
        invariant
            i <= N,
            rev@.len() == i,
            forall|j: int| 0 <= j < i ==> rev@[j] == a@[N - 1 - j],
        decreases N - i,
    {
        rev.push(a[N - 1 - i]);
        i = i + 1;
    }
    proof {
        assert(rev@ =~= a@.reverse());
    }
    hex_encode(rev.as_slice())
}

/// A string holding exactly `n` bytes of well-formed hex.
pub open spec fn fixed_hex_ok(s: Seq<char>, n: int) -> bool {
    s.len() == 2 * n && is_hex_seq(s)
}

/// The error a fixed-width hex field reports: a digit-count mismatch first,
/// a bad character otherwise.
pub open spec fn fixed_hex_error(s: Seq<char>, n: int) -> DecodeError
    recommends
        !fixed_hex_ok(s, n),
{
    if s.len() != 2 * n {
        DecodeError::WrongLength { expected: (2 * n) as usize, actual: s.len() as usize }
    } else {
        DecodeError::InvalidHexChar
    }
}

/// The error a variable-length hex string reports: an odd digit count
/// first, a bad character otherwise.
pub open spec fn variable_hex_error(s: Seq<char>) -> DecodeError
    recommends
        !(s.len() % 2 == 0 && is_hex_seq(s)),
{
    if s.len() % 2 != 0 {
        DecodeError::OddHexLength
    } else {
        DecodeError::InvalidHexChar
    }
}

/// A value below sixteen is the value of its own lowercase hex digit.
pub proof fn lemma_hex_digit_char(v: int)
    requires
        0 <= v < 16,
    ensures
        is_hex_digit(hex_char_lower(v)),
        hex_digit_value(hex_char_lower(v)) == v,
{
}

/// A hex digit is unchanged by lowercasing except for its case.
pub proof fn lemma_hex_digit_value_bounds(c: char)
    requires
        is_hex_digit(c),
    ensures
        0 <= hex_digit_value(c) < 16,
{
}

/// The hex rendering of any byte sequence is a well-formed hex string of
/// even length.
pub proof fn lemma_hex_encode_wf(bytes: Seq<u8>)
    ensures
        hex_encode_spec(bytes).len() == 2 * bytes.len(),
        hex_encode_spec(bytes).len() % 2 == 0,
        is_hex_seq(hex_encode_spec(bytes)),
{
    assert forall|i: int| 0 <= i < hex_encode_spec(bytes).len() implies is_hex_digit(
        #[trigger] hex_encode_spec(bytes)[i],
    ) by {
        if i % 2 == 0 {
            lemma_hex_digit_char(bytes[i / 2] as int / 16);
        } else {
            lemma_hex_digit_char(bytes[i / 2] as int % 16);
        }
    }
}

/// Hex encoding loses nothing: decoding the rendering of any byte sequence
/// gives the bytes back.
pub proof fn lemma_hex_round_trip(bytes: Seq<u8>)
    ensures
        hex_decode_spec(hex_encode_spec(bytes)) == bytes,
{
    let enc = hex_encode_spec(bytes);
    assert forall|i: int| 0 <= i < bytes.len() implies hex_decode_spec(enc)[i] == bytes[i] by {
        assert(enc[2 * i] == hex_char_lower(bytes[i] as int / 16));
        assert(enc[2 * i + 1] == hex_char_lower(bytes[i] as int % 16));
        lemma_hex_digit_char(bytes[i] as int / 16);
        lemma_hex_digit_char(bytes[i] as int % 16);
    }
    assert(hex_decode_spec(enc) =~= bytes);
}

/// Hex decoding of a well-formed string loses only the case of its digits:
/// re-encoding gives the lowercase normalization of the input.
pub proof fn lemma_hex_lower_round_trip(s: Seq<char>)
    requires
        s.len() % 2 == 0,
        is_hex_seq(s),
    ensures
        hex_encode_spec(hex_decode_spec(s)) == hex_lower_spec(s),
{
    let dec = hex_decode_spec(s);
    let enc = hex_encode_spec(dec);
    assert forall|i: int| 0 <= i < s.len() implies enc[i] == hex_lower_spec(s)[i] by {
        let b = i / 2;
        lemma_hex_digit_value_bounds(s[2 * b]);
        lemma_hex_digit_value_bounds(s[2 * b + 1]);
        assert(dec[b] as int == 16 * hex_digit_value(s[2 * b]) + hex_digit_value(s[2 * b + 1]));
        if i % 2 == 0 {
            assert(enc[i] == hex_char_lower(dec[b] as int / 16));
            assert(dec[b] as int / 16 == hex_digit_value(s[i]));
        } else {
            assert(enc[i] == hex_char_lower(dec[b] as int % 16));
            assert(dec[b] as int % 16 == hex_digit_value(s[i]));
        }
    }
    assert(enc =~= hex_lower_spec(s));
}

/// Reversed-hex round trip: for every byte sequence, decoding the
/// reversed-hex rendering gives the bytes back unchanged.
pub proof fn lemma_reversed_hex_round_trip(bytes: Seq<u8>)
    ensures
        reversed_hex_decode_spec(reversed_hex_encode_spec(bytes)) == bytes,
{
    lemma_hex_round_trip(bytes.reverse());
    assert(hex_decode_spec(hex_encode_spec(bytes.reverse())) == bytes.reverse());
    assert(bytes.reverse().reverse() =~= bytes);
}

/// The other direction: re-encoding a decoded reversed-hex string loses
/// only the case of its digits.
pub proof fn lemma_reversed_hex_decode_then_encode(s: Seq<char>)
    requires
        s.len() % 2 == 0,
        is_hex_seq(s),
    ensures
        reversed_hex_encode_spec(reversed_hex_decode_spec(s)) == hex_lower_spec(s),
{
    assert(hex_decode_spec(s).reverse().reverse() =~= hex_decode_spec(s));
    lemma_hex_lower_round_trip(s);
}

} // verus!
