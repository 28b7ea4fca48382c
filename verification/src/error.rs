use vstd::prelude::*;

verus! {

/// Field of a tagged commitment record that a decoder can report as missing.
#[derive(Clone, Copy, Debug, PartialEq, Eq, Structural)]
pub enum CommitmentField {
    H,
    Hash,
    Nsidechain,
    Prevbytes,
    Script,
}

/// Error produced while decoding a wire value into a domain value.
///
/// Every decode failure is local and permanent: a malformed wire payload is
/// never retried and never silently replaced by a default value.
#[derive(Clone, Copy, Debug, PartialEq, Eq, Structural)]
pub enum DecodeError {
    /// A hex string of variable width had an odd number of digits.
    OddHexLength,
    /// A hex string held a character outside `0-9a-fA-F`.
    InvalidHexChar,
    /// A fixed-width field got the wrong number of hex digits.
    /// Both counts are in hex digits, not bytes.
    WrongLength { expected: usize, actual: usize },
    /// The `type` tag of a commitment record is outside the closed set.
    UnknownCommitmentType,
    /// A commitment record lacked a field that its `type` tag requires.
    MissingField { field: CommitmentField },
    /// A numeric hex field held no digits at all.
    EmptyInput,
    /// A numeric field parsed, but its value does not fit the target type.
    ValueOutOfRange,
    /// A witness parameter was built from a wire value other than its literal.
    WitnessMismatch,
    /// An amount string is not of the form `digits` or `digits.digits`.
    AmountMalformed,
    /// An amount string carries more than eight fractional digits.
    AmountTooPrecise,
    /// An amount string is well formed but its value does not fit in `u64`
    /// satoshis.
    AmountOverflow,
    /// A network name is not one of the four core network arguments.
    UnknownNetwork,
}

} // verus!
