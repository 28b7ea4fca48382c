//! Tagged commitment records: the discriminated-union entries embedded in a
//! block's coinbase output that carry sidechain protocol data.
//!
//! Each wire record is an object with a `type` tag, a `txout` output index,
//! and tag-specific extra fields. The tag set is closed: a record whose tag
//! is outside it is a decode error, never a skipped entry.

use vstd::prelude::*;

use crate::error::{CommitmentField, DecodeError};
use crate::text::str_eq;
use crate::hex::{
    fixed_hex_error, hex_decode_fixed, hex_decode_spec, is_hex_seq, reversed_hex_decode_fixed,
    reversed_hex_decode_spec,
};

verus! {

/// One-byte index of a sidechain slot.
#[derive(Clone, Copy, Debug, PartialEq, Eq, Structural)]
pub struct SidechainId(pub u8);

/// One commitment from a block's coinbase, as strongly-typed domain data.
/// The variants form the closed set of recognized `type` tags.
#[derive(Clone, Debug, PartialEq, Eq)]
pub enum BlockCommitment {
    /// A mined BMM request commitment: 32 commitment bytes, the requesting
    /// sidechain, and four bytes of the previous block hash.
    BmmHStar { commitment: [u8; 32], sidechain_id: SidechainId, prev_bytes: [u8; 4] },
    /// Raw SCDB update script bytes, kept as the wire text.
    ScdbUpdateBytes { script: String },
    /// An acknowledgement of a sidechain activation proposal.
    SidechainActivationAck { commitment: [u8; 32] },
    /// A sidechain proposal marker with no extra payload.
    SidechainProposal,
    /// A withdrawal bundle hash for one sidechain.
    WithdrawalBundleHash { commitment: [u8; 32], sidechain_id: SidechainId },
    /// A segwit witness commitment script, kept as the wire text.
    WitnessCommitment { script: String },
}

/// Wire form of one commitment record: the `type` tag, the `txout` output
/// index, and whichever extra fields the record carried. Fields keep their
/// wire names; a field the record did not carry is `None`.
#[derive(Clone, Debug)]
pub struct RawBlockCommitment {
    pub txout: u32,
    pub commitment_type: String,
    pub h: Option<String>,
    pub hash: Option<String>,
    pub nsidechain: Option<u8>,
    pub prevbytes: Option<String>,
    pub script: Option<String>,
}

/// The tag of a mined BMM request.
pub open spec fn bmm_hstar_tag() -> Seq<char> {
    "BMM h*"@
}

/// The tag of an SCDB update bytes record.
pub open spec fn scdb_update_bytes_tag() -> Seq<char> {
    "SCDB update bytes"@
}

/// The tag of a sidechain activation acknowledgement.
pub open spec fn sidechain_activation_ack_tag() -> Seq<char> {
    "Sidechain activation ack"@
}

/// The tag of a sidechain proposal.
pub open spec fn sidechain_proposal_tag() -> Seq<char> {
    "Sidechain proposal"@
}

/// The tag of a withdrawal bundle hash.
pub open spec fn withdrawal_bundle_hash_tag() -> Seq<char> {
    "Withdrawal bundle hash"@
}

/// The tag of a witness commitment.
pub open spec fn witness_commitment_tag() -> Seq<char> {
    "Witness commitment"@
}

/// The closed set of recognized tags.
pub open spec fn known_commitment_tag(tag: Seq<char>) -> bool {
    ||| tag == bmm_hstar_tag()
    ||| tag == scdb_update_bytes_tag()
    ||| tag == sidechain_activation_ack_tag()
    ||| tag == sidechain_proposal_tag()
    ||| tag == withdrawal_bundle_hash_tag()
    ||| tag == witness_commitment_tag()
}

/// A present field holding exactly `n` bytes of well-formed hex.
pub open spec fn fixed_hex_field(f: Option<String>, n: int) -> bool {
    f matches Some(s) && s@.len() == 2 * n && is_hex_seq(s@)
}

/// The record's tag is recognized and every field that the tag requires is
/// present and well formed.
pub open spec fn commitment_decodable(raw: RawBlockCommitment) -> bool {
    let tag = raw.commitment_type@;
    if tag == bmm_hstar_tag() {
        fixed_hex_field(raw.h, 32) && raw.nsidechain is Some && fixed_hex_field(raw.prevbytes, 4)
    } else if tag == scdb_update_bytes_tag() {
        raw.script is Some
    } else if tag == sidechain_activation_ack_tag() {
        fixed_hex_field(raw.hash, 32)
    } else if tag == sidechain_proposal_tag() {
        true
    } else if tag == withdrawal_bundle_hash_tag() {
        fixed_hex_field(raw.hash, 32) && raw.nsidechain is Some
    } else if tag == witness_commitment_tag() {
        raw.script is Some
    } else {
        false
    }
}

/// The decoded pair carries the record's own `txout` index and the variant
/// that its tag selects, with every payload field decoded byte-exactly.
pub open spec fn commitment_value_matches(raw: RawBlockCommitment, out: (u32, BlockCommitment)) -> bool {
    let tag = raw.commitment_type@;
    &&& out.0 == raw.txout
    &&& if tag == bmm_hstar_tag() {
        out.1 matches BlockCommitment::BmmHStar { commitment, sidechain_id, prev_bytes }
            && commitment@ == reversed_hex_decode_spec(raw.h->0@) && sidechain_id == SidechainId(
            raw.nsidechain->0,
        ) && prev_bytes@ == hex_decode_spec(raw.prevbytes->0@)
    } else if tag == scdb_update_bytes_tag() {
        out.1 matches BlockCommitment::ScdbUpdateBytes { script } && script@ == raw.script->0@
    } else if tag == sidechain_activation_ack_tag() {
        out.1 matches BlockCommitment::SidechainActivationAck { commitment } && commitment@
            == reversed_hex_decode_spec(raw.hash->0@)
    } else if tag == sidechain_proposal_tag() {
        out.1 is SidechainProposal
    } else if tag == withdrawal_bundle_hash_tag() {
        out.1 matches BlockCommitment::WithdrawalBundleHash { commitment, sidechain_id }
            && commitment@ == reversed_hex_decode_spec(raw.hash->0@) && sidechain_id
            == SidechainId(raw.nsidechain->0)
    } else if tag == witness_commitment_tag() {
        out.1 matches BlockCommitment::WitnessCommitment { script } && script@ == raw.script->0@
    } else {
        false
    }
}

/// The error a non-decodable record produces: an unknown tag first, then the
/// tag's required fields in order, each reported missing or malformed.
pub open spec fn commitment_error_spec(raw: RawBlockCommitment) -> DecodeError
    recommends
        !commitment_decodable(raw),
{
    let tag = raw.commitment_type@;
    if !known_commitment_tag(tag) {
        DecodeError::UnknownCommitmentType
    } else if tag == bmm_hstar_tag() {
        if raw.h is None {
            DecodeError::MissingField { field: CommitmentField::H }
        } else if !fixed_hex_field(raw.h, 32) {
            fixed_hex_error(raw.h->0@, 32)
        } else if raw.nsidechain is None {
            DecodeError::MissingField { field: CommitmentField::Nsidechain }
        } else if raw.prevbytes is None {
            DecodeError::MissingField { field: CommitmentField::Prevbytes }
        } else {
            fixed_hex_error(raw.prevbytes->0@, 4)
        }
    } else if tag == scdb_update_bytes_tag() {
        DecodeError::MissingField { field: CommitmentField::Script }
    } else if tag == sidechain_activation_ack_tag() {
        if raw.hash is None {
            DecodeError::MissingField { field: CommitmentField::Hash }
        } else {
            fixed_hex_error(raw.hash->0@, 32)
        }
    } else if tag == sidechain_proposal_tag() {
        // A proposal record always decodes; no error arises here.
        DecodeError::UnknownCommitmentType
    } else if tag == withdrawal_bundle_hash_tag() {
        if raw.hash is None {
            DecodeError::MissingField { field: CommitmentField::Hash }
        } else if !fixed_hex_field(raw.hash, 32) {
            fixed_hex_error(raw.hash->0@, 32)
        } else {
            DecodeError::MissingField { field: CommitmentField::Nsidechain }
        }
    } else {
        DecodeError::MissingField { field: CommitmentField::Script }
    }
}

/// Decodes one tagged commitment record into its output index and variant.
/// Succeeds exactly on a recognized tag with its required fields present and
/// well formed; reports the first failing field otherwise.
pub fn decode_block_commitment(raw: &RawBlockCommitment) -> (r: Result<
    (u32, BlockCommitment),
    DecodeError,
>)
    ensures
        r is Ok <==> commitment_decodable(*raw),
        r matches Ok(out) ==> commitment_value_matches(*raw, out),
        r matches Err(e) ==> e == commitment_error_spec(*raw),
{
    if str_eq(&raw.commitment_type, "BMM h*") {
        let h = match &raw.h {
            Some(h) => h,
            None => {
                return Err(DecodeError::MissingField { field: CommitmentField::H });
            },
        };
        let commitment = match reversed_hex_decode_fixed::<32>(h.as_str()) {
            Ok(c) => c,
            Err(e) => {
                return Err(e);
            },
        };
        let sidechain_id = match raw.nsidechain {
            Some(n) => SidechainId(n),
            None => {
                return Err(DecodeError::MissingField { field: CommitmentField::Nsidechain });
            },
        };
        let prev = match &raw.prevbytes {
            Some(p) => p,
            None => {
                return Err(DecodeError::MissingField { field: CommitmentField::Prevbytes });
            },
        };
        let prev_bytes = match hex_decode_fixed::<4>(prev.as_str()) {
            Ok(p) => p,
            Err(e) => {
                return Err(e);
            },
        };
        Ok((raw.txout, BlockCommitment::BmmHStar { commitment, sidechain_id, prev_bytes }))
    } else if str_eq(&raw.commitment_type, "SCDB update bytes") {
        match &raw.script {
            Some(script) => Ok(
                (raw.txout, BlockCommitment::ScdbUpdateBytes { script: script.clone() }),
            ),
            None => Err(DecodeError::MissingField { field: CommitmentField::Script }),
        }
    } else if str_eq(&raw.commitment_type, "Sidechain activation ack") {
        let h = match &raw.hash {
            Some(h) => h,
            None => {
                return Err(DecodeError::MissingField { field: CommitmentField::Hash });
            },
        };
        match reversed_hex_decode_fixed::<32>(h.as_str()) {
            Ok(commitment) => Ok(
                (raw.txout, BlockCommitment::SidechainActivationAck { commitment }),
            ),
            Err(e) => Err(e),
        }
    } else if str_eq(&raw.commitment_type, "Sidechain proposal") {
        Ok((raw.txout, BlockCommitment::SidechainProposal))
    } else if str_eq(&raw.commitment_type, "Withdrawal bundle hash") {
        let h = match &raw.hash {
            Some(h) => h,
            None => {
                return Err(DecodeError::MissingField { field: CommitmentField::Hash });
            },
        };
        let commitment = match reversed_hex_decode_fixed::<32>(h.as_str()) {
            Ok(c) => c,
            Err(e) => {
                return Err(e);
            },
        };
        match raw.nsidechain {
            Some(n) => Ok(
                (
                    raw.txout,
                    BlockCommitment::WithdrawalBundleHash {
                        commitment,
                        sidechain_id: SidechainId(n),
                    },
                ),
            ),
            None => Err(DecodeError::MissingField { field: CommitmentField::Nsidechain }),
        }
    } else if str_eq(&raw.commitment_type, "Witness commitment") {
        match &raw.script {
            Some(script) => Ok(
                (raw.txout, BlockCommitment::WitnessCommitment { script: script.clone() }),
            ),
            None => Err(DecodeError::MissingField { field: CommitmentField::Script }),
        }
    } else {
        Err(DecodeError::UnknownCommitmentType)
    }
}

/// The commitments of one block, each with the coinbase output index it came
/// from, in wire order.
#[derive(Clone, Debug, PartialEq, Eq)]
pub struct BlockCommitments(pub Vec<(u32, BlockCommitment)>);

/// Every record of the array decodes.
pub open spec fn commitments_all_decodable(raws: Seq<RawBlockCommitment>) -> bool {
    forall|i: int| 0 <= i < raws.len() ==> commitment_decodable(#[trigger] raws[i])
}

impl BlockCommitments {
    /// Decodes a whole commitment array. Order is preserved, every record's
    /// `txout` index is kept verbatim, and the first bad record fails the
    /// whole array: an unrecognized tag is an error, never a dropped entry.
    pub fn decode(raws: &Vec<RawBlockCommitment>) -> (r: Result<BlockCommitments, DecodeError>)
        ensures
            r is Ok <==> commitments_all_decodable(raws@),
            r matches Ok(out) ==> out.0@.len() == raws@.len() && (forall|i: int|
                0 <= i < raws@.len() ==> commitment_value_matches(
                    #[trigger] raws@[i],
                    out.0@[i],
                )),
            r matches Err(e) ==> exists|i: int|
                0 <= i < raws@.len() && !commitment_decodable(#[trigger] raws@[i]) && (forall|
                    j: int,
                |
                    0 <= j < i ==> commitment_decodable(#[trigger] raws@[j])) && e
                    == commitment_error_spec(raws@[i]),
    {
        let mut out: Vec<(u32, BlockCommitment)> = Vec::new();
        let mut i: usize = 0;
        while i < raws.len()
            invariant
                i <= raws@.len(),
                out@.len() == i,
                forall|j: int| 0 <= j < i ==> commitment_decodable(#[trigger] raws@[j]),
                forall|j: int|
                    0 <= j < i ==> commitment_value_matches(#[trigger] raws@[j], out@[j]),
            decreases raws@.len() - i,
        {
            match decode_block_commitment(&raws[i]) {
                Ok(pair) => {
                    out.push(pair);
                },
                Err(e) => {
                    return Err(e);
                },
            }
            i = i + 1;
        }
        Ok(BlockCommitments(out))
    }
}

} // verus!
