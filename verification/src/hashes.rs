//! Fixed-width hash values. The double-SHA256 identifiers (block hashes,
//! transaction ids, merkle nodes) travel as reversed hex: the wire string
//! shows the bytes in display order, the reverse of internal storage order.
//! Single SHA256 and RIPEMD160 digests travel as plain forward hex.

use vstd::prelude::*;

use crate::error::DecodeError;
use crate::hex::{
    fixed_hex_error, hex_decode_fixed, hex_decode_spec, hex_encode, hex_encode_spec, is_hex_seq,
    reversed_hex_decode_fixed, reversed_hex_decode_spec, reversed_hex_encode_fixed,
    reversed_hex_encode_spec,
};

verus! {

/// Hash of a block, stored in internal byte order.
#[derive(Clone, Copy, Debug, PartialEq, Eq)]
pub struct BlockHash(pub [u8; 32]);

/// Id of a transaction, stored in internal byte order.
#[derive(Clone, Copy, Debug, PartialEq, Eq)]
pub struct Txid(pub [u8; 32]);

/// Witness id of a transaction, stored in internal byte order.
#[derive(Clone, Copy, Debug, PartialEq, Eq)]
pub struct Wtxid(pub [u8; 32]);

/// Node of a transaction merkle tree, stored in internal byte order.
#[derive(Clone, Copy, Debug, PartialEq, Eq)]
pub struct TxMerkleNode(pub [u8; 32]);

/// A single-SHA256 digest, stored and rendered in forward order.
#[derive(Clone, Copy, Debug, PartialEq, Eq)]
pub struct Sha256Hash(pub [u8; 32]);

/// A RIPEMD160 digest, stored and rendered in forward order.
#[derive(Clone, Copy, Debug, PartialEq, Eq)]
pub struct Ripemd160Hash(pub [u8; 20]);

impl BlockHash {
    /// Parses the sixty-four-digit reversed-hex wire form.
    pub fn from_hex(s: &str) -> (r: Result<Self, DecodeError>)
        ensures
            r is Ok <==> s@.len() == 64 && is_hex_seq(s@),
            r matches Ok(h) ==> h.0@ == reversed_hex_decode_spec(s@),
            r matches Err(e) ==> e == fixed_hex_error(s@, 32),
    {
        match reversed_hex_decode_fixed::<32>(s) {
            Ok(a) => Ok(BlockHash(a)),
            Err(e) => Err(e),
        }
    }

    /// Renders the reversed-hex wire form.
    pub fn to_hex(&self) -> (r: String)
        ensures
            r@ == reversed_hex_encode_spec(self.0@),
    {
        reversed_hex_encode_fixed::<32>(&self.0)
    }

    /// The all-zero hash, the wire default for a missing previous-block
    /// field.
    pub fn all_zeros() -> (r: Self)
        ensures
            r.0@ == Seq::new(32, |i: int| 0u8),
    {
        let a = vstd::array::array_fill_for_copy_types::<u8, 32>(0);
        proof {
            assert(a@ =~= Seq::new(32, |i: int| 0u8));
        }
        BlockHash(a)
    }
}

impl Txid {
    /// Parses the sixty-four-digit reversed-hex wire form.
    pub fn from_hex(s: &str) -> (r: Result<Self, DecodeError>)
        ensures
            r is Ok <==> s@.len() == 64 && is_hex_seq(s@),
            r matches Ok(h) ==> h.0@ == reversed_hex_decode_spec(s@),
            r matches Err(e) ==> e == fixed_hex_error(s@, 32),
    {
        match reversed_hex_decode_fixed::<32>(s) {
            Ok(a) => Ok(Txid(a)),
            Err(e) => Err(e),
        }
    }

    /// Renders the reversed-hex wire form.
    pub fn to_hex(&self) -> (r: String)
        ensures
            r@ == reversed_hex_encode_spec(self.0@),
    {
        reversed_hex_encode_fixed::<32>(&self.0)
    }
}

impl Wtxid {
    /// Parses the sixty-four-digit reversed-hex wire form.
    pub fn from_hex(s: &str) -> (r: Result<Self, DecodeError>)
        ensures
            r is Ok <==> s@.len() == 64 && is_hex_seq(s@),
            r matches Ok(h) ==> h.0@ == reversed_hex_decode_spec(s@),
            r matches Err(e) ==> e == fixed_hex_error(s@, 32),
    {
        match reversed_hex_decode_fixed::<32>(s) {
            Ok(a) => Ok(Wtxid(a)),
            Err(e) => Err(e),
        }
    }

    /// Renders the reversed-hex wire form.
    pub fn to_hex(&self) -> (r: String)
        ensures
            r@ == reversed_hex_encode_spec(self.0@),
    {
        reversed_hex_encode_fixed::<32>(&self.0)
    }
}

impl TxMerkleNode {
    /// Parses the sixty-four-digit reversed-hex wire form.
    pub fn from_hex(s: &str) -> (r: Result<Self, DecodeError>)
        ensures
            r is Ok <==> s@.len() == 64 && is_hex_seq(s@),
            r matches Ok(h) ==> h.0@ == reversed_hex_decode_spec(s@),
            r matches Err(e) ==> e == fixed_hex_error(s@, 32),
    {
        match reversed_hex_decode_fixed::<32>(s) {
            Ok(a) => Ok(TxMerkleNode(a)),
            Err(e) => Err(e),
        }
    }

    /// Renders the reversed-hex wire form.
    pub fn to_hex(&self) -> (r: String)
        ensures
            r@ == reversed_hex_encode_spec(self.0@),
    {
        reversed_hex_encode_fixed::<32>(&self.0)
    }
}

impl Sha256Hash {
    /// Parses the sixty-four-digit forward-hex wire form.
    pub fn from_hex(s: &str) -> (r: Result<Self, DecodeError>)
        ensures
            r is Ok <==> s@.len() == 64 && is_hex_seq(s@),
            r matches Ok(h) ==> h.0@ == hex_decode_spec(s@),
            r matches Err(e) ==> e == fixed_hex_error(s@, 32),
    {
        match hex_decode_fixed::<32>(s) {
            Ok(a) => Ok(Sha256Hash(a)),
            Err(e) => Err(e),
        }
    }

    /// Renders the forward-hex wire form.
    pub fn to_hex(&self) -> (r: String)
        ensures
            r@ == hex_encode_spec(self.0@),
    {
        hex_encode(self.0.as_slice())
    }
}

impl Ripemd160Hash {
    /// Parses the forty-digit forward-hex wire form.
    pub fn from_hex(s: &str) -> (r: Result<Self, DecodeError>)
        ensures
            r is Ok <==> s@.len() == 40 && is_hex_seq(s@),
            r matches Ok(h) ==> h.0@ == hex_decode_spec(s@),
            r matches Err(e) ==> e == fixed_hex_error(s@, 20),
    {
        match hex_decode_fixed::<20>(s) {
            Ok(a) => Ok(Ripemd160Hash(a)),
            Err(e) => Err(e),
        }
    }

    /// Renders the forward-hex wire form.
    pub fn to_hex(&self) -> (r: String)
        ensures
            r@ == hex_encode_spec(self.0@),
    {
        hex_encode(self.0.as_slice())
    }
}

} // verus!
