//! Verbosity witnesses and response resolution. A witness is a type that can
//! only be built from one specific literal wire value and serializes back to
//! exactly that literal; the response shape of a verbosity-polymorphic RPC
//! method is then fixed by the witness type at compile time, through a total
//! mapping trait per method. Extending a method to a new verbosity value
//! means one new witness and one new mapping entry, and nothing else.

use core::marker::PhantomData;

use vstd::prelude::*;

use crate::error::DecodeError;
use crate::hashes::Txid;
use crate::schema::{Block, ConsensusEncoded, RawMempoolVerbose, RawMempoolWithSequence};

verus! {

/// Witness of one `u8` literal: a value of `U8Witness<V>` proves the wire
/// carried exactly `V`.
#[derive(Debug)]
pub struct U8Witness<const U8: u8>;

impl<const U8: u8> U8Witness<U8> {
    /// The literal this witness stands for, as it is serialized.
    pub fn encode(&self) -> (v: u8)
        ensures
            v == U8,
    {
        U8
    }

    /// Builds the witness from a wire value. Exactly the witness's own
    /// literal is accepted; any other value is a mismatch, never a coercion.
    pub fn decode(v: u8) -> (r: Result<Self, DecodeError>)
        ensures
            r is Ok <==> v == U8,
            r matches Err(e) ==> e == DecodeError::WitnessMismatch,
    {
        if v == U8 {
            Ok(U8Witness)
        } else {
            Err(DecodeError::WitnessMismatch)
        }
    }
}

/// Witness of one `bool` literal.
#[derive(Clone, Copy, Debug, PartialEq, Eq)]
pub struct BoolWitness<const BOOL: bool>;

impl<const BOOL: bool> BoolWitness<BOOL> {
    /// The literal this witness stands for, as it is serialized.
    pub fn encode(&self) -> (v: bool)
        ensures
            v == BOOL,
    {
        BOOL
    }

    /// Builds the witness from a wire value. Exactly the witness's own
    /// literal is accepted; any other value is a mismatch, never a coercion.
    pub fn decode(v: bool) -> (r: Result<Self, DecodeError>)
        ensures
            r is Ok <==> v == BOOL,
            r matches Err(e) ==> e == DecodeError::WitnessMismatch,
    {
        if v == BOOL {
            Ok(BoolWitness)
        } else {
            Err(DecodeError::WitnessMismatch)
        }
    }
}

/// The response type of the block fetch call, fixed by the verbosity
/// witness: zero fetches the consensus-encoded block, one the rich object.
pub trait GetBlockVerbosity {
    type Response;
}

impl GetBlockVerbosity for U8Witness<0> {
    type Response = ConsensusEncoded;
}

impl GetBlockVerbosity for U8Witness<1> {
    type Response = Block;
}

/// The parameter pair of the raw-mempool call: a verbose flag and a
/// mempool-sequence flag, both witnesses.
pub struct GetRawMempoolParams<Verbose, MempoolSequence>(
    pub PhantomData<(Verbose, MempoolSequence)>,
);

/// The response type of the raw-mempool call, fixed by the two witnesses:
/// plain id list, id list with a sequence counter, or the id-to-detail map.
pub trait GetRawMempoolResponse {
    type Response;
}

impl GetRawMempoolResponse for GetRawMempoolParams<BoolWitness<false>, BoolWitness<false>> {
    type Response = Vec<Txid>;
}

impl GetRawMempoolResponse for GetRawMempoolParams<BoolWitness<false>, BoolWitness<true>> {
    type Response = RawMempoolWithSequence;
}

impl GetRawMempoolResponse for GetRawMempoolParams<BoolWitness<true>, BoolWitness<false>> {
    type Response = RawMempoolVerbose;
}

/// Witness of the raw-transaction call's verbose flag.
#[derive(Debug)]
pub struct GetRawTransactionVerbose<const VERBOSE: bool>;

impl<const VERBOSE: bool> GetRawTransactionVerbose<VERBOSE> {
    /// The literal this witness stands for, as it is serialized.
    pub fn encode(&self) -> (v: bool)
        ensures
            v == VERBOSE,
    {
        VERBOSE
    }

    /// Builds the witness from a wire value. Exactly the witness's own
    /// literal is accepted; any other value is a mismatch, never a coercion.
    pub fn decode(v: bool) -> (r: Result<Self, DecodeError>)
        ensures
            r is Ok <==> v == VERBOSE,
            r matches Err(e) ==> e == DecodeError::WitnessMismatch,
    {
        if v == VERBOSE {
            Ok(GetRawTransactionVerbose)
        } else {
            Err(DecodeError::WitnessMismatch)
        }
    }
}

/// The response type of the raw-transaction call, fixed by the verbose
/// witness: the hex string, or the rich JSON object kept opaque.
pub trait GetRawTransactionVerbosity {
    type Response;
}

impl GetRawTransactionVerbosity for GetRawTransactionVerbose<false> {
    type Response = String;
}

impl GetRawTransactionVerbosity for GetRawTransactionVerbose<true> {
    type Response = serde_json::Value;
}

} // verus!
