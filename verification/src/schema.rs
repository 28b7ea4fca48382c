//! Schema entities: the flat records mirroring each RPC method's JSON object
//! shape, with every field typed to its narrowest domain type, and the
//! verified decoders that turn the raw wire fields into them.
//!
//! A `Raw...` struct holds exactly what the transport hands over: strings
//! for hex-coded fields, plain integers and booleans otherwise. Its decoder
//! succeeds exactly when every coded field is well formed, and reports the
//! first failing field otherwise.

use vstd::prelude::*;

use crate::compact::{compact_hex_error, compact_hex_ok, hex_seq_value, CompactTarget};
use crate::error::DecodeError;
use crate::hashes::{BlockHash, Ripemd160Hash, Sha256Hash, TxMerkleNode, Txid, Wtxid};
use crate::hex::{
    fixed_hex_error, fixed_hex_ok, hex_decode_spec, reversed_hex_decode_fixed,
    reversed_hex_decode_spec,
};
use crate::text::str_eq;

verus! {

/// The network a node runs on, as named by its core argument form.
#[derive(Clone, Copy, Debug, PartialEq, Eq, Structural)]
pub enum Network {
    Mainnet,
    Testnet,
    Signet,
    Regtest,
}

impl Network {
    /// Parses the core argument form of a network name.
    pub fn from_core_arg(s: &str) -> (r: Result<Network, DecodeError>)
        ensures
            r is Ok <==> s@ == "main"@ || s@ == "test"@ || s@ == "signet"@ || s@ == "regtest"@,
            r matches Ok(n) ==> n == (if s@ == "main"@ {
                Network::Mainnet
            } else if s@ == "test"@ {
                Network::Testnet
            } else if s@ == "signet"@ {
                Network::Signet
            } else {
                Network::Regtest
            }),
            r matches Err(e) ==> e == DecodeError::UnknownNetwork,
    {
        let owned = s.to_owned();
        if str_eq(&owned, "main") {
            Ok(Network::Mainnet)
        } else if str_eq(&owned, "test") {
            Ok(Network::Testnet)
        } else if str_eq(&owned, "signet") {
            Ok(Network::Signet)
        } else if str_eq(&owned, "regtest") {
            Ok(Network::Regtest)
        } else {
            Err(DecodeError::UnknownNetwork)
        }
    }

    /// The core argument form of the network name.
    pub fn to_core_arg(&self) -> (r: &'static str)
        ensures
            *self == Network::Mainnet ==> r@ == "main"@,
            *self == Network::Testnet ==> r@ == "test"@,
            *self == Network::Signet ==> r@ == "signet"@,
            *self == Network::Regtest ==> r@ == "regtest"@,
    {
        match self {
            Network::Mainnet => "main",
            Network::Testnet => "test",
            Network::Signet => "signet",
            Network::Regtest => "regtest",
        }
    }
}

/// A vote on a sidechain proposal, as its snake-case wire word.
#[derive(Clone, Copy, Debug, PartialEq, Eq, Structural)]
pub enum Vote {
    Upvote,
    Abstain,
    Downvote,
}

impl Vote {
    /// Parses the snake-case wire word of a vote.
    pub fn from_wire(s: &str) -> (r: Result<Vote, DecodeError>)
        ensures
            r is Ok <==> s@ == "upvote"@ || s@ == "abstain"@ || s@ == "downvote"@,
            r matches Ok(v) ==> v == (if s@ == "upvote"@ {
                Vote::Upvote
            } else if s@ == "abstain"@ {
                Vote::Abstain
            } else {
                Vote::Downvote
            }),
            r matches Err(e) ==> e == DecodeError::ValueOutOfRange,
    {
        let owned = s.to_owned();
        if str_eq(&owned, "upvote") {
            Ok(Vote::Upvote)
        } else if str_eq(&owned, "abstain") {
            Ok(Vote::Abstain)
        } else if str_eq(&owned, "downvote") {
            Ok(Vote::Downvote)
        } else {
            Err(DecodeError::ValueOutOfRange)
        }
    }

    /// The snake-case wire word of the vote.
    pub fn to_wire(&self) -> (r: &'static str)
        ensures
            *self == Vote::Upvote ==> r@ == "upvote"@,
            *self == Vote::Abstain ==> r@ == "abstain"@,
            *self == Vote::Downvote ==> r@ == "downvote"@,
    {
        match self {
            Vote::Upvote => "upvote",
            Vote::Abstain => "abstain",
            Vote::Downvote => "downvote",
        }
    }
}

/// Node network information: the node's reported time offset in seconds.
#[derive(Clone, Copy, Debug, PartialEq, Eq, Structural)]
pub struct NetworkInfo {
    pub time_offset_s: i64,
}

/// Fee details of one mempool entry, in satoshis.
#[derive(Clone, Copy, Debug, PartialEq, Eq, Structural)]
pub struct RawMempoolTxFees {
    pub base: u64,
    pub modified: u64,
    pub ancestor: u64,
    pub descendant: u64,
}

/// Status of a pending withdrawal.
#[derive(Clone, Copy, Debug, PartialEq, Eq)]
pub struct WithdrawalStatus {
    pub hash: Txid,
    pub nblocksleft: usize,
    pub nworkscore: usize,
}

/// A withdrawal that made it to the main chain.
#[derive(Clone, Copy, Debug, PartialEq, Eq)]
pub struct SpentWithdrawal {
    pub nsidechain: u8,
    pub hash: Txid,
    pub hashblock: BlockHash,
}

/// A withdrawal that failed.
#[derive(Clone, Copy, Debug, PartialEq, Eq)]
pub struct FailedWithdrawal {
    pub nsidechain: u8,
    pub hash: Txid,
}

/// A sidechain deposit, as reported per block.
#[derive(Clone, Debug, PartialEq, Eq)]
pub struct Deposit {
    pub hashblock: BlockHash,
    pub nburnindex: usize,
    pub ntx: usize,
    pub strdest: String,
    pub txhex: String,
}

/// Description of an active sidechain.
#[derive(Clone, Debug, PartialEq, Eq)]
pub struct SidechainInfo {
    pub name: String,
    pub version: i32,
    pub description: String,
    pub hash_id_1: Sha256Hash,
    pub hash_id_2: Ripemd160Hash,
}

/// A proposed sidechain: the slot it asks for and its description.
#[derive(Clone, Debug, PartialEq, Eq)]
pub struct SidechainProposal {
    pub sidechain_id: crate::commitment::SidechainId,
    pub info: SidechainInfo,
}

/// Activation progress of a proposed sidechain.
#[derive(Clone, Debug, PartialEq, Eq)]
pub struct SidechainActivationStatus {
    pub name: String,
    pub description: String,
    pub age: u32,
    pub fail: u32,
}

/// Wallet information about one address. The address itself stays a string:
/// nothing here validates it.
#[derive(Clone, Debug, PartialEq, Eq)]
pub struct AddressInfo {
    pub address: String,
    pub script_pub_key: String,
    pub is_mine: bool,
    pub is_watch_only: bool,
    pub is_script: bool,
    pub is_witness: bool,
    pub hd_key_path: String,
    pub hd_seed_id: String,
}

/// A consensus-encoded value carried as its raw bytes, hex on the wire.
#[derive(Clone, Debug, PartialEq, Eq)]
pub struct ConsensusEncoded {
    pub bytes: Vec<u8>,
}

impl ConsensusEncoded {
    /// Parses the lowercase (or mixed-case) hex wire form.
    pub fn from_hex(s: &str) -> (r: Result<Self, DecodeError>)
        ensures
            r is Ok <==> s@.len() % 2 == 0 && crate::hex::is_hex_seq(s@),
            r matches Ok(v) ==> v.bytes@ == hex_decode_spec(s@),
            r matches Err(e) ==> (e == DecodeError::OddHexLength <==> s@.len() % 2 != 0),
            r matches Err(e) ==> (s@.len() % 2 == 0 ==> e == DecodeError::InvalidHexChar),
    {
        match crate::hex::hex_decode(s) {
            Ok(bytes) => Ok(ConsensusEncoded { bytes }),
            Err(e) => Err(e),
        }
    }

    /// Renders the lowercase hex wire form.
    pub fn to_hex(&self) -> (r: String)
        ensures
            r@ == crate::hex::hex_encode_spec(self.bytes@),
    {
        crate::hex::hex_encode(self.bytes.as_slice())
    }
}

/// Every string of the list is a well-formed reversed-hex transaction id.
pub open spec fn txid_list_ok(raws: Seq<String>) -> bool {
    forall|i: int| 0 <= i < raws.len() ==> fixed_hex_ok((#[trigger] raws[i])@, 32)
}

/// The error the first malformed id of the list reports.
pub open spec fn txid_list_error(raws: Seq<String>) -> DecodeError
    recommends
        !txid_list_ok(raws),
    decreases raws.len(),
{
    if raws.len() == 0 {
        // An empty list never fails; no error arises here.
        DecodeError::InvalidHexChar
    } else if !fixed_hex_ok(raws.first()@, 32) {
        fixed_hex_error(raws.first()@, 32)
    } else {
        txid_list_error(raws.drop_first())
    }
}

/// The list error is the error of the first malformed entry.
proof fn lemma_txid_list_error_at(raws: Seq<String>, i: int)
    requires
        0 <= i < raws.len(),
        forall|j: int| 0 <= j < i ==> fixed_hex_ok((#[trigger] raws[j])@, 32),
        !fixed_hex_ok(raws[i]@, 32),
    ensures
        txid_list_error(raws) == fixed_hex_error(raws[i]@, 32),
    decreases i,
{
    if i > 0 {
        let tail = raws.drop_first();
        assert(forall|j: int| 0 <= j < i - 1 ==> fixed_hex_ok((#[trigger] tail[j])@, 32));
        assert(tail[i - 1] == raws[i]);
        lemma_txid_list_error_at(tail, i - 1);
    }
}

/// Decodes a list of reversed-hex transaction ids, keeping order. The first
/// malformed entry fails the whole list.
pub fn decode_txid_list(raws: &Vec<String>) -> (r: Result<Vec<Txid>, DecodeError>)
    ensures
        r is Ok <==> txid_list_ok(raws@),
        r matches Ok(out) ==> out@.len() == raws@.len() && (forall|i: int|
            0 <= i < raws@.len() ==> (#[trigger] out@[i]).0@ == reversed_hex_decode_spec(
                raws@[i]@,
            )),
        r matches Err(e) ==> e == txid_list_error(raws@),
{
    let mut out: Vec<Txid> = Vec::new();
    let mut i: usize = 0;
    while i < raws.len()
        invariant
            i <= raws@.len(),
            out@.len() == i,
            forall|j: int| 0 <= j < i ==> fixed_hex_ok((#[trigger] raws@[j])@, 32),
            forall|j: int|
                0 <= j < i ==> (#[trigger] out@[j]).0@ == reversed_hex_decode_spec(raws@[j]@),
        decreases raws@.len() - i,
    {
        match Txid::from_hex(raws[i].as_str()) {
            Ok(t) => {
                out.push(t);
            },
            Err(e) => {
                proof {
                    lemma_txid_list_error_at(raws@, i as int);
                }
                return Err(e);
            },
        }
        i = i + 1;
    }
    Ok(out)
}

/// Verbose detail of one mempool transaction.
#[derive(Clone, Debug, PartialEq, Eq)]
pub struct RawMempoolTxInfo {
    pub vsize: u64,
    pub weight: u64,
    pub descendant_count: u64,
    pub descendant_size: u64,
    pub ancestor_count: u64,
    pub ancestor_size: u64,
    pub wtxid: Wtxid,
    pub fees: RawMempoolTxFees,
    pub depends: Vec<Txid>,
    pub spent_by: Vec<Txid>,
    pub bip125_replaceable: bool,
    pub unbroadcast: bool,
}

/// Wire form of the verbose mempool detail: ids still hex strings.
#[derive(Clone, Debug)]
pub struct RawMempoolTxInfoWire {
    pub vsize: u64,
    pub weight: u64,
    pub descendant_count: u64,
    pub descendant_size: u64,
    pub ancestor_count: u64,
    pub ancestor_size: u64,
    pub wtxid: String,
    pub fees: RawMempoolTxFees,
    pub depends: Vec<String>,
    pub spent_by: Vec<String>,
    pub bip125_replaceable: bool,
    pub unbroadcast: bool,
}

/// Every hex-coded field of the verbose mempool detail is well formed.
pub open spec fn mempool_tx_info_ok(raw: RawMempoolTxInfoWire) -> bool {
    fixed_hex_ok(raw.wtxid@, 32) && txid_list_ok(raw.depends@) && txid_list_ok(raw.spent_by@)
}

/// The decoded detail keeps every plain field and decodes every id.
pub open spec fn mempool_tx_info_matches(raw: RawMempoolTxInfoWire, out: RawMempoolTxInfo) -> bool {
    &&& out.vsize == raw.vsize
    &&& out.weight == raw.weight
    &&& out.descendant_count == raw.descendant_count
    &&& out.descendant_size == raw.descendant_size
    &&& out.ancestor_count == raw.ancestor_count
    &&& out.ancestor_size == raw.ancestor_size
    &&& out.wtxid.0@ == reversed_hex_decode_spec(raw.wtxid@)
    &&& out.fees == raw.fees
    &&& out.depends@.len() == raw.depends@.len()
    &&& (forall|i: int|
        0 <= i < raw.depends@.len() ==> (#[trigger] out.depends@[i]).0@
            == reversed_hex_decode_spec(raw.depends@[i]@))
    &&& out.spent_by@.len() == raw.spent_by@.len()
    &&& (forall|i: int|
        0 <= i < raw.spent_by@.len() ==> (#[trigger] out.spent_by@[i]).0@
            == reversed_hex_decode_spec(raw.spent_by@[i]@))
    &&& out.bip125_replaceable == raw.bip125_replaceable
    &&& out.unbroadcast == raw.unbroadcast
}

/// The error a bad verbose mempool detail reports, by field order: witness
/// id, dependencies, spenders.
pub open spec fn mempool_tx_info_error(raw: RawMempoolTxInfoWire) -> DecodeError
    recommends
        !mempool_tx_info_ok(raw),
{
    if !fixed_hex_ok(raw.wtxid@, 32) {
        fixed_hex_error(raw.wtxid@, 32)
    } else if !txid_list_ok(raw.depends@) {
        txid_list_error(raw.depends@)
    } else {
        txid_list_error(raw.spent_by@)
    }
}

impl RawMempoolTxInfo {
    /// Decodes the verbose mempool detail of one transaction.
    pub fn decode(raw: &RawMempoolTxInfoWire) -> (r: Result<RawMempoolTxInfo, DecodeError>)
        ensures
            r is Ok <==> mempool_tx_info_ok(*raw),
            r matches Ok(out) ==> mempool_tx_info_matches(*raw, out),
            r matches Err(e) ==> e == mempool_tx_info_error(*raw),
    {
        let wtxid = match Wtxid::from_hex(raw.wtxid.as_str()) {
            Ok(w) => w,
            Err(e) => {
                return Err(e);
            },
        };
        let depends = match decode_txid_list(&raw.depends) {
            Ok(d) => d,
            Err(e) => {
                return Err(e);
            },
        };
        let spent_by = match decode_txid_list(&raw.spent_by) {
            Ok(d) => d,
            Err(e) => {
                return Err(e);
            },
        };
        Ok(
            RawMempoolTxInfo {
                vsize: raw.vsize,
                weight: raw.weight,
                descendant_count: raw.descendant_count,
                descendant_size: raw.descendant_size,
                ancestor_count: raw.ancestor_count,
                ancestor_size: raw.ancestor_size,
                wtxid,
                fees: raw.fees,
                depends,
                spent_by,
                bip125_replaceable: raw.bip125_replaceable,
                unbroadcast: raw.unbroadcast,
            },
        )
    }
}

/// The mempool id list with its sequence counter.
#[derive(Clone, Debug, PartialEq, Eq)]
pub struct RawMempoolWithSequence {
    pub txids: Vec<Txid>,
    pub mempool_sequence: u64,
}

impl RawMempoolWithSequence {
    /// Decodes the id list and keeps the sequence counter.
    pub fn decode(txids: &Vec<String>, mempool_sequence: u64) -> (r: Result<
        RawMempoolWithSequence,
        DecodeError,
    >)
        ensures
            r is Ok <==> txid_list_ok(txids@),
            r matches Ok(out) ==> out.mempool_sequence == mempool_sequence && out.txids@.len()
                == txids@.len() && (forall|i: int|
                0 <= i < txids@.len() ==> (#[trigger] out.txids@[i]).0@
                    == reversed_hex_decode_spec(txids@[i]@)),
            r matches Err(e) ==> e == txid_list_error(txids@),
    {
        match decode_txid_list(txids) {
            Ok(txids) => Ok(RawMempoolWithSequence { txids, mempool_sequence }),
            Err(e) => Err(e),
        }
    }
}

/// The verbose mempool map, as an ordered list of id and detail pairs.
#[derive(Clone, Debug, PartialEq, Eq)]
pub struct RawMempoolVerbose {
    pub entries: Vec<(Txid, RawMempoolTxInfo)>,
}

/// Every entry of the verbose mempool map decodes.
pub open spec fn mempool_verbose_ok(raws: Seq<(String, RawMempoolTxInfoWire)>) -> bool {
    forall|i: int|
        0 <= i < raws.len() ==> fixed_hex_ok((#[trigger] raws[i]).0@, 32) && mempool_tx_info_ok(
            raws[i].1,
        )
}

/// The error the first bad entry of the verbose mempool map reports: its
/// id first, then its detail.
pub open spec fn mempool_verbose_error(raws: Seq<(String, RawMempoolTxInfoWire)>) -> DecodeError
    recommends
        !mempool_verbose_ok(raws),
    decreases raws.len(),
{
    if raws.len() == 0 {
        // An empty map never fails; no error arises here.
        DecodeError::InvalidHexChar
    } else if !fixed_hex_ok(raws.first().0@, 32) {
        fixed_hex_error(raws.first().0@, 32)
    } else if !mempool_tx_info_ok(raws.first().1) {
        mempool_tx_info_error(raws.first().1)
    } else {
        mempool_verbose_error(raws.drop_first())
    }
}

/// The map error is the error of the first bad entry.
proof fn lemma_mempool_verbose_error_at(raws: Seq<(String, RawMempoolTxInfoWire)>, i: int)
    requires
        0 <= i < raws.len(),
        forall|j: int|
            0 <= j < i ==> fixed_hex_ok((#[trigger] raws[j]).0@, 32) && mempool_tx_info_ok(
                raws[j].1,
            ),
        !(fixed_hex_ok(raws[i].0@, 32) && mempool_tx_info_ok(raws[i].1)),
    ensures
        mempool_verbose_error(raws) == (if !fixed_hex_ok(raws[i].0@, 32) {
            fixed_hex_error(raws[i].0@, 32)
        } else {
            mempool_tx_info_error(raws[i].1)
        }),
    decreases i,
{
    if i > 0 {
        let tail = raws.drop_first();
        assert(forall|j: int|
            0 <= j < i - 1 ==> fixed_hex_ok((#[trigger] tail[j]).0@, 32) && mempool_tx_info_ok(
                tail[j].1,
            ));
        assert(tail[i - 1] == raws[i]);
        lemma_mempool_verbose_error_at(tail, i - 1);
    }
}

impl RawMempoolVerbose {
    /// Decodes the verbose mempool map, keeping entry order.
    pub fn decode(raws: &Vec<(String, RawMempoolTxInfoWire)>) -> (r: Result<
        RawMempoolVerbose,
        DecodeError,
    >)
        ensures
            r is Ok <==> mempool_verbose_ok(raws@),
            r matches Ok(out) ==> out.entries@.len() == raws@.len() && (forall|i: int|
                0 <= i < raws@.len() ==> (#[trigger] out.entries@[i]).0.0@
                    == reversed_hex_decode_spec(raws@[i].0@) && mempool_tx_info_matches(
                    raws@[i].1,
                    out.entries@[i].1,
                )),
            r matches Err(e) ==> e == mempool_verbose_error(raws@),
    {
        let mut entries: Vec<(Txid, RawMempoolTxInfo)> = Vec::new();
        let mut i: usize = 0;
        while i < raws.len()
            invariant
                i <= raws@.len(),
                entries@.len() == i,
                forall|j: int|
                    0 <= j < i ==> fixed_hex_ok((#[trigger] raws@[j]).0@, 32)
                        && mempool_tx_info_ok(raws@[j].1),
                forall|j: int|
                    0 <= j < i ==> (#[trigger] entries@[j]).0.0@ == reversed_hex_decode_spec(
                        raws@[j].0@,
                    ) && mempool_tx_info_matches(raws@[j].1, entries@[j].1),
            decreases raws@.len() - i,
        {
            let txid = match Txid::from_hex(raws[i].0.as_str()) {
                Ok(t) => t,
                Err(e) => {
                    proof {
                        lemma_mempool_verbose_error_at(raws@, i as int);
                    }
                    return Err(e);
                },
            };
            let info = match RawMempoolTxInfo::decode(&raws[i].1) {
                Ok(v) => v,
                Err(e) => {
                    proof {
                        lemma_mempool_verbose_error_at(raws@, i as int);
                    }
                    return Err(e);
                },
            };
            entries.push((txid, info));
            i = i + 1;
        }
        Ok(RawMempoolVerbose { entries })
    }
}

/// Unspent output set statistics.
#[derive(Clone, Copy, Debug, PartialEq, Eq)]
pub struct TxOutSetInfo {
    pub height: u32,
    pub best_block: BlockHash,
    pub n_txs: u64,
    pub n_txouts: u64,
    pub hash_serialized_3: [u8; 32],
}

impl TxOutSetInfo {
    /// Decodes the output set statistics: the best block hash is reversed
    /// hex, the serialized hash is forward hex.
    pub fn decode(
        height: u32,
        best_block: &str,
        n_txs: u64,
        n_txouts: u64,
        hash_serialized_3: &str,
    ) -> (r: Result<TxOutSetInfo, DecodeError>)
        ensures
            r is Ok <==> fixed_hex_ok(best_block@, 32) && fixed_hex_ok(hash_serialized_3@, 32),
            r matches Ok(out) ==> out.height == height && out.best_block.0@
                == reversed_hex_decode_spec(best_block@) && out.n_txs == n_txs && out.n_txouts
                == n_txouts && out.hash_serialized_3@ == hex_decode_spec(hash_serialized_3@),
            r matches Err(e) ==> e == (if !fixed_hex_ok(best_block@, 32) {
                fixed_hex_error(best_block@, 32)
            } else {
                fixed_hex_error(hash_serialized_3@, 32)
            }),
    {
        let best = match BlockHash::from_hex(best_block) {
            Ok(b) => b,
            Err(e) => {
                return Err(e);
            },
        };
        let hash = match crate::hex::hex_decode_fixed::<32>(hash_serialized_3) {
            Ok(h) => h,
            Err(e) => {
                return Err(e);
            },
        };
        Ok(
            TxOutSetInfo {
                height,
                best_block: best,
                n_txs,
                n_txouts,
                hash_serialized_3: hash,
            },
        )
    }
}

/// A block header as the node reports it, with its chain context.
#[derive(Clone, Copy, Debug, PartialEq, Eq)]
pub struct Header {
    pub hash: BlockHash,
    pub height: u32,
    pub version: i32,
    pub prev_blockhash: BlockHash,
    pub merkle_root: TxMerkleNode,
    pub time: u32,
    pub bits: CompactTarget,
    pub nonce: u32,
}

/// Wire form of a reported header: hashes as reversed hex, the compact
/// target as unprefixed hex, and the previous hash optional (the genesis
/// header omits it; the all-zero hash stands in).
#[derive(Clone, Debug)]
pub struct RawHeader {
    pub hash: String,
    pub height: u32,
    pub version: i32,
    pub previousblockhash: Option<String>,
    pub merkleroot: String,
    pub time: u32,
    pub bits: String,
    pub nonce: u32,
}

/// Every coded field of a raw header is well formed.
pub open spec fn header_decodable(raw: RawHeader) -> bool {
    &&& fixed_hex_ok(raw.hash@, 32)
    &&& (raw.previousblockhash matches Some(p) ==> fixed_hex_ok(p@, 32))
    &&& fixed_hex_ok(raw.merkleroot@, 32)
    &&& compact_hex_ok(raw.bits@)
}

/// The decoded header keeps every plain field and decodes every coded one;
/// a missing previous hash becomes the all-zero hash.
pub open spec fn header_matches(raw: RawHeader, h: Header) -> bool {
    &&& h.hash.0@ == reversed_hex_decode_spec(raw.hash@)
    &&& h.height == raw.height
    &&& h.version == raw.version
    &&& (raw.previousblockhash matches Some(p) ==> h.prev_blockhash.0@
        == reversed_hex_decode_spec(p@))
    &&& (raw.previousblockhash is None ==> h.prev_blockhash.0@ == Seq::new(32, |i: int| 0u8))
    &&& h.merkle_root.0@ == reversed_hex_decode_spec(raw.merkleroot@)
    &&& h.time == raw.time
    &&& h.bits.consensus as int == hex_seq_value(raw.bits@)
    &&& h.nonce == raw.nonce
}

/// The error a bad raw header reports, by field order: hash, previous hash,
/// merkle root, compact target.
pub open spec fn header_error_spec(raw: RawHeader) -> DecodeError
    recommends
        !header_decodable(raw),
{
    if !fixed_hex_ok(raw.hash@, 32) {
        fixed_hex_error(raw.hash@, 32)
    } else if raw.previousblockhash matches Some(p) && !fixed_hex_ok(p@, 32) {
        fixed_hex_error(raw.previousblockhash->0@, 32)
    } else if !fixed_hex_ok(raw.merkleroot@, 32) {
        fixed_hex_error(raw.merkleroot@, 32)
    } else {
        compact_hex_error(raw.bits@)
    }
}

impl Header {
    /// Decodes a reported header from its wire fields.
    pub fn decode(raw: &RawHeader) -> (r: Result<Header, DecodeError>)
        ensures
            r is Ok <==> header_decodable(*raw),
            r matches Ok(h) ==> header_matches(*raw, h),
            r matches Err(e) ==> e == header_error_spec(*raw),
    {
        let hash = match BlockHash::from_hex(raw.hash.as_str()) {
            Ok(h) => h,
            Err(e) => {
                return Err(e);
            },
        };
        let prev_blockhash = match &raw.previousblockhash {
            Some(p) => match BlockHash::from_hex(p.as_str()) {
                Ok(h) => h,
                Err(e) => {
                    return Err(e);
                },
            },
            None => BlockHash::all_zeros(),
        };
        let merkle_root = match TxMerkleNode::from_hex(raw.merkleroot.as_str()) {
            Ok(m) => m,
            Err(e) => {
                return Err(e);
            },
        };
        let bits = match CompactTarget::from_unprefixed_hex(raw.bits.as_str()) {
            Ok(b) => b,
            Err(e) => {
                return Err(e);
            },
        };
        Ok(
            Header {
                hash,
                height: raw.height,
                version: raw.version,
                prev_blockhash,
                merkle_root,
                time: raw.time,
                bits,
                nonce: raw.nonce,
            },
        )
    }

    /// The 256-bit target a block hash must not exceed, as big-endian bytes.
    /// `None` when the compact form denotes a value above 256 bits.
    pub fn target(&self) -> (r: Option<[u8; 32]>)
        ensures
            r is Some <==> crate::compact::target_of_compact(self.bits.consensus)
                < crate::compact::pow256(32),
            r matches Some(t) ==> crate::compact::be_bytes_value(t@)
                == crate::compact::target_of_compact(self.bits.consensus),
    {
        self.bits.to_target_be_bytes()
    }

    /// The total work the block proves, as big-endian bytes. `None` when the
    /// target does not fit 256 bits. The witness below is unique: one value
    /// has one 32-byte big-endian spelling (see
    /// `crate::compact::lemma_be_bytes_value_injective`), so the result is
    /// pinned to the work of this header's own target.
    pub fn work(&self) -> (r: Option<[u8; 32]>)
        ensures
            r is Some <==> crate::compact::target_of_compact(self.bits.consensus)
                < crate::compact::pow256(32),
            r matches Some(w) ==> exists|t: Seq<u8>|
                crate::compact::be_bytes_value(t) == crate::compact::target_of_compact(
                    self.bits.consensus,
                ) && t.len() == 32 && w@ == work_of_target(t),
    {
        match self.target() {
            Some(t) => Some(work_of_target_bytes(&t)),
            None => None,
        }
    }
}

/// A consensus block header: the six committed fields, without chain
/// context.
#[derive(Clone, Copy, Debug, PartialEq, Eq)]
pub struct BlockHeader {
    pub version: i32,
    pub prev_blockhash: BlockHash,
    pub merkle_root: TxMerkleNode,
    pub time: u32,
    pub bits: CompactTarget,
    pub nonce: u32,
}

impl From<Header> for BlockHeader {
    /// Drops the chain context, keeping the six committed fields.
    fn from(header: Header) -> (r: Self) {
        BlockHeader {
            version: header.version,
            prev_blockhash: header.prev_blockhash,
            merkle_root: header.merkle_root,
            time: header.time,
            bits: header.bits,
            nonce: header.nonce,
        }
    }
}

impl vstd::std_specs::convert::FromSpecImpl<Header> for BlockHeader {
    open spec fn obeys_from_spec() -> bool {
        true
    }

    open spec fn from_spec(header: Header) -> Self {
        BlockHeader {
            version: header.version,
            prev_blockhash: header.prev_blockhash,
            merkle_root: header.merkle_root,
            time: header.time,
            bits: header.bits,
            nonce: header.nonce,
        }
    }
}

/// The work a 256-bit target denotes, as thirty-two big-endian bytes. The
/// transform is fixed by the outside numeric library; only its determinism
/// is stated here.
pub uninterp spec fn work_of_target(t: Seq<u8>) -> Seq<u8>;

/// Relies on bitcoin::Target::from_be_bytes, bitcoin::Target::to_work and
/// bitcoin::Work::to_be_bytes: the work value is a function of the target
/// bytes alone (2^256 divided by one more than the target, with the edge
/// cases the library defines).
#[verifier::external_body]
fn work_of_target_bytes(t: &[u8; 32]) -> (r: [u8; 32])
    ensures
        r@ == work_of_target(t@),
{
    bitcoin::Target::from_be_bytes(*t).to_work().to_be_bytes()
}

/// A block as the verbosity-one block fetch reports it. The floating-point
/// `difficulty` field of the wire object is not kept: it is a lossy rendering
/// of `compact_target`.
#[derive(Clone, Debug, PartialEq, Eq)]
pub struct Block {
    pub hash: BlockHash,
    pub confirmations: usize,
    pub strippedsize: usize,
    pub size: usize,
    pub weight: usize,
    pub height: usize,
    pub version: i32,
    pub version_hex: String,
    pub merkleroot: TxMerkleNode,
    pub tx: Vec<Txid>,
    pub time: u32,
    pub mediantime: u32,
    pub nonce: u32,
    pub compact_target: CompactTarget,
    pub chainwork: String,
    pub previousblockhash: Option<BlockHash>,
    pub nextblockhash: Option<BlockHash>,
}

/// Wire form of a rich block object.
#[derive(Clone, Debug)]
pub struct RawBlock {
    pub hash: String,
    pub confirmations: usize,
    pub strippedsize: usize,
    pub size: usize,
    pub weight: usize,
    pub height: usize,
    pub version: i32,
    pub version_hex: String,
    pub merkleroot: String,
    pub tx: Vec<String>,
    pub time: u32,
    pub mediantime: u32,
    pub nonce: u32,
    pub bits: String,
    pub chainwork: String,
    pub previousblockhash: Option<String>,
    pub nextblockhash: Option<String>,
}

/// Every coded field of a raw block is well formed.
pub open spec fn block_decodable(raw: RawBlock) -> bool {
    &&& fixed_hex_ok(raw.hash@, 32)
    &&& fixed_hex_ok(raw.merkleroot@, 32)
    &&& txid_list_ok(raw.tx@)
    &&& compact_hex_ok(raw.bits@)
    &&& (raw.previousblockhash matches Some(p) ==> fixed_hex_ok(p@, 32))
    &&& (raw.nextblockhash matches Some(p) ==> fixed_hex_ok(p@, 32))
}

/// The decoded block keeps every plain field and decodes every coded one.
pub open spec fn block_matches(raw: RawBlock, b: Block) -> bool {
    &&& b.hash.0@ == reversed_hex_decode_spec(raw.hash@)
    &&& b.confirmations == raw.confirmations
    &&& b.strippedsize == raw.strippedsize
    &&& b.size == raw.size
    &&& b.weight == raw.weight
    &&& b.height == raw.height
    &&& b.version == raw.version
    &&& b.version_hex@ == raw.version_hex@
    &&& b.merkleroot.0@ == reversed_hex_decode_spec(raw.merkleroot@)
    &&& b.tx@.len() == raw.tx@.len()
    &&& (forall|i: int|
        0 <= i < raw.tx@.len() ==> (#[trigger] b.tx@[i]).0@ == reversed_hex_decode_spec(
            raw.tx@[i]@,
        ))
    &&& b.time == raw.time
    &&& b.mediantime == raw.mediantime
    &&& b.nonce == raw.nonce
    &&& b.compact_target.consensus as int == hex_seq_value(raw.bits@)
    &&& b.chainwork@ == raw.chainwork@
    &&& (raw.previousblockhash matches Some(p) ==> b.previousblockhash matches Some(h) && h.0@
        == reversed_hex_decode_spec(p@))
    &&& (raw.previousblockhash is None ==> b.previousblockhash is None)
    &&& (raw.nextblockhash matches Some(p) ==> b.nextblockhash matches Some(h) && h.0@
        == reversed_hex_decode_spec(p@))
    &&& (raw.nextblockhash is None ==> b.nextblockhash is None)
}

/// The error a bad raw block reports, by field order: hash, merkle root,
/// transaction ids, compact target, previous hash, next hash.
pub open spec fn block_error_spec(raw: RawBlock) -> DecodeError
    recommends
        !block_decodable(raw),
{
    if !fixed_hex_ok(raw.hash@, 32) {
        fixed_hex_error(raw.hash@, 32)
    } else if !fixed_hex_ok(raw.merkleroot@, 32) {
        fixed_hex_error(raw.merkleroot@, 32)
    } else if !txid_list_ok(raw.tx@) {
        txid_list_error(raw.tx@)
    } else if !compact_hex_ok(raw.bits@) {
        compact_hex_error(raw.bits@)
    } else if raw.previousblockhash matches Some(p) && !fixed_hex_ok(p@, 32) {
        fixed_hex_error(raw.previousblockhash->0@, 32)
    } else {
        fixed_hex_error(raw.nextblockhash->0@, 32)
    }
}

impl Block {
    /// Decodes a rich block object from its wire fields.
    pub fn decode(raw: &RawBlock) -> (r: Result<Block, DecodeError>)
        ensures
            r is Ok <==> block_decodable(*raw),
            r matches Ok(b) ==> block_matches(*raw, b),
            r matches Err(e) ==> e == block_error_spec(*raw),
    {
        let hash = match BlockHash::from_hex(raw.hash.as_str()) {
            Ok(h) => h,
            Err(e) => {
                return Err(e);
            },
        };
        let merkleroot = match TxMerkleNode::from_hex(raw.merkleroot.as_str()) {
            Ok(m) => m,
            Err(e) => {
                return Err(e);
            },
        };
        let tx = match decode_txid_list(&raw.tx) {
            Ok(t) => t,
            Err(e) => {
                return Err(e);
            },
        };
        let compact_target = match CompactTarget::from_unprefixed_hex(raw.bits.as_str()) {
            Ok(b) => b,
            Err(e) => {
                return Err(e);
            },
        };
        let previousblockhash = match &raw.previousblockhash {
            Some(p) => match BlockHash::from_hex(p.as_str()) {
                Ok(h) => Some(h),
                Err(e) => {
                    return Err(e);
                },
            },
            None => None,
        };
        let nextblockhash = match &raw.nextblockhash {
            Some(p) => match BlockHash::from_hex(p.as_str()) {
                Ok(h) => Some(h),
                Err(e) => {
                    return Err(e);
                },
            },
            None => None,
        };
        Ok(
            Block {
                hash,
                confirmations: raw.confirmations,
                strippedsize: raw.strippedsize,
                size: raw.size,
                weight: raw.weight,
                height: raw.height,
                version: raw.version,
                version_hex: raw.version_hex.clone(),
                merkleroot,
                tx,
                time: raw.time,
                mediantime: raw.mediantime,
                nonce: raw.nonce,
                compact_target,
                chainwork: raw.chainwork.clone(),
                previousblockhash,
                nextblockhash,
            },
        )
    }
}

/// Blockchain summary information. The floating-point `difficulty` field of
/// the wire object is not kept: it is a lossy rendering of the target.
#[derive(Clone, Copy, Debug, PartialEq, Eq)]
pub struct BlockchainInfo {
    pub chain: Network,
    pub blocks: u32,
    pub best_blockhash: BlockHash,
}

impl BlockchainInfo {
    /// Decodes the summary: the chain name in core argument form, the best
    /// block hash in reversed hex.
    pub fn decode(chain: &str, blocks: u32, best_blockhash: &str) -> (r: Result<
        BlockchainInfo,
        DecodeError,
    >)
        ensures
            r is Ok <==> (chain@ == "main"@ || chain@ == "test"@ || chain@ == "signet"@ || chain@
                == "regtest"@) && fixed_hex_ok(best_blockhash@, 32),
            r matches Ok(out) ==> out.blocks == blocks && out.best_blockhash.0@
                == reversed_hex_decode_spec(best_blockhash@),
            r matches Err(e) ==> e == (if !(chain@ == "main"@ || chain@ == "test"@ || chain@
                == "signet"@ || chain@ == "regtest"@) {
                DecodeError::UnknownNetwork
            } else {
                fixed_hex_error(best_blockhash@, 32)
            }),
    {
        let chain = match Network::from_core_arg(chain) {
            Ok(c) => c,
            Err(e) => {
                return Err(e);
            },
        };
        let best = match BlockHash::from_hex(best_blockhash) {
            Ok(b) => b,
            Err(e) => {
                return Err(e);
            },
        };
        Ok(BlockchainInfo { chain, blocks, best_blockhash: best })
    }
}

impl WithdrawalStatus {
    /// Decodes one withdrawal status entry.
    pub fn decode(hash: &str, nblocksleft: usize, nworkscore: usize) -> (r: Result<
        WithdrawalStatus,
        DecodeError,
    >)
        ensures
            r is Ok <==> fixed_hex_ok(hash@, 32),
            r matches Ok(out) ==> out.hash.0@ == reversed_hex_decode_spec(hash@)
                && out.nblocksleft == nblocksleft && out.nworkscore == nworkscore,
            r matches Err(e) ==> e == fixed_hex_error(hash@, 32),
    {
        match Txid::from_hex(hash) {
            Ok(hash) => Ok(WithdrawalStatus { hash, nblocksleft, nworkscore }),
            Err(e) => Err(e),
        }
    }
}

impl SpentWithdrawal {
    /// Decodes one spent withdrawal entry.
    pub fn decode(nsidechain: u8, hash: &str, hashblock: &str) -> (r: Result<
        SpentWithdrawal,
        DecodeError,
    >)
        ensures
            r is Ok <==> fixed_hex_ok(hash@, 32) && fixed_hex_ok(hashblock@, 32),
            r matches Ok(out) ==> out.nsidechain == nsidechain && out.hash.0@
                == reversed_hex_decode_spec(hash@) && out.hashblock.0@ == reversed_hex_decode_spec(
                hashblock@,
            ),
            r matches Err(e) ==> e == (if !fixed_hex_ok(hash@, 32) {
                fixed_hex_error(hash@, 32)
            } else {
                fixed_hex_error(hashblock@, 32)
            }),
    {
        let hash = match Txid::from_hex(hash) {
            Ok(h) => h,
            Err(e) => {
                return Err(e);
            },
        };
        let hashblock = match BlockHash::from_hex(hashblock) {
            Ok(h) => h,
            Err(e) => {
                return Err(e);
            },
        };
        Ok(SpentWithdrawal { nsidechain, hash, hashblock })
    }
}

impl FailedWithdrawal {
    /// Decodes one failed withdrawal entry.
    pub fn decode(nsidechain: u8, hash: &str) -> (r: Result<FailedWithdrawal, DecodeError>)
        ensures
            r is Ok <==> fixed_hex_ok(hash@, 32),
            r matches Ok(out) ==> out.nsidechain == nsidechain && out.hash.0@
                == reversed_hex_decode_spec(hash@),
            r matches Err(e) ==> e == fixed_hex_error(hash@, 32),
    {
        match Txid::from_hex(hash) {
            Ok(hash) => Ok(FailedWithdrawal { nsidechain, hash }),
            Err(e) => Err(e),
        }
    }
}

impl Deposit {
    /// Decodes one deposit entry: only the block hash is coded.
    pub fn decode(
        hashblock: &str,
        nburnindex: usize,
        ntx: usize,
        strdest: &str,
        txhex: &str,
    ) -> (r: Result<Deposit, DecodeError>)
        ensures
            r is Ok <==> fixed_hex_ok(hashblock@, 32),
            r matches Ok(out) ==> out.hashblock.0@ == reversed_hex_decode_spec(hashblock@)
                && out.nburnindex == nburnindex && out.ntx == ntx && out.strdest@ == strdest@
                && out.txhex@ == txhex@,
            r matches Err(e) ==> e == fixed_hex_error(hashblock@, 32),
    {
        match BlockHash::from_hex(hashblock) {
            Ok(hashblock) => Ok(
                Deposit {
                    hashblock,
                    nburnindex,
                    ntx,
                    strdest: strdest.to_owned(),
                    txhex: txhex.to_owned(),
                },
            ),
            Err(e) => Err(e),
        }
    }
}

impl SidechainInfo {
    /// Decodes one sidechain description: the first hash id is forward-hex
    /// SHA256, the second forward-hex RIPEMD160.
    pub fn decode(
        name: &str,
        version: i32,
        description: &str,
        hash_id_1: &str,
        hash_id_2: &str,
    ) -> (r: Result<SidechainInfo, DecodeError>)
        ensures
            r is Ok <==> fixed_hex_ok(hash_id_1@, 32) && fixed_hex_ok(hash_id_2@, 20),
            r matches Ok(out) ==> out.name@ == name@ && out.version == version && out.description@
                == description@ && out.hash_id_1.0@ == hex_decode_spec(hash_id_1@)
                && out.hash_id_2.0@ == hex_decode_spec(hash_id_2@),
            r matches Err(e) ==> e == (if !fixed_hex_ok(hash_id_1@, 32) {
                fixed_hex_error(hash_id_1@, 32)
            } else {
                fixed_hex_error(hash_id_2@, 20)
            }),
    {
        let h1 = match Sha256Hash::from_hex(hash_id_1) {
            Ok(h) => h,
            Err(e) => {
                return Err(e);
            },
        };
        let h2 = match Ripemd160Hash::from_hex(hash_id_2) {
            Ok(h) => h,
            Err(e) => {
                return Err(e);
            },
        };
        Ok(
            SidechainInfo {
                name: name.to_owned(),
                version,
                description: description.to_owned(),
                hash_id_1: h1,
                hash_id_2: h2,
            },
        )
    }
}

} // verus!
