//! Block templates: the request, the template transactions, and the template
//! itself, with the insertion-order-preserving key-value data (coinbase
//! auxiliary bytes) modeled as an explicit ordered association list whose
//! keys stay unique.

use vstd::prelude::*;

use crate::compact::{compact_hex_ok, hex_seq_value, CompactTarget};
use crate::error::DecodeError;
use crate::hashes::{BlockHash, Txid, Wtxid};
use crate::hex::{
    fixed_hex_error, fixed_hex_ok, hex_decode, hex_decode_fixed, hex_decode_spec, is_hex_seq,
    reversed_hex_decode_spec, variable_hex_error,
};
use crate::text::str_eq;

verus! {

/// A block template request: the consensus rules asked for and any extra
/// capabilities. The default asks for segwit rules and nothing else.
#[derive(Clone, Debug, PartialEq, Eq)]
pub struct BlockTemplateRequest {
    pub rules: Vec<String>,
    pub capabilities: Vec<String>,
}

impl Default for BlockTemplateRequest {
    /// The default request: segwit rules, no capabilities.
    fn default() -> (r: Self)
        ensures
            r.rules@.len() == 1,
            r.rules@[0]@ == "segwit"@,
            r.capabilities@.len() == 0,
    {
        let mut rules: Vec<String> = Vec::new();
        rules.push("segwit".to_owned());
        BlockTemplateRequest { rules, capabilities: Vec::new() }
    }
}

/// One transaction of a block template.
#[derive(Clone, Debug, PartialEq, Eq)]
pub struct BlockTemplateTransaction {
    pub data: Vec<u8>,
    pub txid: Txid,
    pub hash: Wtxid,
    pub depends: Vec<u32>,
    pub fee: i64,
    pub sigops: Option<u64>,
    pub weight: u64,
}

/// Wire form of a template transaction: the raw data and both ids as hex.
#[derive(Clone, Debug)]
pub struct RawBlockTemplateTransaction {
    pub data: String,
    pub txid: String,
    pub hash: String,
    pub depends: Vec<u32>,
    pub fee: i64,
    pub sigops: Option<u64>,
    pub weight: u64,
}

/// Every coded field of a raw template transaction is well formed.
pub open spec fn template_tx_ok(raw: RawBlockTemplateTransaction) -> bool {
    &&& raw.data@.len() % 2 == 0 && is_hex_seq(raw.data@)
    &&& fixed_hex_ok(raw.txid@, 32)
    &&& fixed_hex_ok(raw.hash@, 32)
}

/// The decoded template transaction keeps every plain field and decodes the
/// coded ones.
pub open spec fn template_tx_matches(
    raw: RawBlockTemplateTransaction,
    out: BlockTemplateTransaction,
) -> bool {
    &&& out.data@ == hex_decode_spec(raw.data@)
    &&& out.txid.0@ == reversed_hex_decode_spec(raw.txid@)
    &&& out.hash.0@ == reversed_hex_decode_spec(raw.hash@)
    &&& out.depends@ == raw.depends@
    &&& out.fee == raw.fee
    &&& out.sigops == raw.sigops
    &&& out.weight == raw.weight
}

/// The error a bad template transaction reports, by field order: data,
/// transaction id, witness id.
pub open spec fn template_tx_error(raw: RawBlockTemplateTransaction) -> DecodeError
    recommends
        !template_tx_ok(raw),
{
    if !(raw.data@.len() % 2 == 0 && is_hex_seq(raw.data@)) {
        variable_hex_error(raw.data@)
    } else if !fixed_hex_ok(raw.txid@, 32) {
        fixed_hex_error(raw.txid@, 32)
    } else {
        fixed_hex_error(raw.hash@, 32)
    }
}

impl BlockTemplateTransaction {
    /// Decodes one template transaction from its wire fields.
    pub fn decode(raw: &RawBlockTemplateTransaction) -> (r: Result<
        BlockTemplateTransaction,
        DecodeError,
    >)
        ensures
            r is Ok <==> template_tx_ok(*raw),
            r matches Ok(out) ==> template_tx_matches(*raw, out),
            r matches Err(e) ==> e == template_tx_error(*raw),
    {
        let data = match hex_decode(raw.data.as_str()) {
            Ok(d) => d,
            Err(e) => {
                return Err(e);
            },
        };
        let txid = match Txid::from_hex(raw.txid.as_str()) {
            Ok(t) => t,
            Err(e) => {
                return Err(e);
            },
        };
        let hash = match Wtxid::from_hex(raw.hash.as_str()) {
            Ok(h) => h,
            Err(e) => {
                return Err(e);
            },
        };
        Ok(
            BlockTemplateTransaction {
                data,
                txid,
                hash,
                depends: raw.depends.clone(),
                fee: raw.fee,
                sigops: raw.sigops,
                weight: raw.weight,
            },
        )
    }
}

/// The coinbase of a template: either a full transaction or its value in
/// satoshis, whichever field the node sent.
#[derive(Clone, Debug, PartialEq, Eq)]
pub enum CoinbaseTxnOrValue {
    Txn(BlockTemplateTransaction),
    ValueSats(u64),
}

/// Wire form of the coinbase choice.
#[derive(Clone, Debug)]
pub enum RawCoinbaseTxnOrValue {
    Txn(RawBlockTemplateTransaction),
    ValueSats(u64),
}

/// View of an ordered key-value list: key characters and value bytes.
pub open spec fn aux_view(l: Seq<(String, Vec<u8>)>) -> Seq<(Seq<char>, Seq<u8>)> {
    Seq::new(l.len(), |i: int| (l[i].0@, l[i].1@))
}

/// Some entry of the list carries the key.
pub open spec fn aux_has_key(l: Seq<(Seq<char>, Seq<u8>)>, k: Seq<char>) -> bool {
    exists|i: int| 0 <= i < l.len() && (#[trigger] l[i]).0 == k
}

/// No two entries of the list share a key.
pub open spec fn aux_keys_unique(l: Seq<(Seq<char>, Seq<u8>)>) -> bool {
    forall|i: int, j: int| 0 <= i < j < l.len() ==> (#[trigger] l[i]).0 != (#[trigger] l[j]).0
}

/// Ordered-map insert: a later value replaces the one at the key's first
/// position; a new key goes to the end.
pub open spec fn aux_insert_spec(
    l: Seq<(Seq<char>, Seq<u8>)>,
    k: Seq<char>,
    v: Seq<u8>,
) -> Seq<(Seq<char>, Seq<u8>)>
    decreases l.len(),
{
    if l.len() == 0 {
        seq![(k, v)]
    } else if l.first().0 == k {
        seq![(k, v)].add(l.drop_first())
    } else {
        seq![l.first()].add(aux_insert_spec(l.drop_first(), k, v))
    }
}

/// The ordered map a wire list of hex-valued pairs folds to, entry by entry.
pub open spec fn aux_decode_spec(raws: Seq<(Seq<char>, Seq<char>)>) -> Seq<(Seq<char>, Seq<u8>)>
    decreases raws.len(),
{
    if raws.len() == 0 {
        Seq::empty()
    } else {
        aux_insert_spec(
            aux_decode_spec(raws.drop_last()),
            raws.last().0,
            hex_decode_spec(raws.last().1),
        )
    }
}

/// View of the wire list: key characters and value characters.
pub open spec fn raw_aux_view(raws: Seq<(String, String)>) -> Seq<(Seq<char>, Seq<char>)> {
    Seq::new(raws.len(), |i: int| (raws[i].0@, raws[i].1@))
}

/// Scanning for the key from the front agrees with the recursive insert: a
/// hit at the first matching index replaces there, a miss appends.
proof fn lemma_aux_insert_at(l: Seq<(Seq<char>, Seq<u8>)>, k: Seq<char>, v: Seq<u8>, i: int)
    requires
        0 <= i <= l.len(),
        forall|j: int| 0 <= j < i ==> (#[trigger] l[j]).0 != k,
        i < l.len() ==> l[i].0 == k,
    ensures
        aux_insert_spec(l, k, v) == (if i < l.len() {
            l.update(i, (k, v))
        } else {
            l.push((k, v))
        }),
    decreases l.len(),
{
    if l.len() == 0 {
        assert(aux_insert_spec(l, k, v) =~= l.push((k, v)));
    } else if i == 0 {
        if i < l.len() {
            assert(aux_insert_spec(l, k, v) =~= l.update(0, (k, v)));
        }
    } else {
        assert(l[0].0 != k);
        let tail = l.drop_first();
        assert(forall|j: int| 0 <= j < i - 1 ==> (#[trigger] tail[j]).0 != k);
        lemma_aux_insert_at(tail, k, v, i - 1);
        if i < l.len() {
            assert(aux_insert_spec(l, k, v) =~= l.update(i, (k, v)));
        } else {
            assert(aux_insert_spec(l, k, v) =~= l.push((k, v)));
        }
    }
}

/// Inserting keeps keys unique, and adds exactly the inserted key.
pub proof fn lemma_aux_insert_props(l: Seq<(Seq<char>, Seq<u8>)>, k: Seq<char>, v: Seq<u8>)
    requires
        aux_keys_unique(l),
    ensures
        aux_keys_unique(aux_insert_spec(l, k, v)),
        forall|k2: Seq<char>|
            #[trigger] aux_has_key(aux_insert_spec(l, k, v), k2) <==> aux_has_key(l, k2) || k2
                == k,
    decreases l.len(),
{
    if aux_has_key(l, k) {
        let i = choose|i: int| 0 <= i < l.len() && (#[trigger] l[i]).0 == k;
        assert(forall|j: int| 0 <= j < i ==> (#[trigger] l[j]).0 != k);
        lemma_aux_insert_at(l, k, v, i);
        let u = l.update(i, (k, v));
        assert forall|k2: Seq<char>| #[trigger]
            aux_has_key(u, k2) <==> aux_has_key(l, k2) || k2 == k by {
            if aux_has_key(u, k2) {
                let j = choose|j: int| 0 <= j < u.len() && (#[trigger] u[j]).0 == k2;
                if j == i {
                } else {
                    assert(l[j].0 == k2);
                }
            }
            if aux_has_key(l, k2) {
                let j = choose|j: int| 0 <= j < l.len() && (#[trigger] l[j]).0 == k2;
                if j == i {
                    assert(u[i].0 == k && l[i].0 == k);
                } else {
                    assert(u[j].0 == k2);
                }
            }
            if k2 == k {
                assert(u[i].0 == k2);
            }
        }
    } else {
        assert(forall|j: int| 0 <= j < l.len() ==> (#[trigger] l[j]).0 != k);
        lemma_aux_insert_at(l, k, v, l.len() as int);
        let u = l.push((k, v));
        assert forall|k2: Seq<char>| #[trigger]
            aux_has_key(u, k2) <==> aux_has_key(l, k2) || k2 == k by {
            if aux_has_key(u, k2) {
                let j = choose|j: int| 0 <= j < u.len() && (#[trigger] u[j]).0 == k2;
                if j < l.len() {
                    assert(l[j].0 == k2);
                }
            }
            if aux_has_key(l, k2) {
                let j = choose|j: int| 0 <= j < l.len() && (#[trigger] l[j]).0 == k2;
                assert(u[j].0 == k2);
            }
            if k2 == k {
                assert(u[l.len() as int].0 == k2);
            }
        }
    }
}

/// The decoded coinbase auxiliary map always has unique keys, whatever the
/// wire list held.
pub proof fn lemma_aux_decode_keys_unique(raws: Seq<(Seq<char>, Seq<char>)>)
    ensures
        aux_keys_unique(aux_decode_spec(raws)),
    decreases raws.len(),
{
    if raws.len() > 0 {
        lemma_aux_decode_keys_unique(raws.drop_last());
        lemma_aux_insert_props(
            aux_decode_spec(raws.drop_last()),
            raws.last().0,
            hex_decode_spec(raws.last().1),
        );
    }
}

/// Inserts one pair into the ordered association list: the first entry with
/// the same key takes the new value in place, a new key goes to the end.
fn aux_insert(list: &mut Vec<(String, Vec<u8>)>, key: String, value: Vec<u8>)
    ensures
        aux_view(final(list)@) == aux_insert_spec(aux_view(old(list)@), key@, value@),
{
    let ghost l0 = aux_view(list@);
    let ghost k_view = key@;
    let ghost v_view = value@;
    let n = list.len();
    let mut i: usize = 0;
    while i < n
        invariant
            n == list@.len(),
            i <= n,
            aux_view(list@) == l0,
            l0 == aux_view(old(list)@),
            key@ == k_view,
            value@ == v_view,
            forall|j: int| 0 <= j < i ==> (#[trigger] l0[j]).0 != k_view,
        decreases n - i,
    {
        proof {
            assert(l0[i as int] == (list@[i as int].0@, list@[i as int].1@));
        }
        if str_eq(&list[i].0, key.as_str()) {
            proof {
                assert(l0[i as int] == (list@[i as int].0@, list@[i as int].1@));
            }
            let k_old = list[i].0.clone();
            let ghost before = list@;
            list.set(i, (k_old, value));
            proof {
                assert(list@ == before.update(i as int, (k_old, value)));
                assert(k_old@ == k_view);
                lemma_aux_insert_at(l0, k_view, v_view, i as int);
                assert forall|j: int| 0 <= j < l0.len() implies aux_view(list@)[j] == l0.update(
                    i as int,
                    (k_view, v_view),
                )[j] by {
                    assert(l0[j] == (before[j].0@, before[j].1@));
                    if j != i {
                        assert(list@[j] == before[j]);
                    }
                }
                assert(aux_view(list@) =~= l0.update(i as int, (k_view, v_view)));
                assert(aux_view(list@) == aux_insert_spec(l0, k_view, v_view));
            }
            return ;
        }
        i = i + 1;
    }
    list.push((key, value));
    proof {
        lemma_aux_insert_at(l0, k_view, v_view, l0.len() as int);
        assert(aux_view(list@) =~= l0.push((k_view, v_view)));
        assert(aux_view(list@) == aux_insert_spec(l0, k_view, v_view));
    }
}

/// Every value of the wire list is well-formed hex.
pub open spec fn aux_values_ok(raws: Seq<(String, String)>) -> bool {
    forall|i: int|
        0 <= i < raws.len() ==> (#[trigger] raws[i]).1@.len() % 2 == 0 && is_hex_seq(raws[i].1@)
}

/// The error the first malformed value of the wire list reports.
pub open spec fn aux_values_error(raws: Seq<(String, String)>) -> DecodeError
    recommends
        !aux_values_ok(raws),
    decreases raws.len(),
{
    if raws.len() == 0 {
        // An empty list never fails; no error arises here.
        DecodeError::InvalidHexChar
    } else if !(raws.first().1@.len() % 2 == 0 && is_hex_seq(raws.first().1@)) {
        variable_hex_error(raws.first().1@)
    } else {
        aux_values_error(raws.drop_first())
    }
}

/// The list error is the error of the first malformed value.
proof fn lemma_aux_values_error_at(raws: Seq<(String, String)>, i: int)
    requires
        0 <= i < raws.len(),
        forall|j: int|
            0 <= j < i ==> (#[trigger] raws[j]).1@.len() % 2 == 0 && is_hex_seq(raws[j].1@),
        !(raws[i].1@.len() % 2 == 0 && is_hex_seq(raws[i].1@)),
    ensures
        aux_values_error(raws) == variable_hex_error(raws[i].1@),
    decreases i,
{
    if i > 0 {
        let tail = raws.drop_first();
        assert(forall|j: int|
            0 <= j < i - 1 ==> (#[trigger] tail[j]).1@.len() % 2 == 0 && is_hex_seq(tail[j].1@));
        assert(tail[i - 1] == raws[i]);
        lemma_aux_values_error_at(tail, i - 1);
    }
}

/// Decodes the coinbase auxiliary object into an ordered association list:
/// values hex-decoded, entry order preserved, and a repeated key keeping its
/// first position with its last value.
pub fn decode_coinbase_aux(raws: &Vec<(String, String)>) -> (r: Result<
    Vec<(String, Vec<u8>)>,
    DecodeError,
>)
    ensures
        r is Ok <==> aux_values_ok(raws@),
        r matches Ok(out) ==> aux_view(out@) == aux_decode_spec(raw_aux_view(raws@)),
        r matches Err(e) ==> e == aux_values_error(raws@),
{
    let mut out: Vec<(String, Vec<u8>)> = Vec::new();
    let mut i: usize = 0;
    proof {
        assert(aux_view(out@) =~= aux_decode_spec(raw_aux_view(raws@.take(0))));
    }
    while i < raws.len()
        invariant
            i <= raws@.len(),
            forall|j: int|
                0 <= j < i ==> (#[trigger] raws@[j]).1@.len() % 2 == 0 && is_hex_seq(raws@[j].1@),
            aux_view(out@) == aux_decode_spec(raw_aux_view(raws@.take(i as int))),
        decreases raws@.len() - i,
    {
        let value = match hex_decode(raws[i].1.as_str()) {
            Ok(v) => v,
            Err(e) => {
                proof {
                    lemma_aux_values_error_at(raws@, i as int);
                }
                return Err(e);
            },
        };
        let key = raws[i].0.clone();
        aux_insert(&mut out, key, value);
        proof {
            assert(raw_aux_view(raws@.take(i + 1)).drop_last() =~= raw_aux_view(
                raws@.take(i as int),
            ));
            assert(raw_aux_view(raws@.take(i + 1)).last() == (raws@[i as int].0@, raws@[
                i as int].1@));
        }
        i = i + 1;
    }
    proof {
        assert(raws@.take(raws@.len() as int) =~= raws@);
    }
    Ok(out)
}

/// Renders an ordered association list back to wire pairs: keys unchanged,
/// values as lowercase hex, order kept.
pub fn encode_coinbase_aux(aux: &Vec<(String, Vec<u8>)>) -> (r: Vec<(String, String)>)
    ensures
        r@.len() == aux@.len(),
        forall|i: int|
            0 <= i < aux@.len() ==> (#[trigger] r@[i]).0@ == aux@[i].0@ && r@[i].1@
                == crate::hex::hex_encode_spec(aux@[i].1@),
{
    let mut out: Vec<(String, String)> = Vec::new();
    let mut i: usize = 0;
    while i < aux.len()
        invariant
            i <= aux@.len(),
            out@.len() == i,
            forall|j: int|
                0 <= j < i ==> (#[trigger] out@[j]).0@ == aux@[j].0@ && out@[j].1@
                    == crate::hex::hex_encode_spec(aux@[j].1@),
        decreases aux@.len() - i,
    {
        let key = aux[i].0.clone();
        let value = crate::hex::hex_encode(aux[i].1.as_slice());
        out.push((key, value));
        i = i + 1;
    }
    out
}

/// A block template as the node reports it.
#[derive(Debug)]
pub struct BlockTemplate {
    pub version: i32,
    pub rules: Vec<String>,
    /// Version bits available for signalling, with their dynamic detail kept
    /// opaque. Entries come in the order the JSON object iterates them.
    pub version_bits_available: Vec<(String, serde_json::Value)>,
    pub version_bits_required: i32,
    pub prev_blockhash: BlockHash,
    pub transactions: Vec<BlockTemplateTransaction>,
    pub coinbase_aux: Vec<(String, Vec<u8>)>,
    pub coinbase_txn_or_value: CoinbaseTxnOrValue,
    /// Omitted when the server does not support long polling.
    pub long_poll_id: Option<String>,
    pub target: [u8; 32],
    pub mintime: u64,
    pub mutable: Vec<String>,
    pub nonce_range: [u8; 8],
    pub sigop_limit: u64,
    pub size_limit: u64,
    pub weight_limit: u64,
    pub current_time: u64,
    pub compact_target: CompactTarget,
    pub height: u32,
    pub signet_challenge: Option<Vec<u8>>,
    pub default_witness_commitment: Option<Vec<u8>>,
}

/// Wire form of a block template.
#[derive(Debug)]
pub struct RawBlockTemplate {
    pub version: i32,
    pub rules: Vec<String>,
    pub version_bits_available: Vec<(String, serde_json::Value)>,
    pub version_bits_required: i32,
    pub prev_blockhash: String,
    pub transactions: Vec<RawBlockTemplateTransaction>,
    pub coinbase_aux: Vec<(String, String)>,
    pub coinbase_txn_or_value: RawCoinbaseTxnOrValue,
    pub long_poll_id: Option<String>,
    pub target: String,
    pub mintime: u64,
    pub mutable: Vec<String>,
    pub nonce_range: String,
    pub sigop_limit: u64,
    pub size_limit: u64,
    pub weight_limit: u64,
    pub current_time: u64,
    pub bits: String,
    pub height: u32,
    pub signet_challenge: Option<String>,
    pub default_witness_commitment: Option<String>,
}

/// Every transaction of the wire list decodes.
pub open spec fn template_txs_ok(raws: Seq<RawBlockTemplateTransaction>) -> bool {
    forall|i: int| 0 <= i < raws.len() ==> template_tx_ok(#[trigger] raws[i])
}

/// The error the first bad transaction of the wire list reports.
pub open spec fn template_txs_error(raws: Seq<RawBlockTemplateTransaction>) -> DecodeError
    recommends
        !template_txs_ok(raws),
    decreases raws.len(),
{
    if raws.len() == 0 {
        // An empty list never fails; no error arises here.
        DecodeError::InvalidHexChar
    } else if !template_tx_ok(raws.first()) {
        template_tx_error(raws.first())
    } else {
        template_txs_error(raws.drop_first())
    }
}

/// The list error is the error of the first bad transaction.
proof fn lemma_template_txs_error_at(raws: Seq<RawBlockTemplateTransaction>, i: int)
    requires
        0 <= i < raws.len(),
        forall|j: int| 0 <= j < i ==> template_tx_ok(#[trigger] raws[j]),
        !template_tx_ok(raws[i]),
    ensures
        template_txs_error(raws) == template_tx_error(raws[i]),
    decreases i,
{
    if i > 0 {
        let tail = raws.drop_first();
        assert(forall|j: int| 0 <= j < i - 1 ==> template_tx_ok(#[trigger] tail[j]));
        assert(tail[i - 1] == raws[i]);
        lemma_template_txs_error_at(tail, i - 1);
    }
}

/// Every coded field of a raw template is well formed.
pub open spec fn template_decodable(raw: RawBlockTemplate) -> bool {
    &&& fixed_hex_ok(raw.prev_blockhash@, 32)
    &&& template_txs_ok(raw.transactions@)
    &&& aux_values_ok(raw.coinbase_aux@)
    &&& (raw.coinbase_txn_or_value matches RawCoinbaseTxnOrValue::Txn(t) ==> template_tx_ok(t))
    &&& fixed_hex_ok(raw.target@, 32)
    &&& fixed_hex_ok(raw.nonce_range@, 8)
    &&& compact_hex_ok(raw.bits@)
    &&& (raw.signet_challenge matches Some(s) ==> s@.len() % 2 == 0 && is_hex_seq(s@))
    &&& (raw.default_witness_commitment matches Some(s) ==> s@.len() % 2 == 0 && is_hex_seq(s@))
}

/// The decoded template keeps every plain field and decodes every coded one.
pub open spec fn template_matches(raw: RawBlockTemplate, out: BlockTemplate) -> bool {
    &&& out.version == raw.version
    &&& out.rules@ == raw.rules@
    &&& out.version_bits_available@ == raw.version_bits_available@
    &&& out.version_bits_required == raw.version_bits_required
    &&& out.prev_blockhash.0@ == reversed_hex_decode_spec(raw.prev_blockhash@)
    &&& out.transactions@.len() == raw.transactions@.len()
    &&& (forall|i: int|
        0 <= i < raw.transactions@.len() ==> template_tx_matches(
            #[trigger] raw.transactions@[i],
            out.transactions@[i],
        ))
    &&& aux_view(out.coinbase_aux@) == aux_decode_spec(raw_aux_view(raw.coinbase_aux@))
    &&& (raw.coinbase_txn_or_value matches RawCoinbaseTxnOrValue::Txn(t)
        ==> out.coinbase_txn_or_value matches CoinbaseTxnOrValue::Txn(d) && template_tx_matches(
        t,
        d,
    ))
    &&& (raw.coinbase_txn_or_value matches RawCoinbaseTxnOrValue::ValueSats(v)
        ==> out.coinbase_txn_or_value == CoinbaseTxnOrValue::ValueSats(v))
    &&& match (raw.long_poll_id, out.long_poll_id) {
        (Some(a), Some(b)) => a@ == b@,
        (None, None) => true,
        _ => false,
    }
    &&& out.target@ == hex_decode_spec(raw.target@)
    &&& out.mintime == raw.mintime
    &&& out.mutable@ == raw.mutable@
    &&& out.nonce_range@ == hex_decode_spec(raw.nonce_range@)
    &&& out.sigop_limit == raw.sigop_limit
    &&& out.size_limit == raw.size_limit
    &&& out.weight_limit == raw.weight_limit
    &&& out.current_time == raw.current_time
    &&& out.compact_target.consensus as int == hex_seq_value(raw.bits@)
    &&& out.height == raw.height
    &&& match (raw.signet_challenge, out.signet_challenge) {
        (Some(s), Some(b)) => b@ == hex_decode_spec(s@),
        (None, None) => true,
        _ => false,
    }
    &&& match (raw.default_witness_commitment, out.default_witness_commitment) {
        (Some(s), Some(b)) => b@ == hex_decode_spec(s@),
        (None, None) => true,
        _ => false,
    }
}

/// The error a bad raw template reports, by field order: previous hash,
/// transactions, coinbase auxiliary values, coinbase transaction, target,
/// nonce range, compact target, signet challenge, witness commitment.
pub open spec fn template_error_spec(raw: RawBlockTemplate) -> DecodeError
    recommends
        !template_decodable(raw),
{
    if !fixed_hex_ok(raw.prev_blockhash@, 32) {
        fixed_hex_error(raw.prev_blockhash@, 32)
    } else if !template_txs_ok(raw.transactions@) {
        template_txs_error(raw.transactions@)
    } else if !aux_values_ok(raw.coinbase_aux@) {
        aux_values_error(raw.coinbase_aux@)
    } else if raw.coinbase_txn_or_value matches RawCoinbaseTxnOrValue::Txn(t) && !template_tx_ok(
        t,
    ) {
        match raw.coinbase_txn_or_value {
            RawCoinbaseTxnOrValue::Txn(t) => template_tx_error(t),
            RawCoinbaseTxnOrValue::ValueSats(_) => DecodeError::InvalidHexChar,
        }
    } else if !fixed_hex_ok(raw.target@, 32) {
        fixed_hex_error(raw.target@, 32)
    } else if !fixed_hex_ok(raw.nonce_range@, 8) {
        fixed_hex_error(raw.nonce_range@, 8)
    } else if !compact_hex_ok(raw.bits@) {
        crate::compact::compact_hex_error(raw.bits@)
    } else if raw.signet_challenge matches Some(s) && !(s@.len() % 2 == 0 && is_hex_seq(s@)) {
        variable_hex_error(raw.signet_challenge->0@)
    } else {
        variable_hex_error(raw.default_witness_commitment->0@)
    }
}

impl BlockTemplate {
    /// Decodes a block template from its wire fields. The raw value is taken
    /// whole because the opaque version-bit details move into the result.
    pub fn decode(raw: RawBlockTemplate) -> (r: Result<BlockTemplate, DecodeError>)
        ensures
            r is Ok <==> template_decodable(raw),
            r matches Ok(out) ==> template_matches(raw, out),
            r matches Err(e) ==> e == template_error_spec(raw),
    {
        let prev_blockhash = match BlockHash::from_hex(raw.prev_blockhash.as_str()) {
            Ok(h) => h,
            Err(e) => {
                return Err(e);
            },
        };
        let mut transactions: Vec<BlockTemplateTransaction> = Vec::new();
        let mut i: usize = 0;
        while i < raw.transactions.len()
            invariant
                i <= raw.transactions@.len(),
                transactions@.len() == i,
                fixed_hex_ok(raw.prev_blockhash@, 32),
                forall|j: int| 0 <= j < i ==> template_tx_ok(#[trigger] raw.transactions@[j]),
                forall|j: int|
                    0 <= j < i ==> template_tx_matches(
                        #[trigger] raw.transactions@[j],
                        transactions@[j],
                    ),
            decreases raw.transactions@.len() - i,
        {
            match BlockTemplateTransaction::decode(&raw.transactions[i]) {
                Ok(t) => {
                    transactions.push(t);
                },
                Err(e) => {
                    proof {
                        lemma_template_txs_error_at(raw.transactions@, i as int);
                    }
                    return Err(e);
                },
            }
            i = i + 1;
        }
        let coinbase_aux = match decode_coinbase_aux(&raw.coinbase_aux) {
            Ok(a) => a,
            Err(e) => {
                return Err(e);
            },
        };
        let coinbase_txn_or_value = match &raw.coinbase_txn_or_value {
            RawCoinbaseTxnOrValue::Txn(t) => match BlockTemplateTransaction::decode(t) {
                Ok(d) => CoinbaseTxnOrValue::Txn(d),
                Err(e) => {
                    return Err(e);
                },
            },
            RawCoinbaseTxnOrValue::ValueSats(v) => CoinbaseTxnOrValue::ValueSats(*v),
        };
        let target = match hex_decode_fixed::<32>(raw.target.as_str()) {
            Ok(t) => t,
            Err(e) => {
                return Err(e);
            },
        };
        let nonce_range = match hex_decode_fixed::<8>(raw.nonce_range.as_str()) {
            Ok(n) => n,
            Err(e) => {
                return Err(e);
            },
        };
        let compact_target = match CompactTarget::from_unprefixed_hex(raw.bits.as_str()) {
            Ok(c) => c,
            Err(e) => {
                return Err(e);
            },
        };
        let signet_challenge = match &raw.signet_challenge {
            Some(s) => match hex_decode(s.as_str()) {
                Ok(b) => Some(b),
                Err(e) => {
                    return Err(e);
                },
            },
            None => None,
        };
        let default_witness_commitment = match &raw.default_witness_commitment {
            Some(s) => match hex_decode(s.as_str()) {
                Ok(b) => Some(b),
                Err(e) => {
                    return Err(e);
                },
            },
            None => None,
        };
        Ok(
            BlockTemplate {
                version: raw.version,
                rules: raw.rules,
                version_bits_available: raw.version_bits_available,
                version_bits_required: raw.version_bits_required,
                prev_blockhash,
                transactions,
                coinbase_aux,
                coinbase_txn_or_value,
                long_poll_id: raw.long_poll_id,
                target,
                mintime: raw.mintime,
                mutable: raw.mutable,
                nonce_range,
                sigop_limit: raw.sigop_limit,
                size_limit: raw.size_limit,
                weight_limit: raw.weight_limit,
                current_time: raw.current_time,
                compact_target,
                height: raw.height,
                signet_challenge,
                default_witness_commitment,
            },
        )
    }
}

} // verus!
