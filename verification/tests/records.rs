use mainchain_client::commitment::{
    decode_block_commitment, BlockCommitment, BlockCommitments, RawBlockCommitment, SidechainId,
};
use mainchain_client::error::{CommitmentField, DecodeError};
use mainchain_client::hashes::BlockHash;
use mainchain_client::schema::{Block, Header, Network, RawBlock, RawHeader, TxOutSetInfo, Vote};
use mainchain_client::template::{
    decode_coinbase_aux, BlockTemplate, BlockTemplateRequest, BlockTemplateTransaction,
    RawBlockTemplate, RawBlockTemplateTransaction, RawCoinbaseTxnOrValue,
};
use mainchain_client::witness::{BoolWitness, GetBlockVerbosity, U8Witness};

fn plain_record(txout: u32, tag: &str) -> RawBlockCommitment {
    RawBlockCommitment {
        txout,
        commitment_type: tag.to_owned(),
        h: None,
        hash: None,
        nsidechain: None,
        prevbytes: None,
        script: None,
    }
}

#[test]
fn commitment_array_preserves_order_and_txout() {
    let mut second = plain_record(0, "Witness commitment");
    second.script = Some("6a24aa21a9ed".to_owned());
    let raws = vec![plain_record(2, "Sidechain proposal"), second];
    let decoded = BlockCommitments::decode(&raws).unwrap();
    assert_eq!(decoded.0.len(), 2);
    assert_eq!(decoded.0[0], (2, BlockCommitment::SidechainProposal));
    assert_eq!(
        decoded.0[1],
        (0, BlockCommitment::WitnessCommitment { script: "6a24aa21a9ed".to_owned() })
    );
}

#[test]
fn commitment_unknown_tag_is_an_error_not_a_skip() {
    let raws = vec![
        plain_record(0, "Sidechain proposal"),
        plain_record(1, "Brand new commitment kind"),
    ];
    assert_eq!(
        BlockCommitments::decode(&raws).unwrap_err(),
        DecodeError::UnknownCommitmentType
    );
}

#[test]
fn commitment_bmm_hstar_reverses_its_hash() {
    let mut h = String::from("01");
    h.push_str(&"00".repeat(31));
    let mut raw = plain_record(3, "BMM h*");
    raw.h = Some(h);
    raw.nsidechain = Some(7);
    raw.prevbytes = Some("00ff00aa".to_owned());
    let (txout, c) = decode_block_commitment(&raw).unwrap();
    assert_eq!(txout, 3);
    match c {
        BlockCommitment::BmmHStar { commitment, sidechain_id, prev_bytes } => {
            assert_eq!(commitment[31], 0x01);
            assert_eq!(commitment[0], 0x00);
            assert_eq!(sidechain_id, SidechainId(7));
            assert_eq!(prev_bytes, [0x00, 0xff, 0x00, 0xaa]);
        },
        other => panic!("wrong variant: {:?}", other),
    }
}

#[test]
fn commitment_missing_field_is_reported() {
    let raw = plain_record(0, "Withdrawal bundle hash");
    assert_eq!(
        decode_block_commitment(&raw).unwrap_err(),
        DecodeError::MissingField { field: CommitmentField::Hash }
    );
    let mut raw = plain_record(0, "BMM h*");
    raw.h = Some("00".repeat(32));
    raw.prevbytes = Some("00ff00aa".to_owned());
    assert_eq!(
        decode_block_commitment(&raw).unwrap_err(),
        DecodeError::MissingField { field: CommitmentField::Nsidechain }
    );
}

#[test]
fn witness_accepts_only_its_own_literal() {
    // Value 1 builds the witness whose mapping picks the rich object.
    assert!(U8Witness::<1>::decode(1).is_ok());
    assert_eq!(U8Witness::<1>::decode(5).unwrap_err(), DecodeError::WitnessMismatch);
    assert_eq!(U8Witness::<0>::decode(1).unwrap_err(), DecodeError::WitnessMismatch);
    assert_eq!(U8Witness::<2>::decode(2).unwrap().encode(), 2);
    assert!(BoolWitness::<true>::decode(true).is_ok());
    assert_eq!(
        BoolWitness::<false>::decode(true).unwrap_err(),
        DecodeError::WitnessMismatch
    );
}

fn resolves_to<V: GetBlockVerbosity<Response = R>, R>() {}

#[test]
fn witness_one_resolves_to_the_rich_block_object() {
    // The mapping over {0, 1} sends witness 1 to the rich object type and
    // witness 0 to the consensus-encoded form; this compiles only if so.
    resolves_to::<U8Witness<1>, Block>();
    resolves_to::<U8Witness<0>, mainchain_client::schema::ConsensusEncoded>();
}

#[test]
fn header_decodes_with_default_previous_hash() {
    let raw = RawHeader {
        hash: "00".repeat(32),
        height: 0,
        version: 1,
        previousblockhash: None,
        merkleroot: "4a5e1e4baab89f3a32518a88c31bc87f618f76673e2cc77ab2127b7afdeda33b".to_owned(),
        time: 1231006505,
        bits: "1d00ffff".to_owned(),
        nonce: 2083236893,
    };
    let header = Header::decode(&raw).unwrap();
    assert_eq!(header.prev_blockhash, BlockHash([0u8; 32]));
    assert_eq!(header.bits.to_consensus(), 0x1d00ffff);
    // The merkle root is stored reversed relative to the wire string.
    assert_eq!(header.merkle_root.0[0], 0x3b);
    let target = header.target().unwrap();
    assert_eq!(target[4], 0xff);
    assert!(header.work().is_some());
}

#[test]
fn header_rejects_bad_bits() {
    let raw = RawHeader {
        hash: "00".repeat(32),
        height: 0,
        version: 1,
        previousblockhash: None,
        merkleroot: "00".repeat(32),
        time: 0,
        bits: "".to_owned(),
        nonce: 0,
    };
    assert_eq!(Header::decode(&raw).unwrap_err(), DecodeError::EmptyInput);
}

#[test]
fn network_and_vote_wire_words_round_trip() {
    assert_eq!(Network::from_core_arg("main").unwrap(), Network::Mainnet);
    assert_eq!(Network::from_core_arg("signet").unwrap(), Network::Signet);
    assert_eq!(Network::Mainnet.to_core_arg(), "main");
    assert_eq!(
        Network::from_core_arg("mainnet").unwrap_err(),
        DecodeError::UnknownNetwork
    );
    assert_eq!(Vote::from_wire("abstain").unwrap(), Vote::Abstain);
    assert_eq!(Vote::Downvote.to_wire(), "downvote");
    assert!(Vote::from_wire("Upvote").is_err());
}

#[test]
fn txoutset_info_keeps_forward_and_reversed_orders_apart() {
    let mut wire = String::from("01");
    wire.push_str(&"00".repeat(31));
    let info = TxOutSetInfo::decode(10, &wire, 5, 6, &wire).unwrap();
    // The best-block hash is reversed on the wire, the serialized hash not.
    assert_eq!(info.best_block.0[31], 0x01);
    assert_eq!(info.hash_serialized_3[0], 0x01);
}

#[test]
fn coinbase_aux_keeps_first_position_and_last_value() {
    let raws = vec![
        ("alpha".to_owned(), "01".to_owned()),
        ("beta".to_owned(), "02".to_owned()),
        ("alpha".to_owned(), "03".to_owned()),
    ];
    let out = decode_coinbase_aux(&raws).unwrap();
    assert_eq!(out.len(), 2);
    assert_eq!(out[0], ("alpha".to_owned(), vec![0x03]));
    assert_eq!(out[1], ("beta".to_owned(), vec![0x02]));
}

#[test]
fn coinbase_aux_rejects_bad_hex_values() {
    let raws = vec![("alpha".to_owned(), "0".to_owned())];
    assert_eq!(decode_coinbase_aux(&raws).unwrap_err(), DecodeError::OddHexLength);
}

#[test]
fn block_template_request_defaults_to_segwit() {
    let req = BlockTemplateRequest::default();
    assert_eq!(req.rules, vec!["segwit".to_owned()]);
    assert!(req.capabilities.is_empty());
}

fn raw_template_tx() -> RawBlockTemplateTransaction {
    RawBlockTemplateTransaction {
        data: "0102".to_owned(),
        txid: "11".repeat(32),
        hash: "22".repeat(32),
        depends: vec![1],
        fee: 1000,
        sigops: Some(4),
        weight: 400,
    }
}

#[test]
fn template_transaction_decodes_its_hex_fields() {
    let tx = BlockTemplateTransaction::decode(&raw_template_tx()).unwrap();
    assert_eq!(tx.data, vec![0x01, 0x02]);
    assert_eq!(tx.txid.0, [0x11u8; 32]);
    assert_eq!(tx.hash.0, [0x22u8; 32]);
    assert_eq!(tx.fee, 1000);
}

#[test]
fn block_template_decodes_whole() {
    let raw = RawBlockTemplate {
        version: 0x20000000,
        rules: vec!["segwit".to_owned()],
        version_bits_available: vec![("taproot".to_owned(), serde_json::Value::Null)],
        version_bits_required: 0,
        prev_blockhash: "33".repeat(32),
        transactions: vec![raw_template_tx()],
        coinbase_aux: vec![("key".to_owned(), "aa".to_owned())],
        coinbase_txn_or_value: RawCoinbaseTxnOrValue::ValueSats(5_000_000_000),
        long_poll_id: None,
        target: "44".repeat(32),
        mintime: 100,
        mutable: vec!["time".to_owned()],
        nonce_range: "00000000ffffffff".to_owned(),
        sigop_limit: 80000,
        size_limit: 4000000,
        weight_limit: 4000000,
        current_time: 200,
        bits: "207fffff".to_owned(),
        height: 5,
        signet_challenge: None,
        default_witness_commitment: Some("6a24".to_owned()),
    };
    let t = BlockTemplate::decode(raw).unwrap();
    assert_eq!(t.prev_blockhash.0, [0x33u8; 32]);
    assert_eq!(t.transactions.len(), 1);
    assert_eq!(t.coinbase_aux, vec![("key".to_owned(), vec![0xaa])]);
    assert_eq!(t.target, [0x44u8; 32]);
    assert_eq!(t.nonce_range, [0x00, 0x00, 0x00, 0x00, 0xff, 0xff, 0xff, 0xff]);
    assert_eq!(t.compact_target.to_consensus(), 0x207fffff);
    assert_eq!(t.default_witness_commitment, Some(vec![0x6a, 0x24]));
}

#[test]
fn block_decodes_its_transaction_ids_in_order() {
    let raw = RawBlock {
        hash: "55".repeat(32),
        confirmations: 1,
        strippedsize: 200,
        size: 200,
        weight: 800,
        height: 9,
        version: 1,
        version_hex: "00000001".to_owned(),
        merkleroot: "66".repeat(32),
        tx: vec!["77".repeat(32), "88".repeat(32)],
        time: 3,
        mediantime: 2,
        nonce: 42,
        bits: "207fffff".to_owned(),
        chainwork: "00".repeat(32),
        previousblockhash: Some("99".repeat(32)),
        nextblockhash: None,
    };
    let b = Block::decode(&raw).unwrap();
    assert_eq!(b.tx.len(), 2);
    assert_eq!(b.tx[0].0, [0x77u8; 32]);
    assert_eq!(b.tx[1].0, [0x88u8; 32]);
    assert_eq!(b.previousblockhash.unwrap().0, [0x99u8; 32]);
    assert_eq!(b.nextblockhash, None);
}

#[test]
fn work_is_a_real_transform_of_the_target() {
    let raw = RawHeader {
        hash: "00".repeat(32),
        height: 0,
        version: 1,
        previousblockhash: None,
        merkleroot: "00".repeat(32),
        time: 0,
        bits: "1d00ffff".to_owned(),
        nonce: 0,
    };
    let header = Header::decode(&raw).unwrap();
    let target = header.target().unwrap();
    let work = header.work().unwrap();
    // The work of the lowest-difficulty target is 2^32, not the target bytes.
    assert_ne!(work, target);
    let mut expected = [0u8; 32];
    expected[27] = 0x01;
    expected[29] = 0x01;
    expected[31] = 0x01;
    assert_eq!(work, expected);
}

#[test]
fn coinbase_aux_round_trips_through_its_wire_form() {
    let raws = vec![
        ("alpha".to_owned(), "0aff".to_owned()),
        ("beta".to_owned(), "".to_owned()),
    ];
    let decoded = decode_coinbase_aux(&raws).unwrap();
    let encoded = mainchain_client::template::encode_coinbase_aux(&decoded);
    assert_eq!(encoded, raws);
}
