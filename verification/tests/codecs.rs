use mainchain_client::amount::AmountBtc;
use mainchain_client::compact::CompactTarget;
use mainchain_client::error::DecodeError;
use mainchain_client::hashes::{BlockHash, Sha256Hash, Txid};
use mainchain_client::hex::{hex_decode, hex_encode};

#[test]
fn hex_encode_renders_lowercase_pairs() {
    assert_eq!(hex_encode(&[0x00, 0xab, 0x1f]), "00ab1f");
    assert_eq!(hex_encode(&[]), "");
}

#[test]
fn hex_decode_accepts_mixed_case() {
    assert_eq!(hex_decode("00AB1f").unwrap(), vec![0x00, 0xab, 0x1f]);
}

#[test]
fn hex_round_trip_on_all_byte_values() {
    let bytes: Vec<u8> = (0u16..256).map(|b| b as u8).collect();
    let encoded = hex_encode(&bytes);
    assert_eq!(hex_decode(&encoded).unwrap(), bytes);
}

#[test]
fn hex_decode_rejects_odd_length() {
    assert_eq!(hex_decode("abc").unwrap_err(), DecodeError::OddHexLength);
}

#[test]
fn hex_decode_rejects_bad_character() {
    assert_eq!(hex_decode("zz").unwrap_err(), DecodeError::InvalidHexChar);
}

#[test]
fn reversed_hex_round_trip_fixed_width() {
    // Reversed-hex decode of a reversed-hex encode gives the bytes back.
    let mut bytes = [0u8; 32];
    for (i, b) in bytes.iter_mut().enumerate() {
        *b = i as u8;
    }
    let hash = BlockHash(bytes);
    let encoded = hash.to_hex();
    assert_eq!(BlockHash::from_hex(&encoded).unwrap(), hash);
}

#[test]
fn reversed_hex_decode_reverses_byte_order() {
    let mut wire = String::from("01");
    wire.push_str(&"00".repeat(31));
    let txid = Txid::from_hex(&wire).unwrap();
    // The leading wire byte 0x01 lands at the end of internal storage.
    assert_eq!(txid.0[31], 0x01);
    assert_eq!(txid.0[0], 0x00);
}

#[test]
fn forward_hex_decode_keeps_byte_order() {
    let mut wire = String::from("01");
    wire.push_str(&"00".repeat(31));
    let digest = Sha256Hash::from_hex(&wire).unwrap();
    assert_eq!(digest.0[0], 0x01);
    assert_eq!(digest.0[31], 0x00);
}

#[test]
fn fixed_width_hex_rejects_wrong_length() {
    assert_eq!(
        BlockHash::from_hex("00ff").unwrap_err(),
        DecodeError::WrongLength { expected: 64, actual: 4 }
    );
}

#[test]
fn compact_target_round_trips_width_eight() {
    // decode then encode reproduces a valid eight-digit string exactly.
    let t = CompactTarget::from_unprefixed_hex("1d00ffff").unwrap();
    assert_eq!(t.to_consensus(), 0x1d00ffff);
    assert_eq!(t.to_unprefixed_hex(), "1d00ffff");
}

#[test]
fn compact_target_normalizes_case() {
    let t = CompactTarget::from_unprefixed_hex("1D00FFFF").unwrap();
    assert_eq!(t.to_unprefixed_hex(), "1d00ffff");
}

#[test]
fn compact_target_rejects_prefix_empty_and_overflow() {
    assert_eq!(
        CompactTarget::from_unprefixed_hex("0x1d00ffff").unwrap_err(),
        DecodeError::InvalidHexChar
    );
    assert_eq!(
        CompactTarget::from_unprefixed_hex("").unwrap_err(),
        DecodeError::EmptyInput
    );
    assert_eq!(
        CompactTarget::from_unprefixed_hex("100000000").unwrap_err(),
        DecodeError::ValueOutOfRange
    );
    // Leading zeros are fine as long as the value fits.
    let t = CompactTarget::from_unprefixed_hex("0000000001").unwrap();
    assert_eq!(t.to_consensus(), 1);
}

#[test]
fn compact_target_expands_to_mainnet_genesis_target() {
    let t = CompactTarget::from_consensus(0x1d00ffff);
    let target = t.to_target_be_bytes().unwrap();
    let mut expected = [0u8; 32];
    expected[4] = 0xff;
    expected[5] = 0xff;
    assert_eq!(target, expected);
}

#[test]
fn compact_target_sign_bit_gives_zero_target() {
    // A mantissa above 0x7fffff is negative and denotes target zero.
    let t = CompactTarget::from_consensus(0x1d800000);
    assert_eq!(t.to_target_be_bytes().unwrap(), [0u8; 32]);
}

#[test]
fn compact_target_overflow_has_no_target() {
    // Exponent 0xff shifts the mantissa far beyond 256 bits.
    let t = CompactTarget::from_consensus(0xff00ffff);
    assert!(t.to_target_be_bytes().is_none());
}

#[test]
fn amount_parses_the_example_amount() {
    // "1.50000000" denotes 150000000 satoshis and re-encodes identically.
    let a = AmountBtc::from_btc_str("1.50000000").unwrap();
    assert_eq!(a.sats, 150_000_000);
    assert_eq!(a.to_btc_string(), "1.50000000");
}

#[test]
fn amount_parses_short_fraction_and_integers() {
    assert_eq!(AmountBtc::from_btc_str("0.1").unwrap().sats, 10_000_000);
    assert_eq!(AmountBtc::from_btc_str("21").unwrap().sats, 2_100_000_000);
    assert_eq!(AmountBtc::from_btc_str("0.00000001").unwrap().sats, 1);
}

#[test]
fn amount_encodes_zero_and_round_trips() {
    assert_eq!(AmountBtc::from_sats(0).to_btc_string(), "0.00000000");
    for sats in [0u64, 1, 99_999_999, 100_000_000, 2_100_000_000_000_000, u64::MAX] {
        let s = AmountBtc::from_sats(sats).to_btc_string();
        assert_eq!(AmountBtc::from_btc_str(&s).unwrap().sats, sats);
    }
}

#[test]
fn amount_rejects_too_many_fractional_digits() {
    assert_eq!(
        AmountBtc::from_btc_str("1.123456789").unwrap_err(),
        DecodeError::AmountTooPrecise
    );
}

#[test]
fn amount_rejects_malformed_strings() {
    for bad in ["", ".", "1.", ".5", "-0.0", "-1", "1.2.3", "1e8", " 1", "+1"] {
        assert_eq!(
            AmountBtc::from_btc_str(bad).unwrap_err(),
            DecodeError::AmountMalformed,
            "input {:?}",
            bad
        );
    }
}

#[test]
fn amount_rejects_values_above_u64_satoshis() {
    // u64::MAX satoshis is 184467440737.09551615 coins.
    assert_eq!(
        AmountBtc::from_btc_str("184467440738").unwrap_err(),
        DecodeError::AmountOverflow
    );
    assert_eq!(
        AmountBtc::from_btc_str("184467440737.09551616").unwrap_err(),
        DecodeError::AmountOverflow
    );
    assert_eq!(
        AmountBtc::from_btc_str("184467440737.09551615").unwrap().sats,
        u64::MAX
    );
}
