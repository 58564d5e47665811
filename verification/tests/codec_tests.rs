use stake_checker::hexstr::{hex_decode, hex_decode_prefixed, hex_encode, hex_encode_prefixed};
use stake_checker::scale::{
    decode_system_account, decode_u128, stringify_encoded_system_account,
    stringify_encoded_total_issuance, stringify_encoded_u128, PolkadotAccountInfo,
};
use stake_checker::ScError;

#[test]
fn sixteen_le_bytes_decode_to_the_known_issuance() {
    let bytes = hex_decode("8a90a53a59f376aa0000000000000000").unwrap();
    assert_eq!(bytes.len(), 16);
    assert_eq!(decode_u128(&bytes), Ok(12283272598261174410u128));
    assert_eq!(stringify_encoded_u128(&bytes), Ok(String::from("12283272598261174410")));
}

#[test]
fn short_input_is_truncated() {
    assert_eq!(decode_u128(&[0u8; 15]), Err(ScError::TruncatedInput));
    assert_eq!(decode_u128(&[]), Err(ScError::TruncatedInput));
    assert_eq!(stringify_encoded_u128(&[1, 2, 3]), Err(ScError::TruncatedInput));
    assert_eq!(decode_system_account(&[0u8; 79]), Err(ScError::TruncatedInput));
    assert_eq!(
        stringify_encoded_system_account(&[0u8; 79], 10),
        Err(ScError::TruncatedInput)
    );
    assert_eq!(
        stringify_encoded_total_issuance(&[0u8; 15], 10),
        Err(ScError::TruncatedInput)
    );
}

#[test]
fn trailing_bytes_are_left_to_the_caller() {
    let mut bytes = vec![7u8];
    bytes.extend_from_slice(&[0u8; 20]);
    assert_eq!(decode_u128(&bytes), Ok(7u128));
}

#[test]
fn total_issuance_renders_with_decimal_point_and_label() {
    let bytes = hex_decode("8a90a53a59f376aa0000000000000000").unwrap();
    assert_eq!(
        stringify_encoded_total_issuance(&bytes, 10),
        Ok(String::from("1228327259.8261174410 DOT"))
    );
    assert_eq!(
        stringify_encoded_total_issuance(&bytes, 0),
        Ok(String::from("12283272598261174410. DOT"))
    );
}

fn le_account_record() -> Vec<u8> {
    let mut bytes: Vec<u8> = Vec::new();
    bytes.extend_from_slice(&3u32.to_le_bytes());
    bytes.extend_from_slice(&1u32.to_le_bytes());
    bytes.extend_from_slice(&2u32.to_le_bytes());
    bytes.extend_from_slice(&0u32.to_le_bytes());
    bytes.extend_from_slice(&25000000000u128.to_le_bytes());
    bytes.extend_from_slice(&7u128.to_le_bytes());
    bytes.extend_from_slice(&20000000000u128.to_le_bytes());
    bytes.extend_from_slice(&20000000000u128.to_le_bytes());
    bytes
}

#[test]
fn account_record_decodes_field_by_field() {
    let bytes = le_account_record();
    assert_eq!(bytes.len(), 80);
    assert_eq!(
        decode_system_account(&bytes),
        Ok(PolkadotAccountInfo {
            nonce: 3,
            consumers: 1,
            providers: 2,
            sufficients: 0,
            free: 25000000000,
            reserved: 7,
            misc_frozen: 20000000000,
            fee_frozen: 20000000000,
        })
    );
}

#[test]
fn account_record_renders_counters_and_balances() {
    let bytes = le_account_record();
    assert_eq!(
        stringify_encoded_system_account(&bytes, 10),
        Ok(String::from(
            "Nonce: 3, Consumers: 1, Providers: 2, Sufficients: 0, \
             Free: 2.5000000000 DOT, Reserved: 0.0000000007 DOT, \
             Misc Frozen: 2.0000000000 DOT, Fee Frozen: 2.0000000000 DOT"
        ))
    );
}

#[test]
fn hex_round_trips_and_rejects_malformed_text() {
    assert_eq!(hex_encode(&[]), "");
    assert_eq!(hex_encode(&[0x8a, 0x90, 0xa5, 0x3a]), "8a90a53a");
    assert_eq!(hex_encode_prefixed(&[0x8a, 0x90]), "0x8a90");
    assert_eq!(hex_decode("8A90A53A").unwrap(), vec![0x8a, 0x90, 0xa5, 0x3a]);
    assert_eq!(hex_decode_prefixed("0x8a90a53a").unwrap(), vec![0x8a, 0x90, 0xa5, 0x3a]);
    assert_eq!(hex_decode_prefixed("8a90a53a").unwrap(), vec![0x8a, 0x90, 0xa5, 0x3a]);
    assert!(hex_decode("8a9").is_none());
    assert!(hex_decode("8g").is_none());
    assert!(hex_decode_prefixed("0x8g").is_none());
    let all: Vec<u8> = (0u8..=255).collect();
    let encoded = hex_encode(&all);
    assert_eq!(hex_decode(&encoded).unwrap(), all);
}
