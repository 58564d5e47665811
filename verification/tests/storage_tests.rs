use stake_checker::hexstr::hex_encode_prefixed;
use stake_checker::storage::{
    build_storage_key, decode_account_id, polkadot_address_of, validate_polkadot_addr,
};
use stake_checker::ScError;

#[test]
fn total_issuance_key_matches_the_chain_convention() {
    // The well-known key of the Balances module's TotalIssuance value.
    let key = build_storage_key("Balances", "TotalIssuance", None);
    assert_eq!(
        hex_encode_prefixed(&key),
        "0xc2261276cc9d1f8598ea4b6a74b15c2f57c875e4cff74148e4628f264b974c80"
    );
}

#[test]
fn system_account_prefix_matches_the_chain_convention() {
    let key = build_storage_key("System", "Account", None);
    assert_eq!(
        hex_encode_prefixed(&key),
        "0x26aa394eea5630e07c48ae0c9558cef7b99d880ec681799c0cf30e8886371da9"
    );
}

#[test]
fn account_keyed_entry_appends_digest_and_raw_bytes() {
    let base = build_storage_key("System", "Account", None);
    let id: Vec<u8> = (0u8..32).collect();
    let key = build_storage_key("System", "Account", Some(&id));
    assert_eq!(key.len(), 16 + 16 + 16 + 32);
    assert_eq!(&key[..32], &base[..]);
    assert_eq!(&key[48..], &id[..]);
    // The middle sixteen bytes are a digest of the identifier, not the
    // identifier itself.
    assert_ne!(&key[32..48], &id[..16]);
    let other = build_storage_key("System", "Account", Some(&vec![9u8; 32]));
    assert_ne!(&key[32..48], &other[32..48]);
}

#[test]
fn account_identifier_round_trips_through_its_string_form() {
    let id = vec![0u8; 32];
    let addr = polkadot_address_of(&id).unwrap();
    let decoded = decode_account_id(&addr).unwrap();
    assert_eq!(decoded, id);
    let validated = validate_polkadot_addr(&addr).unwrap();
    assert_eq!(validated, id);

    let id2: Vec<u8> = (100u8..132).collect();
    let addr2 = polkadot_address_of(&id2).unwrap();
    assert_ne!(addr, addr2);
    assert_eq!(validate_polkadot_addr(&addr2).unwrap(), id2);
}

#[test]
fn mismatched_checksum_fails_to_decode() {
    let id = vec![0u8; 32];
    let addr = polkadot_address_of(&id).unwrap();
    // Corrupt the last character with a different base-58 character.
    let mut corrupted: String = addr[..addr.len() - 1].to_string();
    let last = addr.chars().last().unwrap();
    corrupted.push(if last == '1' { '2' } else { '1' });
    assert_eq!(decode_account_id(&corrupted), Err(ScError::InvalidAccountIdentifier));
    assert_eq!(validate_polkadot_addr(&corrupted), Err(ScError::InvalidAccountIdentifier));
}

#[test]
fn plainly_invalid_identifiers_are_rejected() {
    assert_eq!(decode_account_id("dummyAddress"), Err(ScError::InvalidAccountIdentifier));
    assert_eq!(decode_account_id(""), Err(ScError::InvalidAccountIdentifier));
    assert_eq!(
        decode_account_id("<your_address_here>"),
        Err(ScError::InvalidAccountIdentifier)
    );
    assert_eq!(polkadot_address_of(&vec![0u8; 31]), Err(ScError::InvalidAccountIdentifier));
}
