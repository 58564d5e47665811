//! Storage keys for chain state lookups, and account identifiers.
//!
//! A storage key is the 16-byte xx-hash digest of the module name
//! followed by the digest of the field name; an entry keyed by an
//! account additionally carries the 16-byte Blake2 digest of the raw
//! 32-byte account identifier and then those bytes themselves. The
//! identifier travels in a checksummed base-58 string form; decoding
//! and re-encoding are the chain library's work, taken on trust.

use crate::ScError;
use sp_core::crypto::Ss58Codec;
use vstd::prelude::*;
use vstd::slice::slice_to_vec;
use vstd::string::StringSliceAdditionalSpecFns;

verus! {

/// The 16-byte xx-hash digest of a byte sequence, as sp_crypto_hashing
/// computes it.
pub uninterp spec fn twox128_of(data: Seq<u8>) -> Seq<u8>;

/// The 16-byte Blake2 digest of a byte sequence, as sp_crypto_hashing
/// computes it.
pub uninterp spec fn blake2_128_of(data: Seq<u8>) -> Seq<u8>;

/// What decoding a checksummed address string yields: the 32 raw
/// identifier bytes, or nothing when the base-58 form, the length, the
/// format or the checksum is off.
pub uninterp spec fn ss58_decoded(s: Seq<char>) -> Option<Seq<u8>>;

/// The checksummed Polkadot-format address string of 32 raw identifier
/// bytes.
pub uninterp spec fn ss58_polkadot_string(b: Seq<u8>) -> Seq<char>;

/// Relies on sp_crypto_hashing's `twox_128`: the 16-byte digest depends
/// on the input bytes alone.
#[verifier::external_body]
fn twox_128(data: &[u8]) -> (r: Vec<u8>)
    ensures
        r@ == twox128_of(data@),
        r@.len() == 16,
{
    sp_crypto_hashing::twox_128(data).to_vec()
}

/// Relies on sp_crypto_hashing's `blake2_128`: the 16-byte digest
/// depends on the input bytes alone.
#[verifier::external_body]
fn blake2_128(data: &[u8]) -> (r: Vec<u8>)
    ensures
        r@ == blake2_128_of(data@),
        r@.len() == 16,
{
    sp_crypto_hashing::blake2_128(data).to_vec()
}

/// Relies on sp_core's `Ss58Codec::from_ss58check_with_version` for
/// `AccountId32`: the outcome depends on the string alone, and a
/// success carries exactly the 32 identifier bytes.
#[verifier::external_body]
fn ss58_decode(s: &str) -> (r: Option<Vec<u8>>)
    ensures
        (r matches Some(v) ==> ss58_decoded(s@) == Some(v@) && v@.len() == 32),
        (r is None ==> ss58_decoded(s@) is None),
{
    match sp_core::crypto::AccountId32::from_ss58check_with_version(s) {
        Ok((id, _format)) => {
            let raw: &[u8] = id.as_ref();
            Some(raw.to_vec())
        },
        Err(_) => None,
    }
}

/// Relies on sp_core's `Ss58Codec::to_ss58check_with_version` for
/// `AccountId32` with the Polkadot format: the rendering depends on the
/// 32 identifier bytes alone.
#[verifier::external_body]
fn ss58_encode_polkadot(b: &[u8]) -> (r: String)
    requires
        b@.len() == 32,
    ensures
        r@ == ss58_polkadot_string(b@),
{
    let mut arr = [0u8; 32];
    arr.copy_from_slice(b);
    let id = sp_core::crypto::AccountId32::new(arr);
    id.to_ss58check_with_version(
        sp_core::crypto::Ss58AddressFormatRegistry::PolkadotAccount.into(),
    )
}

/// Decodes a checksummed account identifier string into its 32 raw
/// bytes; `InvalidAccountIdentifier` exactly when the string is no
/// well-formed address.
pub fn decode_account_id(s: &str) -> (r: Result<Vec<u8>, ScError>)
    ensures
        (r matches Ok(v) ==> ss58_decoded(s@) == Some(v@) && v@.len() == 32),
        (r is Err ==> ss58_decoded(s@) is None && r == Err::<Vec<u8>, ScError>(
            ScError::InvalidAccountIdentifier,
        )),
{
    match ss58_decode(s) {
        Some(v) => Ok(v),
        None => Err(ScError::InvalidAccountIdentifier),
    }
}

/// Renders 32 raw identifier bytes as a Polkadot-format address string;
/// any other length is `InvalidAccountIdentifier`.
pub fn polkadot_address_of(bytes: &Vec<u8>) -> (r: Result<String, ScError>)
    ensures
        bytes@.len() == 32 ==> (r matches Ok(s) && s@ == ss58_polkadot_string(bytes@)),
        bytes@.len() != 32 ==> r == Err::<String, ScError>(ScError::InvalidAccountIdentifier),
{
    if bytes.len() != 32 {
        return Err(ScError::InvalidAccountIdentifier);
    }
    Ok(ss58_encode_polkadot(bytes.as_slice()))
}

/// Decodes an address string and checks that the decoded identifier
/// renders back, in the Polkadot format, to the very same string; the
/// identifier bytes on success, `InvalidAccountIdentifier` when the
/// string does not decode or does not round-trip.
pub fn validate_polkadot_addr(addr: &str) -> (r: Result<Vec<u8>, ScError>)
    ensures
        (r matches Ok(v) ==> ss58_decoded(addr@) == Some(v@) && v@.len() == 32
            && ss58_polkadot_string(v@) == addr@),
        (r is Err ==> r == Err::<Vec<u8>, ScError>(ScError::InvalidAccountIdentifier) && (
        ss58_decoded(addr@) is None || (ss58_decoded(addr@) matches Some(b)
            && ss58_polkadot_string(b) != addr@))),
{
    let bytes = match decode_account_id(addr) {
        Ok(v) => v,
        Err(e) => { return Err(e) },
    };
    let back = ss58_encode_polkadot(bytes.as_slice());
    let same = back == addr.to_owned();
    if same {
        Ok(bytes)
    } else {
        Err(ScError::InvalidAccountIdentifier)
    }
}

/// The storage key of a module/field pair: the two name digests, then
/// for an entry keyed by an account the identifier's digest and its raw
/// bytes.
pub open spec fn storage_key_spec(
    module: Seq<u8>,
    field: Seq<u8>,
    account: Option<Seq<u8>>,
) -> Seq<u8> {
    let base = twox128_of(module) + twox128_of(field);
    match account {
        Some(id) => base + blake2_128_of(id) + id,
        None => base,
    }
}

/// Builds the storage key for a module/field pair, optionally keyed by
/// a raw account identifier.
pub fn build_storage_key(module_name: &str, storage_name: &str, account: Option<&Vec<u8>>) -> (r:
    Vec<u8>)
    ensures
        account is None ==> r@ == storage_key_spec(
            module_name.spec_bytes(),
            storage_name.spec_bytes(),
            None::<Seq<u8>>,
        ),
        (account matches Some(a) ==> r@ == storage_key_spec(
            module_name.spec_bytes(),
            storage_name.spec_bytes(),
            Some(a@),
        )),
{
    let mut key = twox_128(module_name.as_bytes());
    let mut field_hash = twox_128(storage_name.as_bytes());
    key.append(&mut field_hash);
    match account {
        Some(a) => {
            let mut account_hash = blake2_128(a.as_slice());
            key.append(&mut account_hash);
            let mut raw = slice_to_vec(a.as_slice());
            key.append(&mut raw);
        },
        None => {},
    }
    key
}

} // verus!
