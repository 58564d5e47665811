//! Decoding of the fixed little-endian binary layouts the chain returns.
//!
//! A balance is sixteen bytes, least significant first. An account
//! record is one 32-bit nonce, three 32-bit reference counters and four
//! 128-bit balances, in that order, with no padding. A decoder consumes
//! only what its layout needs and leaves trailing bytes to the caller;
//! fewer bytes than the layout needs are `TruncatedInput`.

use crate::decimal::{with_point, DecimalPointPuttable};
use crate::text::{dec_digits, u128_to_digits};
use crate::ScError;
use vstd::bytes::{spec_u128_from_le_bytes, spec_u32_from_le_bytes, u128_from_le_bytes,
    u32_from_le_bytes};
use vstd::prelude::*;
use vstd::slice::slice_subrange;
use vstd::string::StringExecFns;

verus! {

/// The account record of the chain's system module: a transaction
/// counter, three reference counters, and four balance classes.
#[derive(PartialEq, Eq, Structural, Clone, Copy, Debug)]
pub struct PolkadotAccountInfo {
    pub nonce: u32,
    pub consumers: u32,
    pub providers: u32,
    pub sufficients: u32,
    pub free: u128,
    pub reserved: u128,
    pub misc_frozen: u128,
    pub fee_frozen: u128,
}

/// Decodes a 128-bit balance from a sixteen-byte little-endian prefix.
pub fn decode_u128(bytes: &[u8]) -> (r: Result<u128, ScError>)
    ensures
        bytes@.len() >= 16 ==> r == Ok::<u128, ScError>(
            spec_u128_from_le_bytes(bytes@.take(16)),
        ),
        bytes@.len() < 16 ==> r == Err::<u128, ScError>(ScError::TruncatedInput),
{
    if bytes.len() < 16 {
        return Err(ScError::TruncatedInput);
    }
    let head = slice_subrange(bytes, 0, 16);
    proof {
        assert(head@ =~= bytes@.take(16));
    }
    Ok(u128_from_le_bytes(head))
}

/// The account record an eighty-byte prefix encodes, field by field.
pub open spec fn account_info_of(s: Seq<u8>) -> PolkadotAccountInfo {
    PolkadotAccountInfo {
        nonce: spec_u32_from_le_bytes(s.subrange(0, 4)),
        consumers: spec_u32_from_le_bytes(s.subrange(4, 8)),
        providers: spec_u32_from_le_bytes(s.subrange(8, 12)),
        sufficients: spec_u32_from_le_bytes(s.subrange(12, 16)),
        free: spec_u128_from_le_bytes(s.subrange(16, 32)),
        reserved: spec_u128_from_le_bytes(s.subrange(32, 48)),
        misc_frozen: spec_u128_from_le_bytes(s.subrange(48, 64)),
        fee_frozen: spec_u128_from_le_bytes(s.subrange(64, 80)),
    }
}

/// Decodes an account record from an eighty-byte prefix.
pub fn decode_system_account(bytes: &[u8]) -> (r: Result<PolkadotAccountInfo, ScError>)
    ensures
        bytes@.len() >= 80 ==> r == Ok::<PolkadotAccountInfo, ScError>(
            account_info_of(bytes@.take(80)),
        ),
        bytes@.len() < 80 ==> r == Err::<PolkadotAccountInfo, ScError>(ScError::TruncatedInput),
{
    if bytes.len() < 80 {
        return Err(ScError::TruncatedInput);
    }
    let nonce = u32_from_le_bytes(slice_subrange(bytes, 0, 4));
    let consumers = u32_from_le_bytes(slice_subrange(bytes, 4, 8));
    let providers = u32_from_le_bytes(slice_subrange(bytes, 8, 12));
    let sufficients = u32_from_le_bytes(slice_subrange(bytes, 12, 16));
    let free = u128_from_le_bytes(slice_subrange(bytes, 16, 32));
    let reserved = u128_from_le_bytes(slice_subrange(bytes, 32, 48));
    let misc_frozen = u128_from_le_bytes(slice_subrange(bytes, 48, 64));
    let fee_frozen = u128_from_le_bytes(slice_subrange(bytes, 64, 80));
    let info = PolkadotAccountInfo {
        nonce,
        consumers,
        providers,
        sufficients,
        free,
        reserved,
        misc_frozen,
        fee_frozen,
    };
    proof {
        let t = bytes@.take(80);
        assert(bytes@.subrange(0, 4) =~= t.subrange(0, 4));
        assert(bytes@.subrange(4, 8) =~= t.subrange(4, 8));
        assert(bytes@.subrange(8, 12) =~= t.subrange(8, 12));
        assert(bytes@.subrange(12, 16) =~= t.subrange(12, 16));
        assert(bytes@.subrange(16, 32) =~= t.subrange(16, 32));
        assert(bytes@.subrange(32, 48) =~= t.subrange(32, 48));
        assert(bytes@.subrange(48, 64) =~= t.subrange(48, 64));
        assert(bytes@.subrange(64, 80) =~= t.subrange(64, 80));
    }
    Ok(info)
}

/// Decodes a 128-bit balance and renders it in decimal digits.
pub fn stringify_encoded_u128(bytes: &[u8]) -> (r: Result<String, ScError>)
    ensures
        bytes@.len() >= 16 ==> (r matches Ok(s) && s@ == dec_digits(
            spec_u128_from_le_bytes(bytes@.take(16)) as nat,
        )),
        bytes@.len() < 16 ==> r == Err::<String, ScError>(ScError::TruncatedInput),
{
    let v = match decode_u128(bytes) {
        Ok(v) => v,
        Err(e) => { return Err(e) },
    };
    Ok(u128_to_digits(v))
}

/// The rendering of a total issuance: the balance with the decimal
/// point placed, then the currency label.
pub open spec fn total_issuance_text(v: u128, decimals: nat) -> Seq<char> {
    with_point(dec_digits(v as nat), decimals) + " DOT"@
}

/// Decodes a 128-bit total issuance and renders it as an amount of
/// currency with `token_decimals` fractional digits.
pub fn stringify_encoded_total_issuance(bytes: &[u8], token_decimals: usize) -> (r: Result<
    String,
    ScError,
>)
    requires
        token_decimals <= usize::MAX - 2,
    ensures
        bytes@.len() >= 16 ==> (r matches Ok(s) && s@ == total_issuance_text(
            spec_u128_from_le_bytes(bytes@.take(16)),
            token_decimals as nat,
        )),
        bytes@.len() < 16 ==> r == Err::<String, ScError>(ScError::TruncatedInput),
{
    let v = match decode_u128(bytes) {
        Ok(v) => v,
        Err(e) => { return Err(e) },
    };
    let mut s = v.with_decimal_point(token_decimals);
    s.append(" DOT");
    Ok(s)
}

/// The rendering of an account record: each counter in decimal, each
/// balance with the decimal point placed and the currency label.
pub open spec fn account_summary(a: PolkadotAccountInfo, decimals: nat) -> Seq<char> {
    "Nonce: "@ + dec_digits(a.nonce as nat) + ", Consumers: "@ + dec_digits(a.consumers as nat)
        + ", Providers: "@ + dec_digits(a.providers as nat) + ", Sufficients: "@ + dec_digits(
        a.sufficients as nat,
    ) + ", Free: "@ + with_point(dec_digits(a.free as nat), decimals) + " DOT, Reserved: "@
        + with_point(dec_digits(a.reserved as nat), decimals) + " DOT, Misc Frozen: "@
        + with_point(dec_digits(a.misc_frozen as nat), decimals) + " DOT, Fee Frozen: "@
        + with_point(dec_digits(a.fee_frozen as nat), decimals) + " DOT"@
}

/// Decodes an account record and renders its counters and balances,
/// the balances with `decimals` fractional digits.
pub fn stringify_encoded_system_account(bytes: &[u8], decimals: usize) -> (r: Result<
    String,
    ScError,
>)
    requires
        decimals <= usize::MAX - 2,
    ensures
        bytes@.len() >= 80 ==> (r matches Ok(s) && s@ == account_summary(
            account_info_of(bytes@.take(80)),
            decimals as nat,
        )),
        bytes@.len() < 80 ==> r == Err::<String, ScError>(ScError::TruncatedInput),
{
    let a = match decode_system_account(bytes) {
        Ok(a) => a,
        Err(e) => { return Err(e) },
    };
    let mut s = String::new();
    s.append("Nonce: ");
    let nonce_digits = u128_to_digits(a.nonce as u128);
    s.append(nonce_digits.as_str());
    s.append(", Consumers: ");
    let consumers_digits = u128_to_digits(a.consumers as u128);
    s.append(consumers_digits.as_str());
    s.append(", Providers: ");
    let providers_digits = u128_to_digits(a.providers as u128);
    s.append(providers_digits.as_str());
    s.append(", Sufficients: ");
    let sufficients_digits = u128_to_digits(a.sufficients as u128);
    s.append(sufficients_digits.as_str());
    s.append(", Free: ");
    let free_text = a.free.with_decimal_point(decimals);
    s.append(free_text.as_str());
    s.append(" DOT, Reserved: ");
    let reserved_text = a.reserved.with_decimal_point(decimals);
    s.append(reserved_text.as_str());
    s.append(" DOT, Misc Frozen: ");
    let misc_text = a.misc_frozen.with_decimal_point(decimals);
    s.append(misc_text.as_str());
    s.append(" DOT, Fee Frozen: ");
    let fee_text = a.fee_frozen.with_decimal_point(decimals);
    s.append(fee_text.as_str());
    s.append(" DOT");
    proof {
        assert(s@ =~= account_summary(account_info_of(bytes@.take(80)), decimals as nat));
    }
    Ok(s)
}

} // verus!
