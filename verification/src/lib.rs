//! Verified core of a Polkadot stake-checking tool.
//!
//! The library holds the decoding and reconciliation logic: a fixed-point
//! decimal formatter, a parser for timestamped reward / stake-change records,
//! an incremental reconciler that finds the records a local cache does not
//! yet know, a storage-key builder for chain state lookups, and a decoder
//! for the fixed little-endian binary layouts of balances and account data.
//! Network transport, file handling and argument parsing live outside.

pub mod decimal;
pub mod hexstr;
pub mod reconcile;
pub mod records;
pub mod scale;
pub mod storage;
pub mod text;
pub mod timestamp;

use vstd::prelude::*;

verus! {

/// The error kinds the library's operations can report.
#[derive(PartialEq, Eq, Structural, Clone, Copy, Debug)]
pub enum ScError {
    /// A timestamp field was neither an ISO date-time nor an epoch count.
    MalformedTimestamp,
    /// A balance field was neither a non-negative integer nor a digit string.
    NonIntegerValue,
    /// A numeric field did not fit the 64-bit intermediate width.
    Overflow,
    /// An account identifier string failed to decode or to round-trip.
    InvalidAccountIdentifier,
    /// A binary payload was shorter than its fixed layout requires.
    TruncatedInput,
    /// A remote lookup returned no value for the given key.
    NoDataFound,
}

impl ScError {
    /// A short human-readable description of the error kind.
    pub fn describe(&self) -> (r: &'static str)
        ensures
            r@ == describe_spec(*self),
    {
        proof {
            reveal_strlit("malformed timestamp");
            reveal_strlit("non-integer value");
            reveal_strlit("overflow");
            reveal_strlit("invalid account identifier");
            reveal_strlit("truncated input");
            reveal_strlit("no data found");
        }
        match self {
            ScError::MalformedTimestamp => "malformed timestamp",
            ScError::NonIntegerValue => "non-integer value",
            ScError::Overflow => "overflow",
            ScError::InvalidAccountIdentifier => "invalid account identifier",
            ScError::TruncatedInput => "truncated input",
            ScError::NoDataFound => "no data found",
        }
    }
}

/// The description `describe` returns for each error kind.
pub open spec fn describe_spec(e: ScError) -> Seq<char> {
    match e {
        ScError::MalformedTimestamp => "malformed timestamp"@,
        ScError::NonIntegerValue => "non-integer value"@,
        ScError::Overflow => "overflow"@,
        ScError::InvalidAccountIdentifier => "invalid account identifier"@,
        ScError::TruncatedInput => "truncated input"@,
        ScError::NoDataFound => "no data found"@,
    }
}

} // verus!
