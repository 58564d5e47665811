//! Timestamped records and their two external sources.
//!
//! A record pairs a timestamp with an unsigned magnitude. Records arrive
//! from untyped JSON, one timestamp field and one numeric-or-string
//! balance field each, or from a cache of delimited text, one record per
//! line with the two fields separated by a comma. Parsing stops at the
//! first malformed record.

use crate::text::{all_digits, dec_digits, digits_to_nat, parse_u64_digits, push_char,
    u128_to_digits};
use crate::timestamp::{iso_str, parse_timestamp, timestamp_parse, Timestamp};
use crate::ScError;
use vstd::prelude::*;
use vstd::string::StrSliceExecFns;
use vstd::string::StringExecFns;

verus! {

/// A change of the staked amount at a point in time.
#[derive(PartialEq, Eq, Structural, Clone, Copy, Debug)]
pub struct StakeChange {
    pub timestamp: Timestamp,
    pub accumulated_amount: u128,
}

/// A staking reward paid out at a point in time.
#[derive(PartialEq, Eq, Structural, Clone, Copy, Debug)]
pub struct Reward {
    pub date: Timestamp,
    pub balance: u128,
}

impl StakeChange {
    /// A record whose timestamp is a valid calendar date-time.
    pub open spec fn wf(self) -> bool {
        self.timestamp.well_formed()
    }

    /// The cache line of the record: the ISO timestamp, a comma, the
    /// amount in decimal digits.
    pub fn to_line(&self) -> (r: String)
        requires
            self.wf(),
        ensures
            r@ == iso_str(self.timestamp) + seq![','] + dec_digits(self.accumulated_amount as nat),
    {
        let mut s = self.timestamp.to_iso_string();
        push_char(&mut s, ',');
        let d = u128_to_digits(self.accumulated_amount);
        s.append(d.as_str());
        s
    }
}

impl Reward {
    /// A record whose timestamp is a valid calendar date-time.
    pub open spec fn wf(self) -> bool {
        self.date.well_formed()
    }

    /// The cache line of the record: the ISO timestamp, a comma, the
    /// balance in decimal digits.
    pub fn to_line(&self) -> (r: String)
        requires
            self.wf(),
        ensures
            r@ == iso_str(self.date) + seq![','] + dec_digits(self.balance as nat),
    {
        let mut s = self.date.to_iso_string();
        push_char(&mut s, ',');
        let d = u128_to_digits(self.balance);
        s.append(d.as_str());
        s
    }
}

/// A balance field as it arrives from untyped JSON: a non-negative
/// integer that fits 64 bits, a text field, or some other shape.
pub enum BalanceField {
    Uint(u64),
    Text(String),
    Other,
}

/// What a digit-string balance field is worth: its number when every
/// character is a digit and the number fits 64 bits; `Overflow` when the
/// digits outgrow that width; `NonIntegerValue` otherwise.
pub open spec fn digits_balance(s: Seq<char>) -> Result<u128, ScError> {
    if s.len() > 0 && all_digits(s) {
        if digits_to_nat(s) <= u64::MAX {
            Ok(digits_to_nat(s) as u128)
        } else {
            Err(ScError::Overflow)
        }
    } else {
        Err(ScError::NonIntegerValue)
    }
}

/// What a balance field is worth: a native integer widens as it is, a
/// text field goes by its digits, anything else is `NonIntegerValue`.
pub open spec fn balance_parse(f: BalanceField) -> Result<u128, ScError> {
    match f {
        BalanceField::Uint(v) => Ok(v as u128),
        BalanceField::Text(s) => digits_balance(s@),
        BalanceField::Other => Err(ScError::NonIntegerValue),
    }
}

/// Parses a digit-string balance field.
pub fn parse_digits_balance(s: &str) -> (r: Result<u128, ScError>)
    ensures
        r == digits_balance(s@),
{
    if s.unicode_len() == 0 {
        return Err(ScError::NonIntegerValue);
    }
    if !check_all_digits(s) {
        return Err(ScError::NonIntegerValue);
    }
    match parse_u64_digits(s) {
        Some(v) => Ok(v as u128),
        None => Err(ScError::Overflow),
    }
}

/// Whether every character of the string is a decimal digit.
fn check_all_digits(s: &str) -> (r: bool)
    ensures
        r == all_digits(s@),
{
    let n = s.unicode_len();
    let mut i: usize = 0;
    while i < n
        invariant
            i <= n,
            n == s@.len(),
            forall|j: int| 0 <= j < i ==> crate::text::is_digit(#[trigger] s@[j]),
        decreases n - i,
    {
        if crate::text::digit_value(s.get_char(i)).is_none() {
            assert(!crate::text::is_digit(s@[i as int]));
            return false;
        }
        i = i + 1;
    }
    true
}

/// Parses one balance field, wherever it came from.
pub fn balance_from_maybe_str(f: &BalanceField) -> (r: Result<u128, ScError>)
    ensures
        r == balance_parse(*f),
{
    match f {
        BalanceField::Uint(v) => Ok(*v as u128),
        BalanceField::Text(s) => parse_digits_balance(s.as_str()),
        BalanceField::Other => Err(ScError::NonIntegerValue),
    }
}

/// The position of the first occurrence of a character, or the length
/// of the sequence when it does not occur.
pub open spec fn index_of_first(s: Seq<char>, c: char) -> int
    decreases s.len(),
{
    if s.len() == 0 {
        0
    } else if s[0] == c {
        0
    } else {
        1 + index_of_first(s.skip(1), c)
    }
}

/// What characterises the position of the first occurrence.
pub proof fn lemma_index_of_first(s: Seq<char>, c: char)
    ensures
        0 <= index_of_first(s, c) <= s.len(),
        index_of_first(s, c) < s.len() ==> s[index_of_first(s, c)] == c,
        forall|j: int| 0 <= j < index_of_first(s, c) ==> s[j] != c,
    decreases s.len(),
{
    if s.len() != 0 && s[0] != c {
        lemma_index_of_first(s.skip(1), c);
        assert forall|j: int| 0 <= j < index_of_first(s, c) implies s[j] != c by {
            if j > 0 {
                assert(s.skip(1)[j - 1] == s[j]);
            }
        }
    }
}

/// Finds the first occurrence of a character, or the string's length.
fn find_char(s: &str, c: char) -> (r: usize)
    ensures
        r == index_of_first(s@, c),
{
    let n = s.unicode_len();
    let mut i: usize = 0;
    while i < n
        invariant
            i <= n,
            n == s@.len(),
            forall|j: int| 0 <= j < i ==> s@[j] != c,
        decreases n - i,
    {
        if s.get_char(i) == c {
            proof {
                lemma_index_of_first(s@, c);
                let fc = index_of_first(s@, c);
                if fc < i {
                    assert(s@[fc] == c);
                } else if fc > i {
                    assert(s@[i as int] != c);
                }
            }
            return i;
        }
        i = i + 1;
    }
    proof {
        lemma_index_of_first(s@, c);
        let fc = index_of_first(s@, c);
        if fc < n {
            assert(s@[fc] == c);
        }
    }
    n
}

/// What one cache line denotes: the text before the first comma as a
/// timestamp, the text after it as a digit-string balance; a line
/// without a comma has an empty balance field.
pub open spec fn line_parse(line: Seq<char>) -> Result<(Timestamp, u128), ScError> {
    let i = index_of_first(line, ',');
    let ts_part = line.take(i);
    let bal_part = if i < line.len() {
        line.skip(i + 1)
    } else {
        Seq::<char>::empty()
    };
    match timestamp_parse(ts_part) {
        Some(t) => match digits_balance(bal_part) {
            Ok(b) => Ok((t, b)),
            Err(e) => Err(e),
        },
        None => Err(ScError::MalformedTimestamp),
    }
}

/// Parses one cache line.
fn parse_line(line: &str) -> (r: Result<(Timestamp, u128), ScError>)
    ensures
        r == line_parse(line@),
        (r matches Ok(p) ==> p.0.well_formed()),
{
    let n = line.unicode_len();
    let i = find_char(line, ',');
    proof {
        lemma_index_of_first(line@, ',');
    }
    let ts_str = line.substring_char(0, i);
    let bal_str = if i < n {
        line.substring_char(i + 1, n)
    } else {
        line.substring_char(n, n)
    };
    proof {
        assert(ts_str@ =~= line@.take(i as int));
        if i < n {
            assert(bal_str@ =~= line@.skip(i as int + 1));
        } else {
            assert(bal_str@ =~= Seq::<char>::empty());
        }
    }
    let t = match parse_timestamp(ts_str) {
        Ok(t) => t,
        Err(e) => { return Err(e) },
    };
    let b = match parse_digits_balance(bal_str) {
        Ok(b) => b,
        Err(e) => { return Err(e) },
    };
    Ok((t, b))
}

/// A line stripped of one trailing carriage return, if any.
pub open spec fn trim_cr(line: Seq<char>) -> Seq<char> {
    if line.len() > 0 && line.last() == '\r' {
        line.drop_last()
    } else {
        line
    }
}

/// What a whole cache text denotes: its lines in order, blank lines
/// skipped, each line a record; the first malformed line is the error.
pub open spec fn records_parse(text: Seq<char>) -> Result<Seq<(Timestamp, u128)>, ScError>
    decreases text.len(),
    via records_parse_decreases
{
    if text.len() == 0 {
        Ok(Seq::<(Timestamp, u128)>::empty())
    } else {
        let i = index_of_first(text, '\n');
        let line = trim_cr(text.take(i));
        let rest = if i < text.len() {
            text.skip(i + 1)
        } else {
            Seq::<char>::empty()
        };
        if line.len() == 0 {
            records_parse(rest)
        } else {
            match line_parse(line) {
                Ok(p) => match records_parse(rest) {
                    Ok(ps) => Ok(seq![p] + ps),
                    Err(e) => Err(e),
                },
                Err(e) => Err(e),
            }
        }
    }
}

#[via_fn]
proof fn records_parse_decreases(text: Seq<char>) {
    lemma_index_of_first(text, '\n');
}

/// Parses a whole cache text into timestamp/magnitude pairs.
pub fn parse_record_lines(text: &str) -> (r: Result<Vec<(Timestamp, u128)>, ScError>)
    ensures
        (r matches Ok(v) ==> records_parse(text@) == Ok::<_, ScError>(v@)),
        (r matches Err(e) ==> records_parse(text@) == Err::<Seq<(Timestamp, u128)>, ScError>(e)),
        (r matches Ok(v) ==> forall|k: int|
            0 <= k < v@.len() ==> (#[trigger] v@[k].0).well_formed()),
    decreases text@.len(),
{
    let n = text.unicode_len();
    if n == 0 {
        return Ok(Vec::new());
    }
    let i = find_char(text, '\n');
    proof {
        lemma_index_of_first(text@, '\n');
    }
    let line_end = if i > 0 && text.get_char(i - 1) == '\r' {
        i - 1
    } else {
        i
    };
    let line = text.substring_char(0, line_end);
    let rest = if i < n {
        text.substring_char(i + 1, n)
    } else {
        text.substring_char(n, n)
    };
    proof {
        assert(text@.take(i as int).len() == i);
        if i > 0 && text@[i as int - 1] == '\r' {
            assert(text@.take(i as int).last() == text@[i as int - 1]);
            assert(line@ =~= trim_cr(text@.take(i as int)));
        } else {
            if text@.take(i as int).len() > 0 {
                assert(text@.take(i as int).last() == text@[i as int - 1]);
            }
            assert(line@ =~= trim_cr(text@.take(i as int)));
        }
        if i < n {
            assert(rest@ =~= text@.skip(i as int + 1));
        } else {
            assert(rest@ =~= Seq::<char>::empty());
        }
    }
    if line.unicode_len() == 0 {
        return parse_record_lines(rest);
    }
    let p = match parse_line(line) {
        Ok(p) => p,
        Err(e) => { return Err(e) },
    };
    let mut tail = match parse_record_lines(rest) {
        Ok(v) => v,
        Err(e) => { return Err(e) },
    };
    let mut v: Vec<(Timestamp, u128)> = Vec::new();
    v.push(p);
    let ghost tail_view = tail@;
    v.append(&mut tail);
    proof {
        assert(v@ =~= seq![p] + tail_view);
    }
    Ok(v)
}

/// The stake-change records of a sequence of parsed pairs.
pub open spec fn stake_changes_of(ps: Seq<(Timestamp, u128)>) -> Seq<StakeChange> {
    ps.map_values(
        |p: (Timestamp, u128)| StakeChange { timestamp: p.0, accumulated_amount: p.1 },
    )
}

/// The reward records of a sequence of parsed pairs.
pub open spec fn rewards_of(ps: Seq<(Timestamp, u128)>) -> Seq<Reward> {
    ps.map_values(|p: (Timestamp, u128)| Reward { date: p.0, balance: p.1 })
}

/// Parses a cache text of stake changes, one record per line.
pub fn parse_stake_changes(text: &str) -> (r: Result<Vec<StakeChange>, ScError>)
    ensures
        (r matches Ok(v) ==> records_parse(text@) matches Ok(ps) && v@ == stake_changes_of(ps)),
        (r matches Err(e) ==> records_parse(text@) == Err::<Seq<(Timestamp, u128)>, ScError>(e)),
        (r matches Ok(v) ==> forall|k: int| 0 <= k < v@.len() ==> (#[trigger] v@[k]).wf()),
{
    let ps = match parse_record_lines(text) {
        Ok(v) => v,
        Err(e) => { return Err(e) },
    };
    let mut v: Vec<StakeChange> = Vec::new();
    let mut i: usize = 0;
    while i < ps.len()
        invariant
            i <= ps.len(),
            v@ =~= stake_changes_of(ps@.take(i as int)),
            forall|k: int| 0 <= k < ps@.len() ==> (#[trigger] ps@[k].0).well_formed(),
        decreases ps.len() - i,
    {
        let p = ps[i];
        v.push(StakeChange { timestamp: p.0, accumulated_amount: p.1 });
        proof {
            assert(ps@.take(i as int + 1).drop_last() =~= ps@.take(i as int));
            assert(stake_changes_of(ps@.take(i as int + 1)) =~= stake_changes_of(
                ps@.take(i as int),
            ).push(StakeChange { timestamp: p.0, accumulated_amount: p.1 }));
        }
        i = i + 1;
    }
    proof {
        assert(ps@.take(ps@.len() as int) =~= ps@);
    }
    Ok(v)
}

/// Parses a cache text of rewards, one record per line.
pub fn parse_rewards(text: &str) -> (r: Result<Vec<Reward>, ScError>)
    ensures
        (r matches Ok(v) ==> records_parse(text@) matches Ok(ps) && v@ == rewards_of(ps)),
        (r matches Err(e) ==> records_parse(text@) == Err::<Seq<(Timestamp, u128)>, ScError>(e)),
        (r matches Ok(v) ==> forall|k: int| 0 <= k < v@.len() ==> (#[trigger] v@[k]).wf()),
{
    let ps = match parse_record_lines(text) {
        Ok(v) => v,
        Err(e) => { return Err(e) },
    };
    let mut v: Vec<Reward> = Vec::new();
    let mut i: usize = 0;
    while i < ps.len()
        invariant
            i <= ps.len(),
            v@ =~= rewards_of(ps@.take(i as int)),
            forall|k: int| 0 <= k < ps@.len() ==> (#[trigger] ps@[k].0).well_formed(),
        decreases ps.len() - i,
    {
        let p = ps[i];
        v.push(Reward { date: p.0, balance: p.1 });
        proof {
            assert(ps@.take(i as int + 1).drop_last() =~= ps@.take(i as int));
            assert(rewards_of(ps@.take(i as int + 1)) =~= rewards_of(ps@.take(i as int)).push(
                Reward { date: p.0, balance: p.1 },
            ));
        }
        i = i + 1;
    }
    proof {
        assert(ps@.take(ps@.len() as int) =~= ps@);
    }
    Ok(v)
}

} // verus!
