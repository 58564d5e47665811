//! Calendar timestamps and their two external text forms.
//!
//! A record's timestamp arrives either as an ISO-like date-time string
//! (`2022-04-01T18:27:12.01`, the fractional part absent or shorter than
//! three digits) or as a plain decimal count of Unix epoch seconds.
//! Parsing normalises both to a calendar date-time with millisecond
//! precision; formatting always writes exactly three fractional digits.

use crate::text::{digit_char, digit_value, dv0, is_digit, all_digits, digits_to_nat,
    parse_u64_digits, push_char, push_digit};
use crate::ScError;
use chrono::Datelike;
use chrono::Timelike;
use vstd::prelude::*;
use vstd::string::StrSliceExecFns;

verus! {

/// A calendar date and time without a time zone, millisecond precision.
#[derive(PartialEq, Eq, Structural, Clone, Copy, Debug)]
pub struct Timestamp {
    pub year: u32,
    pub month: u32,
    pub day: u32,
    pub hour: u32,
    pub minute: u32,
    pub second: u32,
    pub milli: u32,
}

/// Whether a year is a leap year in the proleptic Gregorian calendar.
pub open spec fn is_leap_year(y: nat) -> bool {
    (y % 4 == 0 && y % 100 != 0) || y % 400 == 0
}

/// The number of days of a month; zero for a month number out of range.
pub open spec fn days_in_month(y: nat, m: nat) -> nat {
    if m == 1 || m == 3 || m == 5 || m == 7 || m == 8 || m == 10 || m == 12 {
        31
    } else if m == 4 || m == 6 || m == 9 || m == 11 {
        30
    } else if m == 2 {
        if is_leap_year(y) {
            29
        } else {
            28
        }
    } else {
        0
    }
}

impl Timestamp {
    /// A valid calendar date-time with a four-digit year.
    pub open spec fn well_formed(self) -> bool {
        &&& self.year <= 9999
        &&& 1 <= self.month <= 12
        &&& 1 <= self.day <= days_in_month(self.year as nat, self.month as nat)
        &&& self.hour < 24
        &&& self.minute < 60
        &&& self.second < 60
        &&& self.milli < 1000
    }

    /// Ordering: field-lexicographic, from year down to millisecond.
    pub open spec fn spec_ge(self, other: Timestamp) -> bool {
        if self.year != other.year {
            self.year > other.year
        } else if self.month != other.month {
            self.month > other.month
        } else if self.day != other.day {
            self.day > other.day
        } else if self.hour != other.hour {
            self.hour > other.hour
        } else if self.minute != other.minute {
            self.minute > other.minute
        } else if self.second != other.second {
            self.second > other.second
        } else {
            self.milli >= other.milli
        }
    }

    /// Compares two timestamps, later-or-equal first.
    pub fn ge(&self, other: &Timestamp) -> (r: bool)
        ensures
            r == self.spec_ge(*other),
    {
        if self.year != other.year {
            self.year > other.year
        } else if self.month != other.month {
            self.month > other.month
        } else if self.day != other.day {
            self.day > other.day
        } else if self.hour != other.hour {
            self.hour > other.hour
        } else if self.minute != other.minute {
            self.minute > other.minute
        } else if self.second != other.second {
            self.second > other.second
        } else {
            self.milli >= other.milli
        }
    }
}

/// The number of days of a month, executable form.
pub fn days_in_month_of(year: u32, month: u32) -> (r: u32)
    ensures
        r == days_in_month(year as nat, month as nat),
{
    match month {
        1 | 3 | 5 | 7 | 8 | 10 | 12 => 31,
        4 | 6 | 9 | 11 => 30,
        2 => {
            if (year % 4 == 0 && year % 100 != 0) || year % 400 == 0 {
                29
            } else {
                28
            }
        },
        _ => 0,
    }
}

/// The value of two digit characters at position `i`.
pub open spec fn two_val(s: Seq<char>, i: int) -> nat {
    dv0(s[i]) * 10 + dv0(s[i + 1])
}

/// The value of four digit characters at position `i`.
pub open spec fn four_val(s: Seq<char>, i: int) -> nat {
    two_val(s, i) * 100 + two_val(s, i + 2)
}

/// The millisecond count of the optional fractional part: absent or
/// one to three digits, right-padded with zeros to three.
pub open spec fn frac_val(s: Seq<char>) -> nat {
    if s.len() <= 20 {
        0
    } else if s.len() == 21 {
        dv0(s[20]) * 100
    } else if s.len() == 22 {
        dv0(s[20]) * 100 + dv0(s[21]) * 10
    } else {
        dv0(s[20]) * 100 + dv0(s[21]) * 10 + dv0(s[22])
    }
}

/// The fixed shape of the ISO-like form: `YYYY-MM-DDTHH:MM:SS`, then
/// nothing or a point with one to three fractional digits.
pub open spec fn iso_shape_ok(s: Seq<char>) -> bool {
    &&& (s.len() == 19 || 21 <= s.len() <= 23)
    &&& is_digit(s[0]) && is_digit(s[1]) && is_digit(s[2]) && is_digit(s[3])
    &&& s[4] == '-'
    &&& is_digit(s[5]) && is_digit(s[6])
    &&& s[7] == '-'
    &&& is_digit(s[8]) && is_digit(s[9])
    &&& s[10] == 'T'
    &&& is_digit(s[11]) && is_digit(s[12])
    &&& s[13] == ':'
    &&& is_digit(s[14]) && is_digit(s[15])
    &&& s[16] == ':'
    &&& is_digit(s[17]) && is_digit(s[18])
    &&& (s.len() > 19 ==> s[19] == '.')
    &&& (forall|i: int| 20 <= i < s.len() ==> is_digit(#[trigger] s[i]))
}

/// The timestamp an ISO-like string denotes, `None` when the shape or a
/// field range is off.
pub open spec fn iso_parse(s: Seq<char>) -> Option<Timestamp> {
    if iso_shape_ok(s) {
        let t = Timestamp {
            year: four_val(s, 0) as u32,
            month: two_val(s, 5) as u32,
            day: two_val(s, 8) as u32,
            hour: two_val(s, 11) as u32,
            minute: two_val(s, 14) as u32,
            second: two_val(s, 17) as u32,
            milli: frac_val(s) as u32,
        };
        if t.well_formed() {
            Some(t)
        } else {
            None
        }
    } else {
        None
    }
}

/// The UTC calendar date and time of a count of Unix epoch seconds, as
/// chrono computes it: `(year, month, day, hour, minute, second)`, or
/// `None` when the count falls outside chrono's range.
pub uninterp spec fn civil_of_epoch(secs: i64) -> Option<(u32, u32, u32, u32, u32, u32)>;

/// Relies on chrono's `DateTime::from_timestamp` and its `Datelike` and
/// `Timelike` accessors: the UTC calendar fields of a non-negative epoch
/// second count depend on that count alone, and form a valid calendar
/// date with in-range time-of-day fields.
#[verifier::external_body]
fn epoch_to_civil(secs: i64) -> (r: Option<(u32, u32, u32, u32, u32, u32)>)
    requires
        0 <= secs,
    ensures
        r == civil_of_epoch(secs),
        (r matches Some(c) ==> {
            &&& 1970 <= c.0
            &&& 1 <= c.1 <= 12
            &&& 1 <= c.2 <= days_in_month(c.0 as nat, c.1 as nat)
            &&& c.3 < 24
            &&& c.4 < 60
            &&& c.5 < 60
        }),
{
    match chrono::DateTime::<chrono::Utc>::from_timestamp(secs, 0) {
        Some(dt) => {
            let n = dt.naive_utc();
            Some((n.year() as u32, n.month(), n.day(), n.hour(), n.minute(), n.second()))
        },
        None => None,
    }
}

/// The timestamp a plain decimal epoch-second string denotes: defined
/// when the string is all digits, the count fits a signed 64-bit number,
/// chrono places it on the calendar, and the year keeps four digits.
pub open spec fn epoch_parse(s: Seq<char>) -> Option<Timestamp> {
    if s.len() > 0 && all_digits(s) && digits_to_nat(s) <= i64::MAX {
        match civil_of_epoch(digits_to_nat(s) as i64) {
            Some(c) => {
                if c.0 <= 9999 {
                    Some(
                        Timestamp {
                            year: c.0,
                            month: c.1,
                            day: c.2,
                            hour: c.3,
                            minute: c.4,
                            second: c.5,
                            milli: 0,
                        },
                    )
                } else {
                    None
                }
            },
            None => None,
        }
    } else {
        None
    }
}

/// Whether the string holds the date/time separator character.
pub open spec fn has_tsep(s: Seq<char>) -> bool {
    exists|i: int| 0 <= i < s.len() && s[i] == 'T'
}

/// What a timestamp field denotes: the ISO-like form when the separator
/// is present, the epoch-second form otherwise.
pub open spec fn timestamp_parse(s: Seq<char>) -> Option<Timestamp> {
    if has_tsep(s) {
        iso_parse(s)
    } else {
        epoch_parse(s)
    }
}

/// Whether the string holds the date/time separator, executable form.
fn contains_tsep(s: &str) -> (r: bool)
    ensures
        r == has_tsep(s@),
{
    let n = s.unicode_len();
    let mut i: usize = 0;
    while i < n
        invariant
            i <= n,
            n == s@.len(),
            forall|j: int| 0 <= j < i ==> s@[j] != 'T',
        decreases n - i,
    {
        if s.get_char(i) == 'T' {
            assert(s@[i as int] == 'T');
            return true;
        }
        i = i + 1;
    }
    false
}

/// Reads two digit characters at position `i`.
fn read_two(s: &str, i: usize) -> (r: Option<u8>)
    requires
        i + 2 <= s@.len(),
        s@.len() <= usize::MAX,
    ensures
        r is Some <==> (is_digit(s@[i as int]) && is_digit(s@[i as int + 1])),
        (r matches Some(v) ==> v == two_val(s@, i as int)),
{
    let c0 = digit_value(s.get_char(i));
    let c1 = digit_value(s.get_char(i + 1));
    match (c0, c1) {
        (Some(a), Some(b)) => Some(10 * a + b),
        _ => None,
    }
}

/// Reads four digit characters at position `i`.
fn read_four(s: &str, i: usize) -> (r: Option<u16>)
    requires
        i + 4 <= s@.len(),
        s@.len() <= usize::MAX,
    ensures
        r is Some <==> (is_digit(s@[i as int]) && is_digit(s@[i as int + 1]) && is_digit(
            s@[i as int + 2],
        ) && is_digit(s@[i as int + 3])),
        (r matches Some(v) ==> v == four_val(s@, i as int) && v <= 9999),
{
    let hi = read_two(s, i);
    let lo = read_two(s, i + 2);
    match (hi, lo) {
        (Some(a), Some(b)) => Some(a as u16 * 100 + b as u16),
        _ => None,
    }
}

/// Parses the ISO-like form.
fn parse_iso(s: &str) -> (r: Result<Timestamp, ScError>)
    ensures
        (r matches Ok(t) ==> iso_parse(s@) == Some(t) && t.well_formed()),
        (r is Err ==> iso_parse(s@) is None && r == Err::<Timestamp, ScError>(
            ScError::MalformedTimestamp,
        )),
{
    let n = s.unicode_len();
    if !(n == 19 || (21 <= n && n <= 23)) {
        return Err(ScError::MalformedTimestamp);
    }
    if s.get_char(4) != '-' || s.get_char(7) != '-' || s.get_char(10) != 'T' || s.get_char(13)
        != ':' || s.get_char(16) != ':' {
        return Err(ScError::MalformedTimestamp);
    }
    if n > 19 && s.get_char(19) != '.' {
        return Err(ScError::MalformedTimestamp);
    }
    let year = match read_four(s, 0) {
        Some(v) => v as u32,
        None => { return Err(ScError::MalformedTimestamp) },
    };
    let month = match read_two(s, 5) {
        Some(v) => v as u32,
        None => { return Err(ScError::MalformedTimestamp) },
    };
    let day = match read_two(s, 8) {
        Some(v) => v as u32,
        None => { return Err(ScError::MalformedTimestamp) },
    };
    let hour = match read_two(s, 11) {
        Some(v) => v as u32,
        None => { return Err(ScError::MalformedTimestamp) },
    };
    let minute = match read_two(s, 14) {
        Some(v) => v as u32,
        None => { return Err(ScError::MalformedTimestamp) },
    };
    let second = match read_two(s, 17) {
        Some(v) => v as u32,
        None => { return Err(ScError::MalformedTimestamp) },
    };
    let milli: u32 = if n == 19 {
        0
    } else {
        let d0 = match digit_value(s.get_char(20)) {
            Some(d) => d as u32,
            None => { return Err(ScError::MalformedTimestamp) },
        };
        if n == 21 {
            d0 * 100
        } else {
            let d1 = match digit_value(s.get_char(21)) {
                Some(d) => d as u32,
                None => { return Err(ScError::MalformedTimestamp) },
            };
            if n == 22 {
                d0 * 100 + d1 * 10
            } else {
                let d2 = match digit_value(s.get_char(22)) {
                    Some(d) => d as u32,
                    None => { return Err(ScError::MalformedTimestamp) },
                };
                d0 * 100 + d1 * 10 + d2
            }
        }
    };
    let t = Timestamp { year, month, day, hour, minute, second, milli };
    if !(1 <= month && month <= 12) {
        return Err(ScError::MalformedTimestamp);
    }
    if !(1 <= day && day <= days_in_month_of(year, month)) {
        return Err(ScError::MalformedTimestamp);
    }
    if !(hour < 24 && minute < 60 && second < 60) {
        return Err(ScError::MalformedTimestamp);
    }
    assert(iso_shape_ok(s@));
    assert(t.well_formed());
    Ok(t)
}

/// Parses the epoch-second form.
fn parse_epoch(s: &str) -> (r: Result<Timestamp, ScError>)
    ensures
        (r matches Ok(t) ==> epoch_parse(s@) == Some(t) && t.well_formed()),
        (r is Err ==> epoch_parse(s@) is None && r == Err::<Timestamp, ScError>(
            ScError::MalformedTimestamp,
        )),
{
    let secs = match parse_u64_digits(s) {
        Some(v) => v,
        None => { return Err(ScError::MalformedTimestamp) },
    };
    if secs > i64::MAX as u64 {
        return Err(ScError::MalformedTimestamp);
    }
    match epoch_to_civil(secs as i64) {
        Some(c) => {
            if c.0 <= 9999 {
                Ok(
                    Timestamp {
                        year: c.0,
                        month: c.1,
                        day: c.2,
                        hour: c.3,
                        minute: c.4,
                        second: c.5,
                        milli: 0,
                    },
                )
            } else {
                Err(ScError::MalformedTimestamp)
            }
        },
        None => Err(ScError::MalformedTimestamp),
    }
}

/// The two digit characters of a value below one hundred.
pub open spec fn two_dig(v: nat) -> Seq<char> {
    seq![digit_char(v / 10), digit_char(v % 10)]
}

/// The three digit characters of a value below one thousand.
pub open spec fn three_dig(v: nat) -> Seq<char> {
    seq![digit_char(v / 100), digit_char(v / 10 % 10), digit_char(v % 10)]
}

/// The four digit characters of a value below ten thousand.
pub open spec fn four_dig(v: nat) -> Seq<char> {
    seq![digit_char(v / 1000), digit_char(v / 100 % 10), digit_char(v / 10 % 10), digit_char(
        v % 10,
    )]
}

/// The canonical rendering: `YYYY-MM-DDTHH:MM:SS.mmm`, always with
/// exactly three fractional digits.
pub open spec fn iso_str(t: Timestamp) -> Seq<char> {
    four_dig(t.year as nat) + seq!['-'] + two_dig(t.month as nat) + seq!['-'] + two_dig(
        t.day as nat,
    ) + seq!['T'] + two_dig(t.hour as nat) + seq![':'] + two_dig(t.minute as nat) + seq![':']
        + two_dig(t.second as nat) + seq!['.'] + three_dig(t.milli as nat)
}

impl Timestamp {
    /// Renders the timestamp in its canonical form.
    #[verifier::rlimit(100)]
    pub fn to_iso_string(&self) -> (r: String)
        requires
            self.well_formed(),
        ensures
            r@ == iso_str(*self),
    {
        let mut out = String::new();
        push_digit(&mut out, (self.year / 1000) as u8);
        push_digit(&mut out, (self.year / 100 % 10) as u8);
        push_digit(&mut out, (self.year / 10 % 10) as u8);
        push_digit(&mut out, (self.year % 10) as u8);
        push_char(&mut out, '-');
        push_digit(&mut out, (self.month / 10) as u8);
        push_digit(&mut out, (self.month % 10) as u8);
        push_char(&mut out, '-');
        push_digit(&mut out, (self.day / 10) as u8);
        push_digit(&mut out, (self.day % 10) as u8);
        push_char(&mut out, 'T');
        push_digit(&mut out, (self.hour / 10) as u8);
        push_digit(&mut out, (self.hour % 10) as u8);
        push_char(&mut out, ':');
        push_digit(&mut out, (self.minute / 10) as u8);
        push_digit(&mut out, (self.minute % 10) as u8);
        push_char(&mut out, ':');
        push_digit(&mut out, (self.second / 10) as u8);
        push_digit(&mut out, (self.second % 10) as u8);
        push_char(&mut out, '.');
        push_digit(&mut out, (self.milli / 100) as u8);
        push_digit(&mut out, (self.milli / 10 % 10) as u8);
        push_digit(&mut out, (self.milli % 10) as u8);
        proof {
            assert(out@ =~= iso_str(*self));
        }
        out
    }
}

/// Two digit characters come back unchanged from their combined value.
proof fn lemma_two_dig_roundtrip(a: char, b: char)
    requires
        is_digit(a),
        is_digit(b),
    ensures
        two_dig(dv0(a) * 10 + dv0(b)) == seq![a, b],
{
    crate::text::lemma_digit_roundtrip(a);
    crate::text::lemma_digit_roundtrip(b);
    let v = dv0(a) * 10 + dv0(b);
    vstd::arithmetic::div_mod::lemma_fundamental_div_mod_converse(
        v as int,
        10,
        dv0(a) as int,
        dv0(b) as int,
    );
    assert(two_dig(v) =~= seq![a, b]);
}

/// Three digit characters come back unchanged from their combined value.
proof fn lemma_three_dig_roundtrip(a: char, b: char, c: char)
    requires
        is_digit(a),
        is_digit(b),
        is_digit(c),
    ensures
        three_dig(dv0(a) * 100 + dv0(b) * 10 + dv0(c)) == seq![a, b, c],
{
    crate::text::lemma_digit_roundtrip(a);
    crate::text::lemma_digit_roundtrip(b);
    crate::text::lemma_digit_roundtrip(c);
    let v = dv0(a) * 100 + dv0(b) * 10 + dv0(c);
    vstd::arithmetic::div_mod::lemma_fundamental_div_mod_converse(
        v as int,
        100,
        dv0(a) as int,
        (dv0(b) * 10 + dv0(c)) as int,
    );
    vstd::arithmetic::div_mod::lemma_fundamental_div_mod_converse(
        v as int,
        10,
        (dv0(a) * 10 + dv0(b)) as int,
        dv0(c) as int,
    );
    vstd::arithmetic::div_mod::lemma_fundamental_div_mod_converse(
        (dv0(a) * 10 + dv0(b)) as int,
        10,
        dv0(a) as int,
        dv0(b) as int,
    );
    assert(three_dig(v) =~= seq![a, b, c]);
}

/// Four digit characters come back unchanged from their combined value.
proof fn lemma_four_dig_roundtrip(a: char, b: char, c: char, d: char)
    requires
        is_digit(a),
        is_digit(b),
        is_digit(c),
        is_digit(d),
    ensures
        four_dig((dv0(a) * 10 + dv0(b)) * 100 + (dv0(c) * 10 + dv0(d))) == seq![a, b, c, d],
{
    crate::text::lemma_digit_roundtrip(a);
    crate::text::lemma_digit_roundtrip(b);
    crate::text::lemma_digit_roundtrip(c);
    crate::text::lemma_digit_roundtrip(d);
    let v = (dv0(a) * 10 + dv0(b)) * 100 + (dv0(c) * 10 + dv0(d));
    vstd::arithmetic::div_mod::lemma_fundamental_div_mod_converse(
        v as int,
        1000,
        dv0(a) as int,
        (dv0(b) * 100 + dv0(c) * 10 + dv0(d)) as int,
    );
    vstd::arithmetic::div_mod::lemma_fundamental_div_mod_converse(
        v as int,
        100,
        (dv0(a) * 10 + dv0(b)) as int,
        (dv0(c) * 10 + dv0(d)) as int,
    );
    vstd::arithmetic::div_mod::lemma_fundamental_div_mod_converse(
        (dv0(a) * 10 + dv0(b)) as int,
        10,
        dv0(a) as int,
        dv0(b) as int,
    );
    vstd::arithmetic::div_mod::lemma_fundamental_div_mod_converse(
        v as int,
        10,
        ((dv0(a) * 10 + dv0(b)) * 10 + dv0(c)) as int,
        dv0(d) as int,
    );
    vstd::arithmetic::div_mod::lemma_fundamental_div_mod_converse(
        ((dv0(a) * 10 + dv0(b)) * 10 + dv0(c)) as int,
        10,
        (dv0(a) * 10 + dv0(b)) as int,
        dv0(c) as int,
    );
    assert(four_dig(v) =~= seq![a, b, c, d]);
}

/// The rendering pieces of a timestamp, laid side by side with the
/// separators, give back the string they were read from.
#[verifier::rlimit(100)]
proof fn lemma_iso_assemble(t: Timestamp, s: Seq<char>)
    requires
        s.len() == 23,
        four_dig(t.year as nat) == seq![s[0], s[1], s[2], s[3]],
        two_dig(t.month as nat) == seq![s[5], s[6]],
        two_dig(t.day as nat) == seq![s[8], s[9]],
        two_dig(t.hour as nat) == seq![s[11], s[12]],
        two_dig(t.minute as nat) == seq![s[14], s[15]],
        two_dig(t.second as nat) == seq![s[17], s[18]],
        three_dig(t.milli as nat) == seq![s[20], s[21], s[22]],
        s[4] == '-',
        s[7] == '-',
        s[10] == 'T',
        s[13] == ':',
        s[16] == ':',
        s[19] == '.',
    ensures
        iso_str(t) == s,
{
    assert(iso_str(t) =~= s);
}

/// Law: parsing a full ISO string with exactly three fractional digits
/// and rendering the result gives the identical string back.
#[verifier::rlimit(100)]
pub proof fn lemma_timestamp_round_trip(s: Seq<char>)
    requires
        s.len() == 23,
        iso_parse(s) is Some,
    ensures
        timestamp_parse(s) == iso_parse(s),
        iso_str(iso_parse(s).unwrap()) == s,
{
    assert(iso_shape_ok(s));
    assert(has_tsep(s)) by {
        assert(s[10] == 'T');
    }
    let t = iso_parse(s).unwrap();
    lemma_four_dig_roundtrip(s[0], s[1], s[2], s[3]);
    lemma_two_dig_roundtrip(s[5], s[6]);
    lemma_two_dig_roundtrip(s[8], s[9]);
    lemma_two_dig_roundtrip(s[11], s[12]);
    lemma_two_dig_roundtrip(s[14], s[15]);
    lemma_two_dig_roundtrip(s[17], s[18]);
    lemma_three_dig_roundtrip(s[20], s[21], s[22]);
    lemma_iso_assemble(t, s);
}

/// Parses a timestamp field: the ISO-like form when the separator is
/// present, otherwise a decimal count of Unix epoch seconds. Returns
/// `MalformedTimestamp` exactly when neither form parses.
pub fn parse_timestamp(s: &str) -> (r: Result<Timestamp, ScError>)
    ensures
        (r matches Ok(t) ==> timestamp_parse(s@) == Some(t) && t.well_formed()),
        (r is Err ==> timestamp_parse(s@) is None && r == Err::<Timestamp, ScError>(
            ScError::MalformedTimestamp,
        )),
{
    if contains_tsep(s) {
        parse_iso(s)
    } else {
        parse_epoch(s)
    }
}

} // verus!
