//! Decimal-digit characters and digit strings.
//!
//! Shared ground for the formatter, the record parser and the binary
//! decoder: what a digit character is worth, and what the decimal digit
//! string of a non-negative integer looks like.

use vstd::prelude::*;
use vstd::string::StrSliceExecFns;

verus! {

/// The character standing for a single decimal digit value below ten.
pub open spec fn digit_char(d: nat) -> char {
    if d == 0 {
        '0'
    } else if d == 1 {
        '1'
    } else if d == 2 {
        '2'
    } else if d == 3 {
        '3'
    } else if d == 4 {
        '4'
    } else if d == 5 {
        '5'
    } else if d == 6 {
        '6'
    } else if d == 7 {
        '7'
    } else if d == 8 {
        '8'
    } else {
        '9'
    }
}

/// The value of a decimal digit character, `None` for any other character.
pub open spec fn digit_val(c: char) -> Option<u8> {
    if c == '0' {
        Some(0u8)
    } else if c == '1' {
        Some(1u8)
    } else if c == '2' {
        Some(2u8)
    } else if c == '3' {
        Some(3u8)
    } else if c == '4' {
        Some(4u8)
    } else if c == '5' {
        Some(5u8)
    } else if c == '6' {
        Some(6u8)
    } else if c == '7' {
        Some(7u8)
    } else if c == '8' {
        Some(8u8)
    } else if c == '9' {
        Some(9u8)
    } else {
        None
    }
}

/// Whether a character is a decimal digit.
pub open spec fn is_digit(c: char) -> bool {
    digit_val(c) is Some
}

/// Whether every character of a sequence is a decimal digit.
pub open spec fn all_digits(s: Seq<char>) -> bool {
    forall|i: int| 0 <= i < s.len() ==> is_digit(#[trigger] s[i])
}

/// The value of a digit character, zero for any other character.
pub open spec fn dv0(c: char) -> nat {
    match digit_val(c) {
        Some(d) => d as nat,
        None => 0,
    }
}

/// The number a digit sequence denotes, read most significant first.
/// Characters that are no digits count as zero; callers guard with
/// `all_digits`.
pub open spec fn digits_to_nat(s: Seq<char>) -> nat
    decreases s.len(),
{
    if s.len() == 0 {
        0
    } else {
        digits_to_nat(s.drop_last()) * 10 + dv0(s.last())
    }
}

/// The digit character of a digit's value is that digit again.
pub proof fn lemma_digit_roundtrip(c: char)
    requires
        is_digit(c),
    ensures
        digit_char(dv0(c)) == c,
        dv0(c) <= 9,
{
}

/// The decimal digit string of a non-negative integer, most significant
/// digit first, without sign or leading zeros (`0` itself is `"0"`).
pub open spec fn dec_digits(n: nat) -> Seq<char>
    decreases n,
{
    if n < 10 {
        seq![digit_char(n)]
    } else {
        dec_digits(n / 10) + seq![digit_char(n % 10)]
    }
}

/// Relies on `String::push` from std: appends exactly the one character
/// at the end of the string.
#[verifier::external_body]
pub fn push_char(s: &mut String, c: char)
    ensures
        final(s)@ == old(s)@ + seq![c],
{
    s.push(c);
}

/// Appends the character for one digit value.
pub fn push_digit(s: &mut String, d: u8)
    requires
        d < 10,
    ensures
        final(s)@ == old(s)@ + seq![digit_char(d as nat)],
{
    let c: char = match d {
        0 => '0',
        1 => '1',
        2 => '2',
        3 => '3',
        4 => '4',
        5 => '5',
        6 => '6',
        7 => '7',
        8 => '8',
        _ => '9',
    };
    assert(c == digit_char(d as nat));
    push_char(s, c);
}

/// The value of a decimal digit character, executable form.
pub fn digit_value(c: char) -> (r: Option<u8>)
    ensures
        r == digit_val(c),
{
    match c {
        '0' => Some(0),
        '1' => Some(1),
        '2' => Some(2),
        '3' => Some(3),
        '4' => Some(4),
        '5' => Some(5),
        '6' => Some(6),
        '7' => Some(7),
        '8' => Some(8),
        '9' => Some(9),
        _ => None,
    }
}

/// Parses a string of decimal digits as a 64-bit number.
pub fn parse_u64_digits(s: &str) -> (r: Option<u64>)
    ensures
        r is Some <==> (s@.len() > 0 && all_digits(s@) && digits_to_nat(s@) <= u64::MAX),
        (r matches Some(v) ==> v == digits_to_nat(s@)),
{
    let n = s.unicode_len();
    if n == 0 {
        return None;
    }
    let mut acc: u64 = 0;
    let mut i: usize = 0;
    while i < n
        invariant
            i <= n,
            n == s@.len(),
            all_digits(s@.take(i as int)),
            acc == digits_to_nat(s@.take(i as int)),
        decreases n - i,
    {
        let c = s.get_char(i);
        let d = match digit_value(c) {
            Some(d) => d,
            None => {
                assert(!is_digit(s@[i as int]));
                return None;
            },
        };
        let next = match acc.checked_mul(10) {
            Some(m) => match m.checked_add(d as u64) {
                Some(a) => a,
                None => {
                    proof {
                        lemma_digits_prefix_bound(s@, i as int + 1);
                        assert(s@.take(i as int + 1).drop_last() =~= s@.take(i as int));
                    }
                    return None;
                },
            },
            None => {
                proof {
                    lemma_digits_prefix_bound(s@, i as int + 1);
                    assert(s@.take(i as int + 1).drop_last() =~= s@.take(i as int));
                }
                return None;
            },
        };
        proof {
            assert(s@.take(i as int + 1).drop_last() =~= s@.take(i as int));
            assert(s@.take(i as int + 1).last() == s@[i as int]);
        }
        acc = next;
        i = i + 1;
    }
    proof {
        assert(s@.take(n as int) =~= s@);
    }
    Some(acc)
}

/// A digit string is worth at least as much as any of its prefixes.
proof fn lemma_digits_prefix_bound(s: Seq<char>, i: int)
    requires
        0 <= i <= s.len(),
    ensures
        digits_to_nat(s.take(i)) <= digits_to_nat(s),
    decreases s.len() - i,
{
    if i == s.len() {
        assert(s.take(i) =~= s);
    } else {
        lemma_digits_prefix_bound(s, i + 1);
        assert(s.take(i + 1).drop_last() =~= s.take(i));
        assert(digits_to_nat(s.take(i + 1)) == digits_to_nat(s.take(i)) * 10 + dv0(
            s.take(i + 1).last(),
        ));
        assert(digits_to_nat(s.take(i)) * 10 >= digits_to_nat(s.take(i)) * 1) by (nonlinear_arith);
    }
}

/// Renders a non-negative integer as its decimal digit string.
pub fn u128_to_digits(n: u128) -> (r: String)
    ensures
        r@ == dec_digits(n as nat),
    decreases n,
{
    if n < 10 {
        let mut s = String::new();
        push_digit(&mut s, n as u8);
        assert(s@ =~= dec_digits(n as nat));
        s
    } else {
        assert(n / 10 < n && n / 10 >= 1) by (nonlinear_arith)
            requires
                n >= 10,
        ;
        let mut s = u128_to_digits(n / 10);
        let d = (n % 10) as u8;
        push_digit(&mut s, d);
        assert(s@ =~= dec_digits(n as nat));
        s
    }
}

} // verus!
