//! Hexadecimal framing of byte sequences.
//!
//! Storage keys travel to the node as lower-case hex with a `0x`
//! prefix, and storage values come back the same way. Encoding always
//! writes two lower-case digits per byte; decoding accepts either case
//! and fails on an odd length or a character that is no hex digit.

use crate::text::push_char;
use vstd::prelude::*;
use vstd::slice::slice_index_get;
use vstd::string::StrSliceExecFns;
use vstd::string::StringExecFns;

verus! {

/// The lower-case character of a hex digit value below sixteen.
pub open spec fn hex_char(d: nat) -> char {
    if d == 0 {
        '0'
    } else if d == 1 {
        '1'
    } else if d == 2 {
        '2'
    } else if d == 3 {
        '3'
    } else if d == 4 {
        '4'
    } else if d == 5 {
        '5'
    } else if d == 6 {
        '6'
    } else if d == 7 {
        '7'
    } else if d == 8 {
        '8'
    } else if d == 9 {
        '9'
    } else if d == 10 {
        'a'
    } else if d == 11 {
        'b'
    } else if d == 12 {
        'c'
    } else if d == 13 {
        'd'
    } else if d == 14 {
        'e'
    } else {
        'f'
    }
}

/// The value of a hex digit character of either case, `None` for any
/// other character.
pub open spec fn hex_val(c: char) -> Option<u8> {
    if c == '0' {
        Some(0u8)
    } else if c == '1' {
        Some(1u8)
    } else if c == '2' {
        Some(2u8)
    } else if c == '3' {
        Some(3u8)
    } else if c == '4' {
        Some(4u8)
    } else if c == '5' {
        Some(5u8)
    } else if c == '6' {
        Some(6u8)
    } else if c == '7' {
        Some(7u8)
    } else if c == '8' {
        Some(8u8)
    } else if c == '9' {
        Some(9u8)
    } else if c == 'a' || c == 'A' {
        Some(10u8)
    } else if c == 'b' || c == 'B' {
        Some(11u8)
    } else if c == 'c' || c == 'C' {
        Some(12u8)
    } else if c == 'd' || c == 'D' {
        Some(13u8)
    } else if c == 'e' || c == 'E' {
        Some(14u8)
    } else if c == 'f' || c == 'F' {
        Some(15u8)
    } else {
        None
    }
}

/// The value of a hex digit character, zero for any other character.
pub open spec fn hv0(c: char) -> nat {
    match hex_val(c) {
        Some(d) => d as nat,
        None => 0,
    }
}

/// The two lower-case hex characters of one byte.
pub open spec fn byte_hex(b: u8) -> Seq<char> {
    seq![hex_char(b as nat / 16), hex_char(b as nat % 16)]
}

/// The lower-case hex string of a byte sequence, two characters per
/// byte.
pub open spec fn hex_of(bytes: Seq<u8>) -> Seq<char>
    decreases bytes.len(),
{
    if bytes.len() == 0 {
        Seq::<char>::empty()
    } else {
        hex_of(bytes.drop_last()) + byte_hex(bytes.last())
    }
}

/// Whether a string is well-formed hex: even length, every character a
/// hex digit of either case.
pub open spec fn hex_digits_ok(s: Seq<char>) -> bool {
    s.len() % 2 == 0 && (forall|i: int| 0 <= i < s.len() ==> hex_val(#[trigger] s[i]) is Some)
}

/// The bytes a well-formed hex string denotes, one per character pair.
pub open spec fn hex_bytes(s: Seq<char>) -> Seq<u8>
    decreases s.len(),
{
    if s.len() < 2 {
        Seq::<u8>::empty()
    } else {
        hex_bytes(s.drop_last().drop_last()).push(
            (hv0(s[s.len() - 2]) * 16 + hv0(s[s.len() - 1])) as u8,
        )
    }
}

/// The character of one hex digit value, executable form.
fn hex_char_of(d: u8) -> (c: char)
    requires
        d < 16,
    ensures
        c == hex_char(d as nat),
{
    match d {
        0 => '0',
        1 => '1',
        2 => '2',
        3 => '3',
        4 => '4',
        5 => '5',
        6 => '6',
        7 => '7',
        8 => '8',
        9 => '9',
        10 => 'a',
        11 => 'b',
        12 => 'c',
        13 => 'd',
        14 => 'e',
        _ => 'f',
    }
}

/// The value of one hex digit character, executable form.
fn hex_value(c: char) -> (r: Option<u8>)
    ensures
        r == hex_val(c),
{
    match c {
        '0' => Some(0),
        '1' => Some(1),
        '2' => Some(2),
        '3' => Some(3),
        '4' => Some(4),
        '5' => Some(5),
        '6' => Some(6),
        '7' => Some(7),
        '8' => Some(8),
        '9' => Some(9),
        'a' | 'A' => Some(10),
        'b' | 'B' => Some(11),
        'c' | 'C' => Some(12),
        'd' | 'D' => Some(13),
        'e' | 'E' => Some(14),
        'f' | 'F' => Some(15),
        _ => None,
    }
}

/// Renders a byte sequence as lower-case hex.
pub fn hex_encode(bytes: &[u8]) -> (r: String)
    ensures
        r@ == hex_of(bytes@),
{
    let n = bytes.len();
    let mut out = String::new();
    let mut i: usize = 0;
    while i < n
        invariant
            i <= n,
            n == bytes@.len(),
            out@ =~= hex_of(bytes@.take(i as int)),
        decreases n - i,
    {
        let b = *slice_index_get(bytes, i);
        push_char(&mut out, hex_char_of(b / 16));
        push_char(&mut out, hex_char_of(b % 16));
        proof {
            assert(bytes@.take(i as int + 1).drop_last() =~= bytes@.take(i as int));
            assert(bytes@.take(i as int + 1).last() == bytes@[i as int]);
            assert(out@ =~= hex_of(bytes@.take(i as int + 1)));
        }
        i = i + 1;
    }
    proof {
        assert(bytes@.take(n as int) =~= bytes@);
    }
    out
}

/// Renders a byte sequence as lower-case hex behind a `0x` prefix.
pub fn hex_encode_prefixed(bytes: &[u8]) -> (r: String)
    ensures
        r@ == "0x"@ + hex_of(bytes@),
{
    let mut out = String::from_str("0x");
    let body = hex_encode(bytes);
    out.append(body.as_str());
    out
}

/// Parses a hex string of either case into its bytes; `None` on an odd
/// length or a character that is no hex digit.
pub fn hex_decode(s: &str) -> (r: Option<Vec<u8>>)
    ensures
        r is Some <==> hex_digits_ok(s@),
        (r matches Some(v) ==> v@ == hex_bytes(s@)),
{
    let n = s.unicode_len();
    if n % 2 != 0 {
        return None;
    }
    let mut out: Vec<u8> = Vec::new();
    let mut i: usize = 0;
    while i < n
        invariant
            i <= n,
            i % 2 == 0,
            n % 2 == 0,
            n == s@.len(),
            forall|j: int| 0 <= j < i ==> hex_val(#[trigger] s@[j]) is Some,
            out@ =~= hex_bytes(s@.take(i as int)),
        decreases n - i,
    {
        let hi = match hex_value(s.get_char(i)) {
            Some(d) => d,
            None => {
                assert(hex_val(s@[i as int]) is None);
                return None;
            },
        };
        let lo = match hex_value(s.get_char(i + 1)) {
            Some(d) => d,
            None => {
                assert(hex_val(s@[i as int + 1]) is None);
                return None;
            },
        };
        out.push(hi * 16 + lo);
        proof {
            let t = s@.take(i as int + 2);
            assert(t.drop_last().drop_last() =~= s@.take(i as int));
            assert(t[t.len() - 2] == s@[i as int]);
            assert(t[t.len() - 1] == s@[i as int + 1]);
            assert(out@ =~= hex_bytes(s@.take(i as int + 2)));
        }
        i = i + 2;
    }
    proof {
        assert(s@.take(n as int) =~= s@);
    }
    Some(out)
}

/// A hex string stripped of one leading `0x`, if any.
pub open spec fn strip_hex_prefix(s: Seq<char>) -> Seq<char> {
    if s.len() >= 2 && s[0] == '0' && s[1] == 'x' {
        s.skip(2)
    } else {
        s
    }
}

/// Parses a hex string that may carry a `0x` prefix.
pub fn hex_decode_prefixed(s: &str) -> (r: Option<Vec<u8>>)
    ensures
        r is Some <==> hex_digits_ok(strip_hex_prefix(s@)),
        (r matches Some(v) ==> v@ == hex_bytes(strip_hex_prefix(s@))),
{
    let n = s.unicode_len();
    if n >= 2 && s.get_char(0) == '0' && s.get_char(1) == 'x' {
        let body = s.substring_char(2, n);
        proof {
            assert(body@ =~= strip_hex_prefix(s@));
        }
        hex_decode(body)
    } else {
        hex_decode(s)
    }
}

} // verus!
