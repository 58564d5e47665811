//! Fixed-point decimal rendering of unsigned integer magnitudes.
//!
//! A magnitude is kept as a decimal digit string; rendering inserts a
//! decimal point `decimals` places from the right, left-padding with
//! zeros first so that at least one digit stands before the point.

use crate::text::{dec_digits, push_char, u128_to_digits};
use vstd::prelude::*;
use vstd::string::StrSliceExecFns;
use vstd::string::StringExecFns;

verus! {

/// A run of zero characters.
pub open spec fn zeros(n: nat) -> Seq<char> {
    Seq::new(n, |i: int| '0')
}

/// The digit string left-padded with zeros until it is strictly longer
/// than `decimals`; a string already longer stays as it is.
pub open spec fn zero_padded(digits: Seq<char>, decimals: nat) -> Seq<char> {
    if digits.len() > decimals {
        digits
    } else {
        zeros((decimals + 1 - digits.len()) as nat) + digits
    }
}

/// The fixed-point rendering: the zero-padded digit string with a decimal
/// point inserted `decimals` places from the right.
pub open spec fn with_point(digits: Seq<char>, decimals: nat) -> Seq<char> {
    let padded = zero_padded(digits, decimals);
    padded.take(padded.len() - decimals) + seq!['.'] + padded.skip(padded.len() - decimals)
}

/// Law: the rendering is a pure reshaping, total over all digit strings
/// and decimal counts. The padded string is the digit string left-padded
/// with zeros to exactly `max(len, decimals + 1)` characters; the output
/// is that string with one point inserted, and removing the point gives
/// the padded string back unchanged.
pub proof fn lemma_with_point_shape(digits: Seq<char>, decimals: nat)
    ensures
        ({
            let out = with_point(digits, decimals);
            let padded = zero_padded(digits, decimals);
            let cut = padded.len() - decimals;
            &&& padded.len() == if digits.len() > decimals {
                digits.len()
            } else {
                decimals + 1
            }
            &&& 1 <= cut <= padded.len()
            &&& out.len() == padded.len() + 1
            &&& out[cut] == '.'
            &&& out.take(cut) + out.skip(cut + 1) =~= padded
            &&& padded.skip(padded.len() - digits.len()) =~= digits
            &&& forall|i: int| 0 <= i < padded.len() - digits.len() ==> padded[i] == '0'
        }),
{
    let out = with_point(digits, decimals);
    let padded = zero_padded(digits, decimals);
    let cut = padded.len() - decimals;
    assert(out.take(cut) =~= padded.take(cut));
    assert(out.skip(cut + 1) =~= padded.skip(cut));
    assert(padded.take(cut) + padded.skip(cut) =~= padded);
    assert(out.take(cut) + out.skip(cut + 1) =~= padded);
}

/// A value that can be rendered as a fixed-point decimal string.
pub trait DecimalPointPuttable: Sized {
    /// The decimal digit string the value stands for.
    spec fn digit_view(self) -> Seq<char>;

    /// Renders the value with a decimal point `decimals` places from the
    /// right, left-padding with zeros so at least one digit precedes the
    /// point. The bound on `decimals` only keeps the output length within
    /// the machine's address range.
    fn with_decimal_point(self, decimals: usize) -> (r: String)
        requires
            decimals <= usize::MAX - 2,
        ensures
            r@ == with_point(self.digit_view(), decimals as nat),
    ;
}

impl<'a> DecimalPointPuttable for &'a str {
    open spec fn digit_view(self) -> Seq<char> {
        self@
    }

    fn with_decimal_point(self, decimals: usize) -> (r: String) {
        let n = self.unicode_len();
        let mut out = String::new();
        if n > decimals {
            let cut = n - decimals;
            let mut i: usize = 0;
            while i < cut
                invariant
                    n == self@.len(),
                    cut == n - decimals,
                    0 < cut <= n,
                    i <= cut,
                    out@ =~= self@.take(i as int),
                decreases cut - i,
            {
                let c = self.get_char(i);
                push_char(&mut out, c);
                assert(self@.take(i + 1) =~= self@.take(i as int) + seq![self@[i as int]]);
                i = i + 1;
            }
            push_char(&mut out, '.');
            while i < n
                invariant
                    n == self@.len(),
                    cut == n - decimals,
                    0 < cut <= i <= n,
                    out@ =~= self@.take(cut as int) + seq!['.'] + self@.subrange(
                        cut as int,
                        i as int,
                    ),
                decreases n - i,
            {
                let c = self.get_char(i);
                push_char(&mut out, c);
                assert(self@.subrange(cut as int, i + 1) =~= self@.subrange(cut as int, i as int)
                    + seq![self@[i as int]]);
                i = i + 1;
            }
            proof {
                let padded = zero_padded(self@, decimals as nat);
                assert(padded == self@);
                assert(self@.subrange(cut as int, n as int) =~= self@.skip(cut as int));
                assert(out@ =~= with_point(self@, decimals as nat));
            }
        } else {
            // The padded form is zeros(decimals + 1 - n) + digits, and the
            // point falls right after the first (zero) character.
            push_char(&mut out, '0');
            push_char(&mut out, '.');
            let z = decimals + 1 - n;
            let mut j: usize = 1;
            while j < z
                invariant
                    n == self@.len(),
                    n <= decimals <= usize::MAX - 2,
                    z == decimals + 1 - n,
                    1 <= j <= z,
                    out@ =~= seq!['0', '.'] + zeros((j - 1) as nat),
                decreases z - j,
            {
                push_char(&mut out, '0');
                assert(seq!['0', '.'] + zeros((j - 1) as nat) + seq!['0'] =~= seq!['0', '.']
                    + zeros(j as nat));
                j = j + 1;
            }
            out.append(self);
            proof {
                let padded = zero_padded(self@, decimals as nat);
                let cut = padded.len() - decimals;
                assert(padded =~= zeros(z as nat) + self@);
                assert(cut == 1);
                assert(padded.take(1) =~= seq!['0']);
                assert(padded.skip(1) =~= zeros((z - 1) as nat) + self@);
                assert(out@ =~= seq!['0', '.'] + zeros((z - 1) as nat) + self@);
                assert(out@ =~= with_point(self@, decimals as nat));
            }
        }
        out
    }
}

impl DecimalPointPuttable for u128 {
    open spec fn digit_view(self) -> Seq<char> {
        dec_digits(self as nat)
    }

    fn with_decimal_point(self, decimals: usize) -> (r: String) {
        let s = u128_to_digits(self);
        s.as_str().with_decimal_point(decimals)
    }
}

} // verus!
