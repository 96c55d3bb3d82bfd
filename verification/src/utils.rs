//! Numbers as decimal text.

use crate::grammar::decimal_usize;
use crate::grammar::decimal_value;
use crate::grammar::digit_byte;
use crate::grammar::lemma_ascii_is_utf8;
use crate::parser::str_from_utf8;
use vstd::prelude::*;
use vstd::string::StringSliceAdditionalSpecFns;

verus! {

/// The decimal digits of a number, most significant first, as ASCII bytes,
/// with no leading zero but for the number zero itself.
pub open spec fn decimal_digits(n: nat) -> Seq<u8>
    decreases n,
{
    if n < 10 {
        seq![(0x30 + n) as u8]
    } else {
        decimal_digits(n / 10).push((0x30 + n % 10) as u8)
    }
}

/// Every byte of `decimal_digits` is a digit.
pub proof fn lemma_decimal_digits_are_digits(n: nat)
    ensures
        decimal_digits(n).len() >= 1,
        forall|i: int|
            0 <= i < decimal_digits(n).len() ==> 0x30 <= #[trigger] decimal_digits(n)[i] <= 0x39,
    decreases n,
{
    if n >= 10 {
        lemma_decimal_digits_are_digits(n / 10);
    }
}

/// A number that is written out in decimal is read back as itself.
pub proof fn lemma_decimal_round_trip(n: usize)
    ensures
        decimal_usize(decimal_digits(n as nat)) == Some(n),
{
    lemma_decimal_digits_are_digits(n as nat);
    lemma_decimal_value_of_digits(n as nat);
    let digits = decimal_digits(n as nat);
    assert forall|i: int| 0 <= i < digits.len() implies digit_byte(#[trigger] digits[i]) by {
        assert(0x30 <= digits[i] <= 0x39);
    }
}

/// The digits of a number denote that number.
proof fn lemma_decimal_value_of_digits(n: nat)
    ensures
        decimal_value(decimal_digits(n)) == n,
    decreases n,
{
    let digits = decimal_digits(n);
    if n < 10 {
        assert(digits.drop_last() =~= Seq::<u8>::empty());
        assert(decimal_value(digits.drop_last()) == 0);
        assert(digits.last() == (0x30 + n) as u8);
    } else {
        lemma_decimal_value_of_digits(n / 10);
        assert(digits.drop_last() =~= decimal_digits(n / 10));
        assert(digits.last() == (0x30 + n % 10) as u8);
    }
}

/// `numtoa::NumToA::numtoa` on a `usize` in base 10: the decimal digits of
/// the number, written at the end of the buffer and handed back as a slice of
/// it. A buffer of 20 bytes holds the digits of every 64-bit number.
#[verifier::external_body]
fn numtoa_decimal<'a>(val: usize, buf: &'a mut [u8; 20]) -> (r: &'a [u8])
    ensures
        r@ == decimal_digits(val as nat),
{
    numtoa::NumToA::numtoa(val, 10, buf)
}

/// A buffer in which a `usize` can be written out in decimal.
pub struct USizeStrBuf {
    buf: [u8; 20],
}

impl View for USizeStrBuf {
    type V = Seq<u8>;

    /// The bytes that the buffer holds.
    closed spec fn view(&self) -> Seq<u8> {
        self.buf@
    }
}

impl USizeStrBuf {
    /// A buffer of twenty bytes, which is room for the digits of every
    /// `usize`. All of them are zero.
    pub fn new() -> (r: USizeStrBuf)
        ensures
            r@ == Seq::new(20, |i: int| 0u8),
    {
        let r = USizeStrBuf { buf: [0u8; 20] };
        assert(r@ =~= Seq::new(20, |i: int| 0u8));
        r
    }

    /// The number in decimal.
    pub fn stringify(&mut self, val: usize) -> (r: &str)
        ensures
            r.spec_bytes() == decimal_digits(val as nat),
    {
        let digits = numtoa_decimal(val, &mut self.buf);
        proof {
            lemma_decimal_digits_are_digits(val as nat);
            lemma_ascii_is_utf8(digits@);
        }
        str_from_utf8(digits).unwrap()
    }
}

} // verus!
