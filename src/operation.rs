use crate::bits::{
    complement_cells, lemma_complement_value, lemma_magnitude_bound, lemma_magnitude_whole,
    ripple_add,
};
use crate::error::OverflowException;
use crate::integer::{
    int32_with_value, lemma_int32_with_value, lemma_sign_split, lemma_uint32_with_value,
    lemma_zero_value,
    twos_complement_value, uint32_with_value, unsigned_value, Int32, UInt32,
};
use crate::IntegerNumber;
use core::cmp::Ordering;
use vstd::arithmetic::power2::lemma2_to64;
use vstd::prelude::*;

verus! {

/// Sum of two unsigned readings, or `None` where it leaves the 32-bit range.
pub open spec fn unsigned_sum(a: Seq<bool>, b: Seq<bool>) -> Option<int> {
    let s = unsigned_value(a) + unsigned_value(b);
    if s <= u32::MAX {
        Some(s)
    } else {
        None
    }
}

/// Difference of two unsigned readings, or `None` where it is negative.
pub open spec fn unsigned_difference(a: Seq<bool>, b: Seq<bool>) -> Option<int> {
    let d = unsigned_value(a) - unsigned_value(b);
    if d >= 0 {
        Some(d)
    } else {
        None
    }
}

/// Whether a value fits the 32-bit twos' complement range.
pub open spec fn fits_signed(v: int) -> bool {
    i32::MIN <= v <= i32::MAX
}

/// The smallest 32-bit twos' complement value.
pub open spec fn lowest_signed() -> int {
    i32::MIN as int
}

/// Unsigned negation on 32 cells: `2^32 - v`, modulo `2^32`.
pub open spec fn unsigned_negation(v: int) -> int {
    (0x1_0000_0000 - v) % 0x1_0000_0000
}

/// Twos' complement negation on 32 cells: the minimum stays, every other value
/// changes sign.
pub open spec fn signed_negation(v: int) -> int {
    if v == lowest_signed() {
        v
    } else {
        -v
    }
}

/// The order of two integers.
pub open spec fn compare(x: int, y: int) -> Ordering {
    if x < y {
        Ordering::Less
    } else if x == y {
        Ordering::Equal
    } else {
        Ordering::Greater
    }
}

/// Twos' complement addition of two 32-cell patterns with a carry into the
/// last cell: a ripple over cells `31..1`, then the sign cell, with overflow
/// where the carry into the sign cell differs from the carry out of it.
fn signed_ripple(a: &[bool; 32], b: &[bool; 32], carry_in: bool) -> (r: ([bool; 32], bool))
    ensures
        ({
            let t = twos_complement_value(a@) + twos_complement_value(b@) + (if carry_in {
                1int
            } else {
                0
            });
            &&& r.1 <==> !fits_signed(t)
            &&& !r.1 ==> twos_complement_value(r.0@) == t
        }),
{
    let (low, into_sign) = ripple_add(a, b, 1, carry_in);
    let left = a[0];
    let right = b[0];
    let out_of_sign = (left && right) || (left && into_sign) || (right && into_sign);
    let mut cells = low;
    cells[0] = left ^ right ^ into_sign;
    proof {
        lemma_sign_split(a@);
        lemma_sign_split(b@);
        lemma_sign_split(cells@);
        lemma_sign_split(low@);
        assert(cells@.subrange(1, 32) =~= low@.subrange(1, 32));
    }
    (cells, into_sign != out_of_sign)
}

impl UInt32 {
    /// The order of the two values.
    pub fn cmp(&self, other: &Self) -> (r: Ordering)
        ensures
            r == compare(unsigned_value(self@), unsigned_value(other@)),
    {
        let x = self.decode_original_code();
        let y = other.decode_original_code();
        if x < y {
            Ordering::Less
        } else if x == y {
            Ordering::Equal
        } else {
            Ordering::Greater
        }
    }
}

impl core::ops::Add for UInt32 {
    type Output = Result<UInt32, OverflowException>;

    /// Ripple-carry addition; a carry out of the most significant cell is an
    /// overflow.
    fn add(self, other: Self) -> (r: Result<Self, OverflowException>)
        ensures
            match unsigned_sum(self@, other@) {
                Some(s) => r matches Ok(v) && unsigned_value(v@) == s,
                None => r is Err,
            },
    {
        let (sum, carry) = ripple_add(&self.bits, &other.bits, 0, false);
        proof {
            lemma_magnitude_whole(self@);
            lemma_magnitude_whole(other@);
            lemma_magnitude_whole(sum@);
            lemma_magnitude_bound(sum@, 0);
            lemma2_to64();
        }
        if carry {
            Err(OverflowException)
        } else {
            let v = Self { bits: sum };
            proof {
                lemma_uint32_with_value(v);
            }
            Ok(v)
        }
    }
}

impl core::ops::Neg for UInt32 {
    type Output = UInt32;

    /// Twos' complement negation: every cell complemented, then one added by a
    /// ripple with an initial carry. The pattern of `2^32 - a`, modulo `2^32`.
    fn neg(self) -> (r: Self)
        ensures
            unsigned_value(r@) == unsigned_negation(unsigned_value(self@)),
    {
        let flipped = complement_cells(&self.bits);
        let zero = [false; 32];
        let (sum, carry) = ripple_add(&flipped, &zero, 0, true);
        proof {
            lemma_complement_value(self@);
            lemma_magnitude_whole(flipped@);
            lemma_magnitude_whole(sum@);
            lemma_magnitude_bound(sum@, 0);
            lemma_magnitude_whole(zero@);
            lemma_zero_value(zero@);
            lemma2_to64();
        }
        let v = Self { bits: sum };
        proof {
            lemma_uint32_with_value(v);
        }
        v
    }
}

impl core::ops::Sub for UInt32 {
    type Output = Result<UInt32, OverflowException>;

    /// `self + neg(other)`: the apparent result exceeds the minuend exactly
    /// when the true difference is negative, which is an overflow.
    fn sub(self, other: Self) -> (r: Result<Self, OverflowException>)
        ensures
            match unsigned_difference(self@, other@) {
                Some(d) => r matches Ok(v) && unsigned_value(v@) == d,
                None => r is Err,
            },
    {
        let negative = core::ops::Neg::neg(other);
        let (sum, _carry) = ripple_add(&self.bits, &negative.bits, 0, false);
        let result = Self { bits: sum };
        proof {
            lemma_magnitude_whole(self@);
            lemma_magnitude_whole(negative@);
            lemma_magnitude_whole(sum@);
            lemma_magnitude_bound(sum@, 0);
            lemma_magnitude_bound(self@, 0);
            lemma_magnitude_bound(other@, 0);
            lemma_magnitude_whole(other@);
            lemma2_to64();
        }
        if result.gt(&self) {
            Err(OverflowException)
        } else {
            proof {
                lemma_uint32_with_value(result);
            }
            Ok(result)
        }
    }
}

impl PartialOrd for UInt32 {
    fn partial_cmp(&self, other: &Self) -> (r: Option<Ordering>)
        ensures
            r == Some(compare(unsigned_value(self@), unsigned_value(other@))),
    {
        Some(self.cmp(other))
    }

    fn lt(&self, other: &Self) -> (r: bool)
        ensures
            r == (unsigned_value(self@) < unsigned_value(other@)),
    {
        self.decode_original_code() < other.decode_original_code()
    }

    fn le(&self, other: &Self) -> (r: bool)
        ensures
            r == (unsigned_value(self@) <= unsigned_value(other@)),
    {
        self.decode_original_code() <= other.decode_original_code()
    }

    fn gt(&self, other: &Self) -> (r: bool)
        ensures
            r == (unsigned_value(self@) > unsigned_value(other@)),
    {
        self.decode_original_code() > other.decode_original_code()
    }

    fn ge(&self, other: &Self) -> (r: bool)
        ensures
            r == (unsigned_value(self@) >= unsigned_value(other@)),
    {
        self.decode_original_code() >= other.decode_original_code()
    }
}

impl vstd::std_specs::cmp::PartialOrdSpecImpl for UInt32 {
    open spec fn obeys_partial_cmp_spec() -> bool {
        true
    }

    open spec fn partial_cmp_spec(&self, other: &Self) -> Option<Ordering> {
        Some(compare(unsigned_value(self@), unsigned_value(other@)))
    }
}

impl Int32 {
    /// The order of the two twos' complement values.
    pub fn cmp(&self, other: &Self) -> (r: Ordering)
        ensures
            r == compare(twos_complement_value(self@), twos_complement_value(other@)),
    {
        let x = self.decode_twos_complement();
        let y = other.decode_twos_complement();
        if x < y {
            Ordering::Less
        } else if x == y {
            Ordering::Equal
        } else {
            Ordering::Greater
        }
    }
}

impl core::ops::Add for Int32 {
    type Output = Result<Int32, OverflowException>;

    /// Twos' complement addition; overflow where the carry into the sign cell
    /// differs from the carry out of it.
    fn add(self, other: Self) -> (r: Result<Self, OverflowException>)
        ensures
            ({
                let s = twos_complement_value(self@) + twos_complement_value(other@);
                &&& fits_signed(s) ==> (r matches Ok(v) && twos_complement_value(v@) == s)
                &&& !fits_signed(s) ==> r is Err
            }),
    {
        let (sum, overflow) = signed_ripple(&self.bits, &other.bits, false);
        if overflow {
            Err(OverflowException)
        } else {
            let v = Self { bits: sum };
            proof {
                lemma_int32_with_value(v);
            }
            Ok(v)
        }
    }
}

impl core::ops::Neg for Int32 {
    type Output = Int32;

    /// Twos' complement negation over all 32 cells: every cell complemented,
    /// then one added by a ripple with an initial carry. The minimum is its
    /// own negation.
    fn neg(self) -> (r: Self)
        ensures
            twos_complement_value(r@) == signed_negation(twos_complement_value(self@)),
    {
        let as_unsigned = UInt32 { bits: self.bits };
        let negative = core::ops::Neg::neg(as_unsigned);
        proof {
            lemma_sign_split(self@);
            lemma_sign_split(negative@);
            lemma2_to64();
        }
        let v = Self { bits: negative.bits };
        proof {
            lemma_int32_with_value(v);
        }
        v
    }
}

impl core::ops::Sub for Int32 {
    type Output = Result<Int32, OverflowException>;

    /// `self + neg(other)`, the one of the negation carried into the last
    /// cell; overflow where the true difference leaves the 32-bit range.
    fn sub(self, other: Self) -> (r: Result<Self, OverflowException>)
        ensures
            ({
                let d = twos_complement_value(self@) - twos_complement_value(other@);
                &&& fits_signed(d) ==> (r matches Ok(v) && twos_complement_value(v@) == d)
                &&& !fits_signed(d) ==> r is Err
            }),
    {
        let flipped = complement_cells(&other.bits);
        let (difference, overflow) = signed_ripple(&self.bits, &flipped, true);
        proof {
            lemma_sign_split(other@);
            lemma_sign_split(flipped@);
            lemma_complement_value(other@);
        }
        if overflow {
            Err(OverflowException)
        } else {
            let v = Self { bits: difference };
            proof {
                lemma_int32_with_value(v);
            }
            Ok(v)
        }
    }
}

impl PartialOrd for Int32 {
    fn partial_cmp(&self, other: &Self) -> (r: Option<Ordering>)
        ensures
            r == Some(compare(twos_complement_value(self@), twos_complement_value(other@))),
    {
        Some(self.cmp(other))
    }

    fn lt(&self, other: &Self) -> (r: bool)
        ensures
            r == (twos_complement_value(self@) < twos_complement_value(other@)),
    {
        self.decode_twos_complement() < other.decode_twos_complement()
    }

    fn le(&self, other: &Self) -> (r: bool)
        ensures
            r == (twos_complement_value(self@) <= twos_complement_value(other@)),
    {
        self.decode_twos_complement() <= other.decode_twos_complement()
    }

    fn gt(&self, other: &Self) -> (r: bool)
        ensures
            r == (twos_complement_value(self@) > twos_complement_value(other@)),
    {
        self.decode_twos_complement() > other.decode_twos_complement()
    }

    fn ge(&self, other: &Self) -> (r: bool)
        ensures
            r == (twos_complement_value(self@) >= twos_complement_value(other@)),
    {
        self.decode_twos_complement() >= other.decode_twos_complement()
    }
}

impl vstd::std_specs::cmp::PartialOrdSpecImpl for Int32 {
    open spec fn obeys_partial_cmp_spec() -> bool {
        true
    }

    open spec fn partial_cmp_spec(&self, other: &Self) -> Option<Ordering> {
        Some(compare(twos_complement_value(self@), twos_complement_value(other@)))
    }
}

impl vstd::std_specs::ops::AddSpecImpl for UInt32 {
    open spec fn obeys_add_spec() -> bool {
        true
    }

    open spec fn add_req(self, rhs: UInt32) -> bool {
        true
    }

    open spec fn add_spec(self, rhs: UInt32) -> Result<UInt32, OverflowException> {
        match unsigned_sum(self@, rhs@) {
            Some(s) => Ok(uint32_with_value(s)),
            None => Err(OverflowException),
        }
    }
}

impl vstd::std_specs::ops::NegSpecImpl for UInt32 {
    open spec fn obeys_neg_spec() -> bool {
        true
    }

    open spec fn neg_req(self) -> bool {
        true
    }

    open spec fn neg_spec(self) -> UInt32 {
        uint32_with_value(unsigned_negation(unsigned_value(self@)))
    }
}

impl vstd::std_specs::ops::SubSpecImpl for UInt32 {
    open spec fn obeys_sub_spec() -> bool {
        true
    }

    open spec fn sub_req(self, rhs: UInt32) -> bool {
        true
    }

    open spec fn sub_spec(self, rhs: UInt32) -> Result<UInt32, OverflowException> {
        match unsigned_difference(self@, rhs@) {
            Some(d) => Ok(uint32_with_value(d)),
            None => Err(OverflowException),
        }
    }
}

impl vstd::std_specs::ops::AddSpecImpl for Int32 {
    open spec fn obeys_add_spec() -> bool {
        true
    }

    open spec fn add_req(self, rhs: Int32) -> bool {
        true
    }

    open spec fn add_spec(self, rhs: Int32) -> Result<Int32, OverflowException> {
        let s = twos_complement_value(self@) + twos_complement_value(rhs@);
        if fits_signed(s) {
            Ok(int32_with_value(s))
        } else {
            Err(OverflowException)
        }
    }
}

impl vstd::std_specs::ops::NegSpecImpl for Int32 {
    open spec fn obeys_neg_spec() -> bool {
        true
    }

    open spec fn neg_req(self) -> bool {
        true
    }

    open spec fn neg_spec(self) -> Int32 {
        int32_with_value(signed_negation(twos_complement_value(self@)))
    }
}

impl vstd::std_specs::ops::SubSpecImpl for Int32 {
    open spec fn obeys_sub_spec() -> bool {
        true
    }

    open spec fn sub_req(self, rhs: Int32) -> bool {
        true
    }

    open spec fn sub_spec(self, rhs: Int32) -> Result<Int32, OverflowException> {
        let d = twos_complement_value(self@) - twos_complement_value(rhs@);
        if fits_signed(d) {
            Ok(int32_with_value(d))
        } else {
            Err(OverflowException)
        }
    }
}

} // verus!
