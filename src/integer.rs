use crate::bits::{
    bits_from_u64, cells_equal, cells_of, bits_value, complement, complement_cells,
    lemma_bits_value_bound, lemma_bits_value_injective, lemma_complement_magnitude,
    lemma_magnitude_bound, lemma_magnitude_step, lemma_magnitude_whole, magnitude,
    number_binary_array,
};
use crate::extension::increment_one;
use crate::IntegerNumber;
use vstd::arithmetic::power2::{lemma2_to64, pow2};
use vstd::prelude::*;

verus! {

/// Reading of a cell sequence as an unsigned number: every cell is a magnitude cell.
pub open spec fn unsigned_value(b: Seq<bool>) -> int {
    bits_value(b) as int
}

/// Sign-magnitude reading: cell `0` is the sign, the other cells are the
/// magnitude as they stand.
pub open spec fn sign_magnitude_value(b: Seq<bool>) -> int {
    if b[0] {
        -magnitude(b, 1)
    } else {
        magnitude(b, 1) as int
    }
}

/// Ones' complement reading: a negative value is stored as the complement of
/// its magnitude.
pub open spec fn ones_complement_value(b: Seq<bool>) -> int {
    if b[0] {
        -magnitude(complement(b), 1)
    } else {
        magnitude(b, 1) as int
    }
}

/// The sign-magnitude reading of a view: the plain value for an unsigned view.
pub open spec fn original_code_reading(b: Seq<bool>, signed: bool) -> int {
    if signed {
        sign_magnitude_value(b)
    } else {
        unsigned_value(b)
    }
}

/// The ones' complement reading of a view: the plain value for an unsigned view.
pub open spec fn ones_complement_reading(b: Seq<bool>, signed: bool) -> int {
    if signed {
        ones_complement_value(b)
    } else {
        unsigned_value(b)
    }
}

/// The twos' complement reading of a view: the plain value for an unsigned view.
pub open spec fn twos_complement_reading(b: Seq<bool>, signed: bool) -> int {
    if signed {
        twos_complement_value(b)
    } else {
        unsigned_value(b)
    }
}

/// Twos' complement reading: a negative value `v` is stored as the pattern of
/// `2^W + v`.
pub open spec fn twos_complement_value(b: Seq<bool>) -> int {
    if b[0] {
        bits_value(b) - pow2(b.len())
    } else {
        bits_value(b) as int
    }
}

/// The 32-cell twos' complement pattern of `v`: the digits of `2^32 + v` for a
/// negative `v`.
pub open spec fn twos_cells(v: int) -> Seq<bool> {
    cells_of(
        (if v < 0 {
            v + 0x1_0000_0000
        } else {
            v
        }) as nat,
        32,
    )
}

/// A 32-bit unsigned integer held as 32 cells, most significant first.
#[derive(Copy, Clone, Debug, Eq)]
pub struct UInt32 {
    pub bits: [bool; 32],
}

/// A 32-bit signed integer held as 32 cells, most significant (the sign) first.
#[derive(Copy, Clone, Debug, Eq)]
pub struct Int32 {
    pub bits: [bool; 32],
}

impl View for UInt32 {
    type V = Seq<bool>;

    open spec fn view(&self) -> Seq<bool> {
        self.bits@
    }
}

impl View for Int32 {
    type V = Seq<bool>;

    open spec fn view(&self) -> Seq<bool> {
        self.bits@
    }
}

impl PartialEq for UInt32 {
    fn eq(&self, other: &UInt32) -> (r: bool) {
        cells_equal(self.bits.as_slice(), other.bits.as_slice())
    }
}

impl vstd::std_specs::cmp::PartialEqSpecImpl for UInt32 {
    open spec fn obeys_eq_spec() -> bool {
        true
    }

    open spec fn eq_spec(&self, other: &UInt32) -> bool {
        self@ == other@
    }
}

impl PartialEq for Int32 {
    fn eq(&self, other: &Int32) -> (r: bool) {
        cells_equal(self.bits.as_slice(), other.bits.as_slice())
    }
}

impl vstd::std_specs::cmp::PartialEqSpecImpl for Int32 {
    open spec fn obeys_eq_spec() -> bool {
        true
    }

    open spec fn eq_spec(&self, other: &Int32) -> bool {
        self@ == other@
    }
}

/// The 32-bit unsigned integer whose value is `v`.
pub open spec fn uint32_with_value(v: int) -> UInt32 {
    choose|c: UInt32| unsigned_value(c@) == v
}

/// The 32-bit signed integer whose twos' complement value is `v`.
pub open spec fn int32_with_value(v: int) -> Int32 {
    choose|c: Int32| twos_complement_value(c@) == v
}

/// An unsigned integer is the one with its value.
pub proof fn lemma_uint32_with_value(x: UInt32)
    ensures
        uint32_with_value(unsigned_value(x@)) == x,
{
    let c = uint32_with_value(unsigned_value(x@));
    lemma_bits_value_injective(c@, x@);
    assert(c.bits == x.bits);
}

/// A signed integer is the one with its twos' complement value.
pub proof fn lemma_int32_with_value(x: Int32)
    ensures
        int32_with_value(twos_complement_value(x@)) == x,
{
    let c = int32_with_value(twos_complement_value(x@));
    lemma_sign_split(c@);
    lemma_sign_split(x@);
    lemma_bits_value_injective(c@, x@);
    assert(c.bits == x.bits);
}

/// The sign cell of a 32-cell sequence is set exactly when its unsigned value
/// reaches `2^31`, and the value splits into the sign's weight and the magnitude.
pub proof fn lemma_sign_split(b: Seq<bool>)
    requires
        b.len() == 32,
    ensures
        bits_value(b) == (if b[0] {
            pow2(31)
        } else {
            0
        }) + magnitude(b, 1),
        magnitude(b, 1) < pow2(31),
        b[0] <==> bits_value(b) >= pow2(31),
        pow2(31) == 0x8000_0000,
        pow2(32) == 0x1_0000_0000,
{
    lemma_magnitude_whole(b);
    lemma_magnitude_step(b, 0);
    lemma_magnitude_bound(b, 1);
    lemma2_to64();
}

impl UInt32 {
    /// The all-zero pattern.
    pub fn new() -> (r: Self)
        ensures
            r@ == Seq::new(32, |i: int| false),
            unsigned_value(r@) == 0,
    {
        let r = Self { bits: [false; 32] };
        proof {
            assert(r@ =~= Seq::new(32, |i: int| false));
            lemma_zero_value(r@);
        }
        r
    }
}

impl IntegerNumber for UInt32 {
    type Output = u32;

    open spec fn cells(&self) -> Seq<bool> {
        self@
    }

    open spec fn signed() -> bool {
        false
    }

    open spec fn output_value(o: u32) -> int {
        o as int
    }

    /// The cells, most significant first.
    fn bits(&self) -> (r: &[bool])
        ensures
            r@ == self@,
    {
        self.bits.as_slice()
    }

    /// An unsigned value is never negative.
    fn is_negative(&self) -> (r: bool)
        ensures
            !r,
    {
        false
    }

    /// Sign-magnitude reading; for an unsigned view it is the plain value.
    fn decode_original_code(&self) -> (r: u32)
        ensures
            r == unsigned_value(self@),
    {
        let r = number_binary_array(self.bits.as_slice(), 0);
        proof {
            lemma_magnitude_whole(self@);
            lemma_bits_value_bound(self@);
            lemma2_to64();
        }
        r as u32
    }

    /// Ones' complement reading; for an unsigned view it is the plain value.
    fn decode_ones_complement(&self) -> (r: u32)
        ensures
            r == unsigned_value(self@),
    {
        self.decode_original_code()
    }

    /// Twos' complement reading; for an unsigned view it is the plain value.
    fn decode_twos_complement(&self) -> (r: u32)
        ensures
            r == unsigned_value(self@),
    {
        self.decode_original_code()
    }

}

/// A sequence of clear cells has value zero.
pub proof fn lemma_zero_value(b: Seq<bool>)
    requires
        forall|i: int| 0 <= i < b.len() ==> !b[i],
    ensures
        bits_value(b) == 0,
    decreases b.len(),
{
    if b.len() > 0 {
        lemma_zero_value(b.drop_first());
    }
}

impl Int32 {
    /// The all-zero pattern.
    pub fn new() -> (r: Self)
        ensures
            r@ == Seq::new(32, |i: int| false),
            twos_complement_value(r@) == 0,
    {
        let r = Self { bits: [false; 32] };
        proof {
            assert(r@ =~= Seq::new(32, |i: int| false));
            lemma_zero_value(r@);
        }
        r
    }
}

impl IntegerNumber for Int32 {
    type Output = i32;

    open spec fn cells(&self) -> Seq<bool> {
        self@
    }

    open spec fn signed() -> bool {
        true
    }

    open spec fn output_value(o: i32) -> int {
        o as int
    }

    /// The cells, most significant first.
    fn bits(&self) -> (r: &[bool])
        ensures
            r@ == self@,
    {
        self.bits.as_slice()
    }

    /// The sign cell.
    fn is_negative(&self) -> (r: bool)
        ensures
            r == self@[0],
    {
        self.bits[0]
    }

    /// Sign-magnitude reading: the low 31 cells as they stand, negated when
    /// the sign cell is set.
    fn decode_original_code(&self) -> (r: i32)
        ensures
            r == sign_magnitude_value(self@),
    {
        let m = number_binary_array(self.bits.as_slice(), 1);
        proof {
            lemma_sign_split(self@);
        }
        if self.is_negative() {
            -(m as i32)
        } else {
            m as i32
        }
    }

    /// Ones' complement reading: a negative pattern is complemented and its
    /// magnitude negated.
    fn decode_ones_complement(&self) -> (r: i32)
        ensures
            r == ones_complement_value(self@),
    {
        if self.is_negative() {
            let flipped = complement_cells(&self.bits);
            let m = number_binary_array(flipped.as_slice(), 1);
            proof {
                lemma_magnitude_bound(flipped@, 1);
                lemma2_to64();
            }
            -(m as i32)
        } else {
            let m = number_binary_array(self.bits.as_slice(), 1);
            proof {
                lemma_sign_split(self@);
            }
            m as i32
        }
    }

    /// Twos' complement reading: a negative pattern is complemented, its
    /// magnitude `m` taken, and `-(m + 1)` returned.
    fn decode_twos_complement(&self) -> (r: i32)
        ensures
            r == twos_complement_value(self@),
    {
        proof {
            lemma_sign_split(self@);
        }
        if self.is_negative() {
            let flipped = complement_cells(&self.bits);
            let m = number_binary_array(flipped.as_slice(), 1);
            proof {
                lemma_complement_magnitude(self@, 1);
            }
            let next = increment_one(m as u32);
            (-(next as i64)) as i32
        } else {
            let m = number_binary_array(self.bits.as_slice(), 1);
            m as i32
        }
    }

}

impl From<u32> for UInt32 {
    /// The cells of `value`, most significant first.
    fn from(value: u32) -> (r: Self)
        ensures
            r@ == cells_of(value as nat, 32),
            unsigned_value(r@) == value,
    {
        proof {
            lemma2_to64();
        }
        let r = Self { bits: bits_from_u64::<32>(value as u64) };
        proof {
            lemma_uint32_with_value(r);
        }
        r
    }
}

impl vstd::std_specs::convert::FromSpecImpl<u32> for UInt32 {
    open spec fn obeys_from_spec() -> bool {
        true
    }

    open spec fn from_spec(v: u32) -> UInt32 {
        uint32_with_value(v as int)
    }
}

impl From<i32> for Int32 {
    /// The cells of `value` in twos' complement, most significant first.
    fn from(value: i32) -> (r: Self)
        ensures
            r@ == twos_cells(value as int),
            twos_complement_value(r@) == value,
    {
        proof {
            lemma2_to64();
        }
        let pattern: u64 = if value < 0 {
            (value as i64 + 0x1_0000_0000i64) as u64
        } else {
            value as u64
        };
        let r = Self { bits: bits_from_u64::<32>(pattern) };
        proof {
            lemma_sign_split(r@);
            lemma_int32_with_value(r);
        }
        r
    }
}

impl vstd::std_specs::convert::FromSpecImpl<i32> for Int32 {
    open spec fn obeys_from_spec() -> bool {
        true
    }

    open spec fn from_spec(v: i32) -> Int32 {
        int32_with_value(v as int)
    }
}

} // verus!
