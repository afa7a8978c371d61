//! Fixed-width integers and IEEE 754 binary floats held as explicit cells,
//! with the three signed-integer readings and ripple-carry arithmetic.
pub mod bits;
pub mod error;
pub mod extension;
pub mod float;
pub mod integer;
pub mod laws;
pub mod operation;

pub use error::OverflowException;
pub use extension::increment_one;
pub use float::{Float32, Float64};
pub use integer::{Int32, UInt32};

use crate::bits::{bits_string, bits_value, grouped_by_bytes, grouped_by_fields};
use crate::float::{
    exponent_cells, fraction_cells, pattern_is_inf, pattern_is_nan, pattern_is_zero,
};
use crate::integer::{original_code_reading, ones_complement_reading, twos_complement_reading};
use vstd::arithmetic::power2::pow2;
use vstd::prelude::*;

verus! {

/// A fixed-width integer held as cells, most significant first, with its three
/// readings. An unsigned view sums from cell `0`; a signed view keeps cell `0`
/// as the sign and sums from cell `1`.
pub trait IntegerNumber: Sized {
    /// The host integer type that the readings return.
    type Output;

    /// The cells, most significant first.
    spec fn cells(&self) -> Seq<bool>;

    /// Whether cell `0` is a sign cell.
    spec fn signed() -> bool;

    /// The integer that a host value stands for.
    spec fn output_value(o: Self::Output) -> int;

    /// The cells, most significant first.
    fn bits(&self) -> (r: &[bool])
        ensures
            r@ == self.cells(),
    ;

    /// The sign cell of a signed view; never set for an unsigned view.
    fn is_negative(&self) -> (r: bool)
        ensures
            r == (Self::signed() && self.cells()[0]),
    ;

    /// Sign-magnitude reading.
    fn decode_original_code(&self) -> (r: Self::Output)
        ensures
            Self::output_value(r) == original_code_reading(self.cells(), Self::signed()),
    ;

    /// Ones' complement reading.
    fn decode_ones_complement(&self) -> (r: Self::Output)
        ensures
            Self::output_value(r) == ones_complement_reading(self.cells(), Self::signed()),
    ;

    /// Twos' complement reading.
    fn decode_twos_complement(&self) -> (r: Self::Output)
        ensures
            Self::output_value(r) == twos_complement_reading(self.cells(), Self::signed()),
    ;

    /// The cells as `0` and `1`, with a comma before every eighth cell after the
    /// first group.
    fn bits_string(&self) -> (r: String)
        ensures
            r@ == grouped_by_bytes(self.cells(), self.cells().len()),
    {
        bits_string(self.bits())
    }
}

/// An IEEE 754 binary value held as cells: the sign cell, the exponent field,
/// then the fraction field.
pub trait FloatNumber: Sized {
    /// The cells, most significant first.
    spec fn cells(&self) -> Seq<bool>;

    /// Width of the exponent field.
    spec fn exponent_size() -> nat;

    /// Width of the fraction field.
    spec fn fraction_size() -> nat;

    /// The exponent bias.
    spec fn bias() -> int;

    /// The cells, most significant first.
    fn bits(&self) -> (r: &[bool])
        ensures
            r@ == self.cells(),
    ;

    /// The sign cell.
    fn sign_bit(&self) -> (r: bool)
        ensures
            r == self.cells()[0],
    ;

    /// The exponent field.
    fn exponent_bits(&self) -> (r: &[bool])
        ensures
            r@ == exponent_cells(self.cells(), Self::exponent_size()),
    ;

    /// The fraction field.
    fn fraction_bits(&self) -> (r: &[bool])
        ensures
            r@ == fraction_cells(self.cells(), Self::exponent_size()),
    ;

    /// The decoded exponent of an all-clear exponent field: the bias.
    fn min_exponent_value() -> (r: i32)
        ensures
            r == Self::bias(),
    ;

    /// The exponent field in positional notation, plus the bias.
    fn decode_exponent(&self) -> (r: i32)
        ensures
            r == bits_value(exponent_cells(self.cells(), Self::exponent_size())) + Self::bias(),
    ;

    /// The significand `1 + sum of f[i] * 2^-i` for `i` in `1..=F`, times `2^F`.
    fn scaled_fraction(&self) -> (r: u64)
        ensures
            r == pow2(Self::fraction_size()) + bits_value(
                fraction_cells(self.cells(), Self::exponent_size()),
            ),
    ;

    /// The cells as `0` and `1`, with a space after the sign cell and after the
    /// exponent field.
    fn bit_string(&self) -> (r: String)
        ensures
            r@ == grouped_by_fields(self.cells(), Self::exponent_size(), self.cells().len()),
    ;

    /// Exponent and fraction fields all clear.
    fn is_zero(&self) -> (r: bool)
        ensures
            r == pattern_is_zero(self.cells(), Self::exponent_size()),
    ;

    /// Exponent field all set, some fraction cell set.
    fn is_nan(&self) -> (r: bool)
        ensures
            r == pattern_is_nan(self.cells(), Self::exponent_size()),
    ;

    /// Exponent field all set, fraction field all clear.
    fn is_inf(&self) -> (r: bool)
        ensures
            r == pattern_is_inf(self.cells(), Self::exponent_size()),
    ;
}

} // verus!
