use crate::bits::{
    all_cells, bits_from_u64, bits_value, cells_of, fields_string, grouped_by_fields, lemma_bits_value_bound,
    lemma_magnitude_whole, number_binary_array, place_value,
};
use vstd::arithmetic::power2::{lemma2_to64, lemma2_to64_rest, pow2};
use crate::FloatNumber;
use vstd::prelude::*;

verus! {

/// Exponent field width of binary32.
pub const FLOAT32_EXPONENT_SIZE: usize = 8;

/// Fraction field width of binary32.
pub const FLOAT32_FRACTION_SIZE: usize = 23;

/// Exponent bias of binary32.
pub const FLOAT32_BIAS: i32 = -127;

/// Total width of binary32: the sign cell and the two fields.
pub const FLOAT32_BIT_SIZE: usize = 1 + FLOAT32_EXPONENT_SIZE + FLOAT32_FRACTION_SIZE;

/// Exponent field width of binary64.
pub const FLOAT64_EXPONENT_SIZE: usize = 11;

/// Fraction field width of binary64.
pub const FLOAT64_FRACTION_SIZE: usize = 52;

/// Exponent bias of binary64.
pub const FLOAT64_BIAS: i32 = -1023;

/// Total width of binary64: the sign cell and the two fields.
pub const FLOAT64_BIT_SIZE: usize = 1 + FLOAT64_EXPONENT_SIZE + FLOAT64_FRACTION_SIZE;

/// The exponent field: cells `1..=e`.
pub open spec fn exponent_cells(b: Seq<bool>, e: nat) -> Seq<bool> {
    b.subrange(1, 1 + e as int)
}

/// The fraction field: the cells after the exponent field.
pub open spec fn fraction_cells(b: Seq<bool>, e: nat) -> Seq<bool> {
    b.subrange(1 + e as int, b.len() as int)
}

/// Every cell of `s` holds `v`.
pub open spec fn all_equal(s: Seq<bool>, v: bool) -> bool {
    forall|i: int| 0 <= i < s.len() ==> s[i] == v
}

/// A zero: exponent and fraction fields all clear.
pub open spec fn pattern_is_zero(b: Seq<bool>, e: nat) -> bool {
    all_equal(exponent_cells(b, e), false) && all_equal(fraction_cells(b, e), false)
}

/// A NaN: exponent field all set, some fraction cell set.
pub open spec fn pattern_is_nan(b: Seq<bool>, e: nat) -> bool {
    all_equal(exponent_cells(b, e), true) && !all_equal(fraction_cells(b, e), false)
}

/// An infinity: exponent field all set, fraction field all clear.
pub open spec fn pattern_is_inf(b: Seq<bool>, e: nat) -> bool {
    all_equal(exponent_cells(b, e), true) && all_equal(fraction_cells(b, e), false)
}

/// A binary32 value held as 32 cells: sign, 8 exponent cells, 23 fraction cells.
#[derive(Copy, Clone, Debug)]
pub struct Float32 {
    pub bits: [bool; 32],
}

/// A binary64 value held as 64 cells: sign, 11 exponent cells, 52 fraction cells.
#[derive(Copy, Clone, Debug)]
pub struct Float64 {
    pub bits: [bool; 64],
}

impl View for Float32 {
    type V = Seq<bool>;

    open spec fn view(&self) -> Seq<bool> {
        self.bits@
    }
}

impl View for Float64 {
    type V = Seq<bool>;

    open spec fn view(&self) -> Seq<bool> {
        self.bits@
    }
}

/// The exponent field of a pattern, as a slice.
fn exponent_slice(bits: &[bool], exponent_size: usize) -> (r: &[bool])
    requires
        1 + exponent_size <= bits@.len(),
    ensures
        r@ == exponent_cells(bits@, exponent_size as nat),
{
    let size = bits.len();
    &bits[1..1 + exponent_size]
}

/// The fraction field of a pattern, as a slice.
fn fraction_slice(bits: &[bool], exponent_size: usize) -> (r: &[bool])
    requires
        1 + exponent_size <= bits@.len(),
    ensures
        r@ == fraction_cells(bits@, exponent_size as nat),
{
    let size = bits.len();
    &bits[1 + exponent_size..size]
}

/// The exponent field read in positional notation, plus the bias.
fn exponent_value(bits: &[bool], exponent_size: usize, bias: i32) -> (r: i32)
    requires
        1 <= exponent_size <= 11,
        1 + exponent_size <= bits@.len(),
        -1023 <= bias <= 0,
    ensures
        r == bits_value(exponent_cells(bits@, exponent_size as nat)) + bias,
{
    let field = exponent_slice(bits, exponent_size);
    let value = number_binary_array(field, 0);
    proof {
        lemma_magnitude_whole(field@);
        lemma_bits_value_bound(field@);
        lemma2_to64();
        if exponent_size < 11 {
            vstd::arithmetic::power2::lemma_pow2_strictly_increases(exponent_size as nat, 11);
        }
    }
    value as i32 + bias
}

/// The significand `1.f` scaled by `2^F`: the implicit leading one and the
/// fraction field.
fn scaled_significand(bits: &[bool], exponent_size: usize) -> (r: u64)
    requires
        1 + exponent_size <= bits@.len(),
        bits@.len() - 1 - exponent_size <= 52,
    ensures
        r == pow2((bits@.len() - 1 - exponent_size) as nat) + bits_value(
            fraction_cells(bits@, exponent_size as nat),
        ),
{
    let field = fraction_slice(bits, exponent_size);
    let value = number_binary_array(field, 0);
    let one = place_value(field.len());
    proof {
        lemma_magnitude_whole(field@);
        lemma_bits_value_bound(field@);
        lemma2_to64();
        if field@.len() < 52 {
            vstd::arithmetic::power2::lemma_pow2_strictly_increases(field@.len(), 52);
        }
        assert(value < pow2(52));
        assert(one <= pow2(52));
        lemma2_to64_rest();
    }
    one + value
}

/// Whether the pattern is a zero.
fn zero_pattern(bits: &[bool], exponent_size: usize) -> (r: bool)
    requires
        1 + exponent_size <= bits@.len(),
    ensures
        r == pattern_is_zero(bits@, exponent_size as nat),
{
    all_cells(exponent_slice(bits, exponent_size), false) && all_cells(
        fraction_slice(bits, exponent_size),
        false,
    )
}

/// Whether the pattern is a NaN.
fn nan_pattern(bits: &[bool], exponent_size: usize) -> (r: bool)
    requires
        1 + exponent_size <= bits@.len(),
    ensures
        r == pattern_is_nan(bits@, exponent_size as nat),
{
    all_cells(exponent_slice(bits, exponent_size), true) && !all_cells(
        fraction_slice(bits, exponent_size),
        false,
    )
}

/// Whether the pattern is an infinity.
fn inf_pattern(bits: &[bool], exponent_size: usize) -> (r: bool)
    requires
        1 + exponent_size <= bits@.len(),
    ensures
        r == pattern_is_inf(bits@, exponent_size as nat),
{
    all_cells(exponent_slice(bits, exponent_size), true) && all_cells(
        fraction_slice(bits, exponent_size),
        false,
    )
}

impl Float32 {
    /// The all-zero pattern.
    pub fn new() -> (r: Self)
        ensures
            r@ == Seq::new(32, |i: int| false),
    {
        let r = Self { bits: [false; 32] };
        assert(r@ =~= Seq::new(32, |i: int| false));
        r
    }

    /// The cells of a raw binary32 pattern, most significant first.
    pub fn from_bits(raw: u32) -> (r: Self)
        ensures
            r@ == cells_of(raw as nat, 32),
    {
        proof {
            lemma2_to64();
        }
        Self { bits: bits_from_u64::<32>(raw as u64) }
    }

}

impl FloatNumber for Float32 {
    open spec fn cells(&self) -> Seq<bool> {
        self@
    }

    open spec fn exponent_size() -> nat {
        FLOAT32_EXPONENT_SIZE as nat
    }

    open spec fn fraction_size() -> nat {
        FLOAT32_FRACTION_SIZE as nat
    }

    open spec fn bias() -> int {
        FLOAT32_BIAS as int
    }

    /// The cells, most significant first.
    fn bits(&self) -> (r: &[bool])
        ensures
            r@ == self@,
    {
        self.bits.as_slice()
    }

    /// The sign cell.
    fn sign_bit(&self) -> (r: bool)
        ensures
            r == self@[0],
    {
        self.bits[0]
    }

    /// The exponent cells.
    fn exponent_bits(&self) -> (r: &[bool])
        ensures
            r@ == exponent_cells(self@, 8),
    {
        exponent_slice(self.bits.as_slice(), FLOAT32_EXPONENT_SIZE)
    }

    /// The fraction cells.
    fn fraction_bits(&self) -> (r: &[bool])
        ensures
            r@ == fraction_cells(self@, 8),
    {
        fraction_slice(self.bits.as_slice(), FLOAT32_EXPONENT_SIZE)
    }

    /// The decoded exponent of an all-clear exponent field: the bias.
    fn min_exponent_value() -> (r: i32)
        ensures
            r == FLOAT32_BIAS,
    {
        let min_exponent: i32 = 0;
        min_exponent + FLOAT32_BIAS
    }

    /// The exponent field in positional notation, plus the bias.
    fn decode_exponent(&self) -> (r: i32)
        ensures
            r == bits_value(exponent_cells(self@, 8)) + FLOAT32_BIAS,
    {
        exponent_value(self.bits.as_slice(), FLOAT32_EXPONENT_SIZE, FLOAT32_BIAS)
    }

    /// The significand `1 + sum of f[i] * 2^-i` for `i` in `1..=23`, times `2^23`.
    fn scaled_fraction(&self) -> (r: u64)
        ensures
            r == pow2(23) + bits_value(fraction_cells(self@, 8)),
    {
        scaled_significand(self.bits.as_slice(), FLOAT32_EXPONENT_SIZE)
    }

    /// The cells as `0` and `1`, with a space after the sign and after the
    /// exponent field.
    fn bit_string(&self) -> (r: String)
        ensures
            r@ == grouped_by_fields(self@, 8, 32),
    {
        fields_string(self.bits.as_slice(), FLOAT32_EXPONENT_SIZE)
    }

    /// Exponent and fraction fields all clear.
    fn is_zero(&self) -> (r: bool)
        ensures
            r == pattern_is_zero(self@, 8),
    {
        zero_pattern(self.bits.as_slice(), FLOAT32_EXPONENT_SIZE)
    }

    /// Exponent field all set, some fraction cell set.
    fn is_nan(&self) -> (r: bool)
        ensures
            r == pattern_is_nan(self@, 8),
    {
        nan_pattern(self.bits.as_slice(), FLOAT32_EXPONENT_SIZE)
    }

    /// Exponent field all set, fraction field all clear.
    fn is_inf(&self) -> (r: bool)
        ensures
            r == pattern_is_inf(self@, 8),
    {
        inf_pattern(self.bits.as_slice(), FLOAT32_EXPONENT_SIZE)
    }
}

impl Float64 {
    /// The all-zero pattern.
    pub fn new() -> (r: Self)
        ensures
            r@ == Seq::new(64, |i: int| false),
    {
        let r = Self { bits: [false; 64] };
        assert(r@ =~= Seq::new(64, |i: int| false));
        r
    }

    /// The cells of a raw binary64 pattern, most significant first.
    pub fn from_bits(raw: u64) -> (r: Self)
        ensures
            r@ == cells_of(raw as nat, 64),
    {
        proof {
            lemma2_to64();
        }
        Self { bits: bits_from_u64::<64>(raw) }
    }

}

impl FloatNumber for Float64 {
    open spec fn cells(&self) -> Seq<bool> {
        self@
    }

    open spec fn exponent_size() -> nat {
        FLOAT64_EXPONENT_SIZE as nat
    }

    open spec fn fraction_size() -> nat {
        FLOAT64_FRACTION_SIZE as nat
    }

    open spec fn bias() -> int {
        FLOAT64_BIAS as int
    }

    /// The cells, most significant first.
    fn bits(&self) -> (r: &[bool])
        ensures
            r@ == self@,
    {
        self.bits.as_slice()
    }

    /// The sign cell.
    fn sign_bit(&self) -> (r: bool)
        ensures
            r == self@[0],
    {
        self.bits[0]
    }

    /// The exponent cells.
    fn exponent_bits(&self) -> (r: &[bool])
        ensures
            r@ == exponent_cells(self@, 11),
    {
        exponent_slice(self.bits.as_slice(), FLOAT64_EXPONENT_SIZE)
    }

    /// The fraction cells.
    fn fraction_bits(&self) -> (r: &[bool])
        ensures
            r@ == fraction_cells(self@, 11),
    {
        fraction_slice(self.bits.as_slice(), FLOAT64_EXPONENT_SIZE)
    }

    /// The decoded exponent of an all-clear exponent field: the bias.
    fn min_exponent_value() -> (r: i32)
        ensures
            r == FLOAT64_BIAS,
    {
        let min_exponent: i32 = 0;
        min_exponent + FLOAT64_BIAS
    }

    /// The exponent field in positional notation, plus the bias.
    fn decode_exponent(&self) -> (r: i32)
        ensures
            r == bits_value(exponent_cells(self@, 11)) + FLOAT64_BIAS,
    {
        exponent_value(self.bits.as_slice(), FLOAT64_EXPONENT_SIZE, FLOAT64_BIAS)
    }

    /// The significand `1 + sum of f[i] * 2^-i` for `i` in `1..=52`, times `2^52`.
    fn scaled_fraction(&self) -> (r: u64)
        ensures
            r == pow2(52) + bits_value(fraction_cells(self@, 11)),
    {
        scaled_significand(self.bits.as_slice(), FLOAT64_EXPONENT_SIZE)
    }

    /// The cells as `0` and `1`, with a space after the sign and after the
    /// exponent field.
    fn bit_string(&self) -> (r: String)
        ensures
            r@ == grouped_by_fields(self@, 11, 64),
    {
        fields_string(self.bits.as_slice(), FLOAT64_EXPONENT_SIZE)
    }

    /// Exponent and fraction fields all clear.
    fn is_zero(&self) -> (r: bool)
        ensures
            r == pattern_is_zero(self@, 11),
    {
        zero_pattern(self.bits.as_slice(), FLOAT64_EXPONENT_SIZE)
    }

    /// Exponent field all set, some fraction cell set.
    fn is_nan(&self) -> (r: bool)
        ensures
            r == pattern_is_nan(self@, 11),
    {
        nan_pattern(self.bits.as_slice(), FLOAT64_EXPONENT_SIZE)
    }

    /// Exponent field all set, fraction field all clear.
    fn is_inf(&self) -> (r: bool)
        ensures
            r == pattern_is_inf(self@, 11),
    {
        inf_pattern(self.bits.as_slice(), FLOAT64_EXPONENT_SIZE)
    }
}

} // verus!
