use crate::bits::{cells_of, lemma_bits_value_injective, lemma_cells_of_value};
use crate::float::{pattern_is_inf, pattern_is_nan, pattern_is_zero};
use crate::integer::{
    lemma_sign_split, ones_complement_reading, ones_complement_value, original_code_reading,
    sign_magnitude_value, twos_cells, twos_complement_reading, twos_complement_value,
    unsigned_value,
};
use crate::operation::{
    fits_signed, signed_negation, unsigned_difference, unsigned_negation, unsigned_sum,
};
use vstd::arithmetic::div_mod::lemma_small_mod;
use vstd::arithmetic::power2::{lemma2_to64, pow2};
use vstd::prelude::*;

verus! {

/// The all-clear 32-cell pattern.
pub open spec fn zero_cells() -> Seq<bool> {
    Seq::new(32, |i: int| false)
}

/// A 32-cell pattern is determined by its unsigned value.
proof fn lemma_unsigned_determines(x: Seq<bool>, y: Seq<bool>)
    requires
        x.len() == 32,
        y.len() == 32,
        unsigned_value(x) == unsigned_value(y),
    ensures
        x == y,
{
    lemma_bits_value_injective(x, y);
}

/// A 32-cell pattern is determined by its twos' complement value.
proof fn lemma_twos_determines(x: Seq<bool>, y: Seq<bool>)
    requires
        x.len() == 32,
        y.len() == 32,
        twos_complement_value(x) == twos_complement_value(y),
    ensures
        x == y,
{
    lemma_sign_split(x);
    lemma_sign_split(y);
    lemma_bits_value_injective(x, y);
}

/// The digits of an unsigned value in range read back as that value.
proof fn lemma_unsigned_cells(v: nat)
    requires
        v < pow2(32),
    ensures
        cells_of(v, 32).len() == 32,
        unsigned_value(cells_of(v, 32)) == v,
{
    lemma_cells_of_value(v, 32);
    lemma_small_mod(v, pow2(32));
}

/// Injecting a value and decoding it under twos' complement gives the value
/// back, for unsigned views (where the reading is the plain value) and for
/// signed views.
pub proof fn inject_then_decode_twos(u: nat, v: int)
    requires
        u <= u32::MAX,
        fits_signed(v),
    ensures
        twos_complement_reading(cells_of(u, 32), false) == u,
        twos_complement_reading(twos_cells(v), true) == v,
{
    lemma2_to64();
    lemma_unsigned_cells(u);
    let p = (if v < 0 {
        v + 0x1_0000_0000
    } else {
        v
    }) as nat;
    lemma_unsigned_cells(p);
    lemma_sign_split(twos_cells(v));
}

/// For an unsigned view the sign-magnitude, ones' and twos' readings are all
/// the plain value, so each gives back the injected value.
pub proof fn unsigned_decodings_agree(u: nat)
    requires
        u <= u32::MAX,
    ensures
        original_code_reading(cells_of(u, 32), false) == u,
        ones_complement_reading(cells_of(u, 32), false) == u,
        twos_complement_reading(cells_of(u, 32), false) == u,
{
    lemma2_to64();
    lemma_unsigned_cells(u);
}

/// For a signed view and a value `v >= 0`, all three readings give `v`.
pub proof fn nonnegative_decodings_agree(v: int)
    requires
        0 <= v <= i32::MAX,
    ensures
        sign_magnitude_value(twos_cells(v)) == v,
        ones_complement_value(twos_cells(v)) == v,
        twos_complement_value(twos_cells(v)) == v,
{
    lemma2_to64();
    lemma_unsigned_cells(v as nat);
    lemma_sign_split(twos_cells(v));
}

/// For a signed view and a value `v < 0`, the twos' complement reading gives `v`.
pub proof fn negative_twos_decoding(v: int)
    requires
        i32::MIN <= v < 0,
    ensures
        twos_complement_value(twos_cells(v)) == v,
{
    lemma2_to64();
    lemma_unsigned_cells((v + 0x1_0000_0000) as nat);
    lemma_sign_split(twos_cells(v));
}

/// Unsigned addition is commutative: `a + b` overflows exactly when `b + a`
/// does, and otherwise both give the same pattern.
pub proof fn unsigned_addition_commutative(a: Seq<bool>, b: Seq<bool>, x: Seq<bool>, y: Seq<bool>)
    requires
        a.len() == 32,
        b.len() == 32,
        x.len() == 32,
        y.len() == 32,
    ensures
        unsigned_sum(a, b) == unsigned_sum(b, a),
        unsigned_sum(a, b) == Some(unsigned_value(x)) && unsigned_sum(b, a) == Some(
            unsigned_value(y),
        ) ==> x == y,
{
    if unsigned_sum(a, b) == Some(unsigned_value(x)) && unsigned_sum(b, a) == Some(
        unsigned_value(y),
    ) {
        lemma_unsigned_determines(x, y);
    }
}

/// Unsigned addition is associative where the inner sums succeed: with
/// `ab = a + b` and `bc = b + c`, `ab + c` overflows exactly when `a + bc`
/// does, and otherwise both give the same pattern.
pub proof fn unsigned_addition_associative(
    a: Seq<bool>,
    b: Seq<bool>,
    c: Seq<bool>,
    ab: Seq<bool>,
    bc: Seq<bool>,
    x: Seq<bool>,
    y: Seq<bool>,
)
    requires
        a.len() == 32,
        b.len() == 32,
        c.len() == 32,
        x.len() == 32,
        y.len() == 32,
        unsigned_sum(a, b) == Some(unsigned_value(ab)),
        unsigned_sum(b, c) == Some(unsigned_value(bc)),
    ensures
        unsigned_sum(ab, c) == unsigned_sum(a, bc),
        unsigned_sum(ab, c) == Some(unsigned_value(x)) && unsigned_sum(a, bc) == Some(
            unsigned_value(y),
        ) ==> x == y,
{
    if unsigned_sum(ab, c) == Some(unsigned_value(x)) && unsigned_sum(a, bc) == Some(
        unsigned_value(y),
    ) {
        lemma_unsigned_determines(x, y);
    }
}

/// `a - a` succeeds under both views, and its result is the all-zero pattern.
pub proof fn subtract_self_is_zero(a: Seq<bool>, d: Seq<bool>)
    requires
        a.len() == 32,
        d.len() == 32,
    ensures
        unsigned_difference(a, a) == Some(0int),
        fits_signed(twos_complement_value(a) - twos_complement_value(a)),
        unsigned_value(d) == 0 ==> d == zero_cells(),
        twos_complement_value(d) == 0 ==> d == zero_cells(),
{
    lemma2_to64();
    lemma_unsigned_cells(0);
    assert(cells_of(0, 32) =~= zero_cells()) by {
        lemma_zero_cells(32);
    }
    if unsigned_value(d) == 0 {
        lemma_unsigned_determines(d, zero_cells());
    }
    if twos_complement_value(d) == 0 {
        lemma_sign_split(zero_cells());
        lemma_twos_determines(d, zero_cells());
    }
}

/// The digits of zero are all clear.
proof fn lemma_zero_cells(n: nat)
    ensures
        cells_of(0, n) == Seq::new(n, |i: int| false),
    decreases n,
{
    if n > 0 {
        lemma_zero_cells((n - 1) as nat);
        assert(cells_of(0, n) =~= Seq::new(n, |i: int| false));
    }
}

/// Negating twice gives the pattern back: `x` the negation of `a`, `y` the
/// negation of `x`, under the unsigned view and under the signed view (where
/// the minimum is its own negation).
pub proof fn negate_twice(a: Seq<bool>, x: Seq<bool>, y: Seq<bool>)
    requires
        a.len() == 32,
        x.len() == 32,
        y.len() == 32,
    ensures
        unsigned_value(x) == unsigned_negation(unsigned_value(a)) && unsigned_value(
            y,
        ) == unsigned_negation(unsigned_value(x)) ==> y == a,
        twos_complement_value(x) == signed_negation(twos_complement_value(a))
            && twos_complement_value(y) == signed_negation(twos_complement_value(x)) ==> y == a,
{
    lemma2_to64();
    lemma_sign_split(a);
    lemma_sign_split(x);
    lemma_sign_split(y);
    if unsigned_value(x) == unsigned_negation(unsigned_value(a)) && unsigned_value(y)
        == unsigned_negation(unsigned_value(x)) {
        if unsigned_value(a) == 0 {
            assert(unsigned_value(x) == 0);
        } else {
            assert(unsigned_value(x) == pow2(32) - unsigned_value(a));
        }
        lemma_unsigned_determines(y, a);
    }
    if twos_complement_value(x) == signed_negation(twos_complement_value(a))
        && twos_complement_value(y) == signed_negation(twos_complement_value(x)) {
        lemma_twos_determines(y, a);
    }
}

/// `is_nan`, `is_inf` and `is_zero` exclude one another on any pattern with a
/// nonempty exponent field.
pub proof fn float_predicates_exclusive(b: Seq<bool>, e: nat)
    requires
        1 <= e,
        1 + e <= b.len(),
    ensures
        !(pattern_is_zero(b, e) && pattern_is_nan(b, e)),
        !(pattern_is_zero(b, e) && pattern_is_inf(b, e)),
        !(pattern_is_nan(b, e) && pattern_is_inf(b, e)),
{
    assert(b.subrange(1, 1 + e as int)[0] == b[1]);
}

} // verus!
