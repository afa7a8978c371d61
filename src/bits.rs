use vstd::arithmetic::div_mod::{lemma_div_denominator, lemma_mod_breakdown, lemma_small_mod};
use vstd::arithmetic::power2::{
    lemma2_to64, lemma_pow2_pos, lemma_pow2_strictly_increases, lemma_pow2_unfold, pow2,
};
use vstd::prelude::*;

verus! {

/// Value of one binary digit.
pub open spec fn bit_value(b: bool) -> nat {
    if b {
        1
    } else {
        0
    }
}

/// Positional value of a digit sequence, most significant digit first.
pub open spec fn bits_value(b: Seq<bool>) -> nat
    decreases b.len(),
{
    if b.len() == 0 {
        0
    } else {
        (if b[0] {
            pow2((b.len() - 1) as nat)
        } else {
            0
        }) + bits_value(b.drop_first())
    }
}

/// The sum over `i` in `[k, len)` of `b[i] * 2^(len - 1 - i)`: the value of the
/// cells from `k` to the end, place values counted from the end.
pub open spec fn magnitude(b: Seq<bool>, k: int) -> nat {
    bits_value(b.subrange(k, b.len() as int))
}

/// The `n` low binary digits of `v`, most significant first.
pub open spec fn cells_of(v: nat, n: nat) -> Seq<bool>
    decreases n,
{
    if n == 0 {
        Seq::empty()
    } else {
        cells_of(v / 2, (n - 1) as nat).push(v % 2 == 1)
    }
}

/// Every cell flipped.
pub open spec fn complement(b: Seq<bool>) -> Seq<bool> {
    Seq::new(b.len(), |i: int| !b[i])
}

/// The character that renders one cell.
pub open spec fn bit_char(b: bool) -> char {
    if b {
        '1'
    } else {
        '0'
    }
}

/// Rendering of the first `n` cells with a comma before every eighth cell
/// after the first group.
pub open spec fn grouped_by_bytes(b: Seq<bool>, n: nat) -> Seq<char>
    decreases n,
{
    if n == 0 {
        Seq::empty()
    } else {
        let i = (n - 1) as nat;
        grouped_by_bytes(b, i) + (if i % 8 == 0 && i != 0 {
            seq![',']
        } else {
            Seq::empty()
        }) + seq![bit_char(b[i as int])]
    }
}

/// Rendering of the first `n` cells with a space after cell `0` and after cell `e`.
pub open spec fn grouped_by_fields(b: Seq<bool>, e: nat, n: nat) -> Seq<char>
    decreases n,
{
    if n == 0 {
        Seq::empty()
    } else {
        let i = (n - 1) as nat;
        grouped_by_fields(b, e, i) + seq![bit_char(b[i as int])] + (if i == 0 || i == e {
            seq![' ']
        } else {
            Seq::empty()
        })
    }
}

pub proof fn lemma_bits_value_bound(b: Seq<bool>)
    ensures
        bits_value(b) < pow2(b.len()),
    decreases b.len(),
{
    if b.len() == 0 {
        lemma2_to64();
    } else {
        lemma_bits_value_bound(b.drop_first());
        lemma_pow2_unfold(b.len());
    }
}

pub proof fn lemma_magnitude_bound(b: Seq<bool>, k: int)
    requires
        0 <= k <= b.len(),
    ensures
        magnitude(b, k) < pow2((b.len() - k) as nat),
{
    lemma_bits_value_bound(b.subrange(k, b.len() as int));
}

/// One step of the summation: the cell at `k`, then the rest.
pub proof fn lemma_magnitude_step(b: Seq<bool>, k: int)
    requires
        0 <= k < b.len(),
    ensures
        magnitude(b, k) == (if b[k] {
            pow2((b.len() - 1 - k) as nat)
        } else {
            0
        }) + magnitude(b, k + 1),
{
    assert(b.subrange(k, b.len() as int).drop_first() =~= b.subrange(k + 1, b.len() as int));
}

pub proof fn lemma_magnitude_end(b: Seq<bool>)
    ensures
        magnitude(b, b.len() as int) == 0,
{
    assert(b.subrange(b.len() as int, b.len() as int).len() == 0);
}

pub proof fn lemma_complement_value(b: Seq<bool>)
    ensures
        bits_value(complement(b)) + bits_value(b) + 1 == pow2(b.len()),
    decreases b.len(),
{
    if b.len() == 0 {
        lemma2_to64();
    } else {
        assert(complement(b).drop_first() =~= complement(b.drop_first()));
        lemma_complement_value(b.drop_first());
        lemma_pow2_unfold(b.len());
    }
}

pub proof fn lemma_complement_magnitude(b: Seq<bool>, k: int)
    requires
        0 <= k <= b.len(),
    ensures
        magnitude(complement(b), k) + magnitude(b, k) + 1 == pow2((b.len() - k) as nat),
{
    assert(complement(b).subrange(k, b.len() as int) =~= complement(b.subrange(k, b.len() as int)));
    lemma_complement_value(b.subrange(k, b.len() as int));
}

/// The value of the whole sequence is its magnitude from cell `0`.
pub proof fn lemma_magnitude_whole(b: Seq<bool>)
    ensures
        magnitude(b, 0) == bits_value(b),
{
    assert(b.subrange(0, b.len() as int) =~= b);
}

/// Appending a cell doubles the value and adds the cell.
pub proof fn lemma_bits_value_push(b: Seq<bool>, x: bool)
    ensures
        bits_value(b.push(x)) == 2 * bits_value(b) + bit_value(x),
    decreases b.len(),
{
    if b.len() == 0 {
        assert(b.push(x).drop_first() =~= b);
        lemma2_to64();
    } else {
        assert(b.push(x).drop_first() =~= b.drop_first().push(x));
        lemma_bits_value_push(b.drop_first(), x);
        lemma_pow2_unfold(b.len());
    }
}

/// The digits of `v` have the value of `v` modulo `2^n`.
pub proof fn lemma_cells_of_value(v: nat, n: nat)
    ensures
        cells_of(v, n).len() == n,
        bits_value(cells_of(v, n)) == v % pow2(n),
    decreases n,
{
    if n == 0 {
        lemma2_to64();
    } else {
        lemma_cells_of_value(v / 2, (n - 1) as nat);
        lemma_bits_value_push(cells_of(v / 2, (n - 1) as nat), v % 2 == 1);
        lemma_pow2_pos((n - 1) as nat);
        lemma_pow2_unfold(n);
        lemma_mod_breakdown(v as int, 2, pow2((n - 1) as nat) as int);
    }
}

/// A sequence of `n` cells is the digits of its value.
pub proof fn lemma_cells_of_bits_value(b: Seq<bool>)
    ensures
        b == cells_of(bits_value(b), b.len()),
{
    lemma_bits_value_bound(b);
    lemma_cells_of_value(bits_value(b), b.len());
    lemma_small_mod(bits_value(b), pow2(b.len()));
    lemma_bits_value_injective(b, cells_of(bits_value(b), b.len()));
}

/// Two sequences of one length with one value are the same sequence.
pub proof fn lemma_bits_value_injective(a: Seq<bool>, b: Seq<bool>)
    requires
        a.len() == b.len(),
        bits_value(a) == bits_value(b),
    ensures
        a == b,
    decreases a.len(),
{
    if a.len() > 0 {
        lemma_bits_value_bound(a.drop_first());
        lemma_bits_value_bound(b.drop_first());
        lemma_bits_value_injective(a.drop_first(), b.drop_first());
        assert(a =~= seq![a[0]] + a.drop_first());
        assert(b =~= seq![b[0]] + b.drop_first());
    } else {
        assert(a =~= b);
    }
}

/// `2^e` fits in `u64` below the width of `u64`.
pub proof fn lemma_pow2_fits(e: nat)
    requires
        e < 64,
    ensures
        pow2(e) <= u64::MAX,
{
    lemma2_to64();
    lemma_pow2_strictly_increases(e, 64);
}

/// Writing one more low digit: the value of the last `count + 1` cells is
/// `value % 2^(count + 1)` once the cell at `len - 1 - count` holds digit `count`.
proof fn lemma_fill_step(before: Seq<bool>, after: Seq<bool>, value: nat, count: nat, cell: bool)
    requires
        count < before.len(),
        after == before.update(before.len() - 1 - count, cell),
        magnitude(before, before.len() - count) == value % pow2(count),
        cell <==> (value / pow2(count)) % 2 == 1,
    ensures
        magnitude(after, after.len() - (count + 1)) == value % pow2(count + 1),
        (value / pow2(count)) / 2 == value / pow2(count + 1),
{
    let n = before.len();
    let k = n - 1 - count;
    lemma_magnitude_step(after, k);
    assert(after.subrange(k + 1, n as int) =~= before.subrange(k + 1, n as int));
    lemma_pow2_pos(count);
    lemma_pow2_unfold(count + 1);
    lemma_mod_breakdown(value as int, pow2(count) as int, 2);
    lemma_div_denominator(value as int, pow2(count) as int, 2);
}

/// The cells of the low `N` binary digits of `value`, most significant first.
pub fn bits_from_u64<const N: usize>(value: u64) -> (r: [bool; N])
    requires
        N <= 64,
        value < pow2(N as nat),
    ensures
        bits_value(r@) == value,
        r@ == cells_of(value as nat, N as nat),
{
    let mut cells: [bool; N] = [false; N];
    let mut temp: u64 = value;
    let mut count: usize = 0;
    proof {
        lemma_magnitude_end(cells@);
        assert(value as nat % pow2(0) == 0) by {
            lemma2_to64();
        }
        assert(value as nat / pow2(0) == value) by {
            lemma2_to64();
        }
    }
    while count < N
        invariant
            count <= N <= 64,
            cells@.len() == N,
            temp as nat == value as nat / pow2(count as nat),
            magnitude(cells@, N - count) == value as nat % pow2(count as nat),
        decreases N - count,
    {
        let cell = temp & 1 != 0;
        assert(cell <==> temp % 2 == 1) by (bit_vector)
            requires
                cell == (temp & 1 != 0),
        ;
        assert(temp >> 1 == temp / 2) by (bit_vector);
        let ghost before = cells@;
        cells[N - 1 - count] = cell;
        proof {
            lemma_fill_step(before, cells@, value as nat, count as nat, cell);
        }
        temp = temp >> 1;
        count = count + 1;
    }
    proof {
        lemma_small_mod(value as nat, pow2(N as nat));
        assert(cells@.subrange(0, N as int) =~= cells@);
        lemma_cells_of_bits_value(cells@);
    }
    cells
}

/// Whether two cell sequences are the same.
pub fn cells_equal(a: &[bool], b: &[bool]) -> (r: bool)
    ensures
        r == (a@ == b@),
{
    if a.len() != b.len() {
        return false;
    }
    let mut index: usize = 0;
    while index < a.len()
        invariant
            a@.len() == b@.len(),
            index <= a@.len(),
            forall|i: int| 0 <= i < index ==> a@[i] == b@[i],
        decreases a@.len() - index,
    {
        if a[index] != b[index] {
            return false;
        }
        index = index + 1;
    }
    assert(a@ =~= b@);
    true
}

/// Every cell flipped, as a new array.
pub fn complement_cells<const N: usize>(cells: &[bool; N]) -> (r: [bool; N])
    ensures
        r@ == complement(cells@),
{
    let mut flipped: [bool; N] = [false; N];
    let mut index: usize = 0;
    while index < N
        invariant
            index <= N,
            flipped@.len() == N,
            cells@.len() == N,
            forall|i: int| 0 <= i < index ==> flipped@[i] == !cells@[i],
        decreases N - index,
    {
        flipped[index] = !cells[index];
        index = index + 1;
    }
    assert(flipped@ =~= complement(cells@));
    flipped
}

/// Ripple-carry addition of cells `start..N` of `a` and `b`, from the last
/// cell towards `start`, with the given carry into the last cell. Returns the
/// sum cells (those before `start` clear) and the carry out of cell `start`.
pub fn ripple_add<const N: usize>(a: &[bool; N], b: &[bool; N], start: usize, carry_in: bool) -> (r:
    ([bool; N], bool))
    requires
        start <= N,
    ensures
        magnitude(r.0@, start as int) + (if r.1 {
            pow2((N - start) as nat)
        } else {
            0
        }) == magnitude(a@, start as int) + magnitude(b@, start as int) + bit_value(carry_in),
        forall|i: int| 0 <= i < start ==> !r.0@[i],
{
    let mut sum: [bool; N] = [false; N];
    let mut carry = carry_in;
    let mut index: usize = N;
    proof {
        lemma_magnitude_end(sum@);
        lemma_magnitude_end(a@);
        lemma_magnitude_end(b@);
        lemma2_to64();
    }
    while index > start
        invariant
            start <= index <= N,
            sum@.len() == N,
            a@.len() == N,
            b@.len() == N,
            forall|i: int| 0 <= i < index ==> !sum@[i],
            magnitude(sum@, index as int) + (if carry {
                pow2((N - index) as nat)
            } else {
                0
            }) == magnitude(a@, index as int) + magnitude(b@, index as int) + bit_value(carry_in),
        decreases index - start,
    {
        let i = index - 1;
        let left = a[i];
        let right = b[i];
        let ghost before = sum@;
        sum[i] = left ^ right ^ carry;
        let next = (left && right) || (left && carry) || (right && carry);
        proof {
            lemma_magnitude_step(sum@, i as int);
            lemma_magnitude_step(a@, i as int);
            lemma_magnitude_step(b@, i as int);
            assert(sum@.subrange(index as int, N as int) =~= before.subrange(index as int, N as int));
            lemma_pow2_unfold((N - i) as nat);
        }
        carry = next;
        index = i;
    }
    (sum, carry)
}

/// Whether every cell holds `value`.
pub fn all_cells(bits: &[bool], value: bool) -> (r: bool)
    ensures
        r == (forall|i: int| 0 <= i < bits@.len() ==> bits@[i] == value),
{
    let mut index: usize = 0;
    while index < bits.len()
        invariant
            index <= bits@.len(),
            forall|i: int| 0 <= i < index ==> bits@[i] == value,
        decreases bits@.len() - index,
    {
        if bits[index] != value {
            return false;
        }
        index = index + 1;
    }
    true
}

/// Relies on num_traits::checked_pow: `2^exp`, or `None` where that exceeds `u64`.
#[verifier::external_body]
fn checked_pow_two(exp: usize) -> (r: Option<u64>)
    ensures
        match r {
            Some(v) => v as nat == pow2(exp as nat),
            None => pow2(exp as nat) > u64::MAX,
        },
{
    num_traits::checked_pow(2u64, exp)
}

/// Place value `2^e` of a cell.
pub fn place_value(e: usize) -> (r: u64)
    requires
        e < 64,
    ensures
        r as nat == pow2(e as nat),
{
    proof {
        lemma_pow2_fits(e as nat);
    }
    match checked_pow_two(e) {
        Some(v) => v,
        None => 0,
    }
}

/// N(bits, start): the positional value of the cells from `start` to the end.
pub fn number_binary_array(bits: &[bool], start: usize) -> (r: u64)
    requires
        start <= bits@.len() <= 64,
    ensures
        r as nat == magnitude(bits@, start as int),
{
    let size = bits.len();
    let mut result: u64 = 0;
    let mut index: usize = start;
    proof {
        lemma_magnitude_bound(bits@, start as int);
        lemma2_to64();
        if size - start < 64 {
            lemma_pow2_strictly_increases((size - start) as nat, 64);
        }
    }
    while index < size
        invariant
            size == bits@.len() <= 64,
            start <= index <= size,
            result + magnitude(bits@, index as int) == magnitude(bits@, start as int),
            magnitude(bits@, start as int) <= u64::MAX,
        decreases size - index,
    {
        proof {
            lemma_magnitude_step(bits@, index as int);
        }
        if bits[index] {
            let weight = place_value(size - 1 - index);
            result = result + weight;
        }
        index = index + 1;
    }
    proof {
        lemma_magnitude_end(bits@);
    }
    result
}

/// Renders the cells as `0` and `1`, with a comma before every eighth cell after
/// the first group.
pub fn bits_string(bits: &[bool]) -> (r: String)
    ensures
        r@ == grouped_by_bytes(bits@, bits@.len()),
{
    let mut grouped = String::new();
    let mut index: usize = 0;
    while index < bits.len()
        invariant
            index <= bits@.len(),
            grouped@ == grouped_by_bytes(bits@, index as nat),
        decreases bits@.len() - index,
    {
        proof {
            reveal_strlit(",");
            reveal_strlit("1");
            reveal_strlit("0");
        }
        if index % 8 == 0 && index != 0 {
            grouped.append(",");
        }
        if bits[index] {
            grouped.append("1");
        } else {
            grouped.append("0");
        }
        index = index + 1;
    }
    grouped
}

/// Renders the cells as `0` and `1`, with a space after cell `0` and after
/// cell `exponent_size`.
pub fn fields_string(bits: &[bool], exponent_size: usize) -> (r: String)
    ensures
        r@ == grouped_by_fields(bits@, exponent_size as nat, bits@.len()),
{
    let mut grouped = String::new();
    let mut index: usize = 0;
    while index < bits.len()
        invariant
            index <= bits@.len(),
            grouped@ == grouped_by_fields(bits@, exponent_size as nat, index as nat),
        decreases bits@.len() - index,
    {
        proof {
            reveal_strlit(" ");
            reveal_strlit("1");
            reveal_strlit("0");
        }
        if bits[index] {
            grouped.append("1");
        } else {
            grouped.append("0");
        }
        if index == 0 || index == exponent_size {
            grouped.append(" ");
        }
        index = index + 1;
    }
    grouped
}

} // verus!
