use vstd::assert_seqs_equal;
use vstd::prelude::*;

verus! {

/// Number of bytes in one decimal slot: a 128-bit value.
pub const DECIMAL_BYTE_WIDTH: usize = 16;

/// `10^e` as a mathematical integer.
pub open spec fn pow10(e: nat) -> int
    decreases e,
{
    if e == 0 {
        1
    } else {
        10 * pow10((e - 1) as nat)
    }
}

pub proof fn lemma_pow10_positive(e: nat)
    ensures
        pow10(e) >= 1,
    decreases e,
{
    if e > 0 {
        lemma_pow10_positive((e - 1) as nat);
    }
}

pub proof fn lemma_pow10_increases(e1: nat, e2: nat)
    requires
        e1 <= e2,
    ensures
        pow10(e1) <= pow10(e2),
    decreases e2,
{
    if e1 < e2 {
        lemma_pow10_increases(e1, (e2 - 1) as nat);
        lemma_pow10_positive((e2 - 1) as nat);
    }
}

/// The largest unscaled value admissible at the given precision: one less
/// than `10^precision`, except at precision 38 where the whole non-negative
/// `i128` range is admitted.
pub open spec fn spec_max_for_precision(precision: int) -> int
    recommends
        1 <= precision <= 38,
{
    if precision == 38 {
        i128::MAX as int
    } else {
        pow10(precision as nat) - 1
    }
}

/// The smallest unscaled value admissible at the given precision: the
/// negation of the largest, except at precision 38 where the whole negative
/// `i128` range is admitted.
pub open spec fn spec_min_for_precision(precision: int) -> int
    recommends
        1 <= precision <= 38,
{
    if precision == 38 {
        i128::MIN as int
    } else {
        -(pow10(precision as nat) - 1)
    }
}

/// Whether `v` lies in the inclusive range admissible at the given precision.
pub open spec fn in_range(v: i128, precision: int) -> bool {
    spec_min_for_precision(precision) <= v <= spec_max_for_precision(precision)
}

/// Law: for every precision from 1 to 37 the admissible range is exactly
/// `[-(10^precision - 1), 10^precision - 1]`; at precision 38 it is the full
/// 128-bit signed range.
pub proof fn lemma_precision_bounds(precision: int)
    requires
        1 <= precision <= 38,
    ensures
        precision < 38 ==> spec_max_for_precision(precision) == pow10(precision as nat) - 1,
        precision < 38 ==> spec_min_for_precision(precision) == -(pow10(precision as nat) - 1),
        precision == 38 ==> spec_max_for_precision(precision) == i128::MAX,
        precision == 38 ==> spec_min_for_precision(precision) == i128::MIN,
{
}

/// `10^e` as an `i128`, for exponents small enough to fit.
pub fn pow10_i128(e: usize) -> (r: i128)
    requires
        e <= 37,
    ensures
        r == pow10(e as nat),
{
    proof {
        assert(pow10(37) == 10000000000000000000000000000000000000int) by {
            reveal_with_fuel(pow10, 40);
        }
    }
    let mut r: i128 = 1;
    let mut i: usize = 0;
    while i < e
        invariant
            i <= e <= 37,
            r == pow10(i as nat),
            pow10(37) == 10000000000000000000000000000000000000int,
        decreases e - i,
    {
        proof {
            lemma_pow10_positive(i as nat);
            lemma_pow10_increases((i + 1) as nat, 37);
            assert(pow10((i + 1) as nat) == 10 * pow10(i as nat));
        }
        r = r * 10;
        i = i + 1;
    }
    r
}

/// The largest unscaled value a `Decimal(precision, _)` column may hold.
pub fn max_value_for_precision(precision: usize) -> (r: i128)
    requires
        1 <= precision <= 38,
    ensures
        r == spec_max_for_precision(precision as int),
{
    if precision == 38 {
        i128::MAX
    } else {
        proof {
            lemma_pow10_positive(precision as nat);
        }
        pow10_i128(precision) - 1
    }
}

/// The smallest unscaled value a `Decimal(precision, _)` column may hold.
pub fn min_value_for_precision(precision: usize) -> (r: i128)
    requires
        1 <= precision <= 38,
    ensures
        r == spec_min_for_precision(precision as int),
{
    if precision == 38 {
        i128::MIN
    } else {
        proof {
            lemma_pow10_positive(precision as nat);
        }
        1 - pow10_i128(precision)
    }
}

/// The 16 little-endian bytes of a 128-bit unsigned value.
pub open spec fn spec_u128_to_le_bytes(x: u128) -> Seq<u8> {
    seq![
        (x & 0xff) as u8,
        ((x >> 8) & 0xff) as u8,
        ((x >> 16) & 0xff) as u8,
        ((x >> 24) & 0xff) as u8,
        ((x >> 32) & 0xff) as u8,
        ((x >> 40) & 0xff) as u8,
        ((x >> 48) & 0xff) as u8,
        ((x >> 56) & 0xff) as u8,
        ((x >> 64) & 0xff) as u8,
        ((x >> 72) & 0xff) as u8,
        ((x >> 80) & 0xff) as u8,
        ((x >> 88) & 0xff) as u8,
        ((x >> 96) & 0xff) as u8,
        ((x >> 104) & 0xff) as u8,
        ((x >> 112) & 0xff) as u8,
        ((x >> 120) & 0xff) as u8,
    ]
}

/// The 128-bit unsigned value read from 16 little-endian bytes.
pub open spec fn spec_u128_from_le_bytes(s: Seq<u8>) -> u128
    recommends
        s.len() == 16,
{
    (s[0] as u128) | (s[1] as u128) << 8 | (s[2] as u128) << 16 | (s[3] as u128) << 24 | (
    s[4] as u128) << 32 | (s[5] as u128) << 40 | (s[6] as u128) << 48 | (s[7] as u128) << 56 | (
    s[8] as u128) << 64 | (s[9] as u128) << 72 | (s[10] as u128) << 80 | (s[11] as u128) << 88 | (
    s[12] as u128) << 96 | (s[13] as u128) << 104 | (s[14] as u128) << 112 | (s[15] as u128) << 120
}

#[verifier::spinoff_prover]
pub proof fn lemma_u128_le_bytes_round_trip(x: u128)
    ensures
        spec_u128_to_le_bytes(x).len() == 16,
        spec_u128_from_le_bytes(spec_u128_to_le_bytes(x)) == x,
{
    let s = spec_u128_to_le_bytes(x);
    assert({
        &&& x & 0xff < 256
        &&& (x >> 8) & 0xff < 256
        &&& (x >> 16) & 0xff < 256
        &&& (x >> 24) & 0xff < 256
        &&& (x >> 32) & 0xff < 256
        &&& (x >> 40) & 0xff < 256
        &&& (x >> 48) & 0xff < 256
        &&& (x >> 56) & 0xff < 256
        &&& (x >> 64) & 0xff < 256
        &&& (x >> 72) & 0xff < 256
        &&& (x >> 80) & 0xff < 256
        &&& (x >> 88) & 0xff < 256
        &&& (x >> 96) & 0xff < 256
        &&& (x >> 104) & 0xff < 256
        &&& (x >> 112) & 0xff < 256
        &&& (x >> 120) & 0xff < 256
    }) by (bit_vector);
    assert(x == ((x & 0xff) | ((x >> 8) & 0xff) << 8 | ((x >> 16) & 0xff) << 16 | ((x >> 24)
        & 0xff) << 24 | ((x >> 32) & 0xff) << 32 | ((x >> 40) & 0xff) << 40 | ((x >> 48) & 0xff)
        << 48 | ((x >> 56) & 0xff) << 56 | ((x >> 64) & 0xff) << 64 | ((x >> 72) & 0xff) << 72 | ((
    x >> 80) & 0xff) << 80 | ((x >> 88) & 0xff) << 88 | ((x >> 96) & 0xff) << 96 | ((x >> 104)
        & 0xff) << 104 | ((x >> 112) & 0xff) << 112 | ((x >> 120) & 0xff) << 120)) by (bit_vector);
}

pub proof fn lemma_i128_as_u128_round_trip(v: i128)
    ensures
        ((v as u128) as i128) == v,
{
    assert(((v as u128) as i128) == v) by (bit_vector);
}

/// The 16 little-endian bytes of the two's-complement representation of `v`.
pub open spec fn spec_i128_to_le_bytes(v: i128) -> Seq<u8> {
    spec_u128_to_le_bytes(v as u128)
}

/// The 128-bit signed value read from 16 little-endian two's-complement
/// bytes.
pub open spec fn spec_i128_from_le_bytes(s: Seq<u8>) -> i128
    recommends
        s.len() == 16,
{
    spec_u128_from_le_bytes(s) as i128
}

/// A slot holding only zero bytes decodes to zero.
pub proof fn lemma_le_bytes_all_zero(s: Seq<u8>)
    requires
        s.len() == 16,
        forall|i: int| 0 <= i < 16 ==> s[i] == 0u8,
    ensures
        spec_i128_from_le_bytes(s) == 0,
{
    let z: u8 = 0;
    assert(((z as u128) | (z as u128) << 8 | (z as u128) << 16 | (z as u128) << 24 | (z as u128)
        << 32 | (z as u128) << 40 | (z as u128) << 48 | (z as u128) << 56 | (z as u128) << 64 | (
    z as u128) << 72 | (z as u128) << 80 | (z as u128) << 88 | (z as u128) << 96 | (z as u128)
        << 104 | (z as u128) << 112 | (z as u128) << 120) == 0) by (bit_vector)
        requires
            z == 0u8,
    ;
    assert(spec_u128_from_le_bytes(s) == 0);
    assert((0u128 as i128) == 0) by (bit_vector);
}

/// Law: decoding inverts encoding for every 128-bit signed value.
pub proof fn lemma_i128_le_bytes_round_trip(v: i128)
    ensures
        spec_i128_to_le_bytes(v).len() == 16,
        spec_i128_from_le_bytes(spec_i128_to_le_bytes(v)) == v,
{
    lemma_u128_le_bytes_round_trip(v as u128);
    lemma_i128_as_u128_round_trip(v);
}

/// The little-endian two's-complement encoding of `v`, as 16 bytes.
pub fn encode_i128(v: i128) -> (r: Vec<u8>)
    ensures
        r@ == spec_i128_to_le_bytes(v),
        r@.len() == 16,
{
    let u: u128 = #[verifier::truncate] (v as u128);
    let mut r: Vec<u8> = Vec::with_capacity(16);
    r.push(#[verifier::truncate] ((u & 0xff) as u8));
    r.push(#[verifier::truncate] (((u >> 8) & 0xff) as u8));
    r.push(#[verifier::truncate] (((u >> 16) & 0xff) as u8));
    r.push(#[verifier::truncate] (((u >> 24) & 0xff) as u8));
    r.push(#[verifier::truncate] (((u >> 32) & 0xff) as u8));
    r.push(#[verifier::truncate] (((u >> 40) & 0xff) as u8));
    r.push(#[verifier::truncate] (((u >> 48) & 0xff) as u8));
    r.push(#[verifier::truncate] (((u >> 56) & 0xff) as u8));
    r.push(#[verifier::truncate] (((u >> 64) & 0xff) as u8));
    r.push(#[verifier::truncate] (((u >> 72) & 0xff) as u8));
    r.push(#[verifier::truncate] (((u >> 80) & 0xff) as u8));
    r.push(#[verifier::truncate] (((u >> 88) & 0xff) as u8));
    r.push(#[verifier::truncate] (((u >> 96) & 0xff) as u8));
    r.push(#[verifier::truncate] (((u >> 104) & 0xff) as u8));
    r.push(#[verifier::truncate] (((u >> 112) & 0xff) as u8));
    r.push(#[verifier::truncate] (((u >> 120) & 0xff) as u8));
    proof {
        assert_seqs_equal!(r@ == spec_i128_to_le_bytes(v));
    }
    r
}

/// The 128-bit signed value stored in a 16-byte little-endian slot.
pub fn decode_i128(bytes: &[u8]) -> (r: i128)
    requires
        bytes@.len() == 16,
    ensures
        r == spec_i128_from_le_bytes(bytes@),
{
    let x: u128 = (bytes[0] as u128) | (bytes[1] as u128) << 8 | (bytes[2] as u128) << 16 | (
    bytes[3] as u128) << 24 | (bytes[4] as u128) << 32 | (bytes[5] as u128) << 40 | (
    bytes[6] as u128) << 48 | (bytes[7] as u128) << 56 | (bytes[8] as u128) << 64 | (
    bytes[9] as u128) << 72 | (bytes[10] as u128) << 80 | (bytes[11] as u128) << 88 | (
    bytes[12] as u128) << 96 | (bytes[13] as u128) << 104 | (bytes[14] as u128) << 112 | (
    bytes[15] as u128) << 120;
    #[verifier::truncate] (x as i128)
}

} // verus!
