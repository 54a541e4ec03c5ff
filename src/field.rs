//! Arithmetic modulo the Goldilocks prime.

use vstd::prelude::*;

verus! {

/// The Goldilocks prime, `2^64 - 2^32 + 1`.
pub const P: u64 = 0xFFFF_FFFF_0000_0001;

/// A value is a canonical field element when it lies in `[0, P)`.
pub open spec fn is_canonical(x: u64) -> bool {
    x < P
}

/// Every value of a sequence is a canonical field element.
pub open spec fn all_canonical(s: Seq<u64>) -> bool {
    forall|i: int| 0 <= i < s.len() ==> #[trigger] s[i] < P
}

/// The canonical field element that a raw 64-bit integer stands for.
pub open spec fn reduce(x: u64) -> u64 {
    (x % P) as u64
}

/// Builds the canonical field element of any 64-bit integer; values at or
/// above `P` are reduced, which is no error.
pub fn from_raw(x: u64) -> (r: u64)
    ensures
        r == reduce(x),
        r == x % P,
        is_canonical(r),
{
    if x >= P {
        x - P
    } else {
        x
    }
}

/// Returns the unique representative in `[0, P)` of a field element that
/// may be held in any 64-bit form.
pub fn to_canonical(x: u64) -> (r: u64)
    ensures
        r == x % P,
        is_canonical(r),
{
    if x >= P {
        x - P
    } else {
        x
    }
}

/// Field addition.
pub fn add(a: u64, b: u64) -> (r: u64)
    requires
        is_canonical(a),
        is_canonical(b),
    ensures
        r == (a + b) % (P as int),
        is_canonical(r),
{
    if a >= P - b {
        a - (P - b)
    } else {
        a + b
    }
}

/// Field subtraction.
pub fn sub(a: u64, b: u64) -> (r: u64)
    requires
        is_canonical(a),
        is_canonical(b),
    ensures
        r == (a - b) % (P as int),
        is_canonical(r),
{
    if a >= b {
        a - b
    } else {
        P - (b - a)
    }
}

/// Field multiplication, through the full 128-bit product.
pub fn mul(a: u64, b: u64) -> (r: u64)
    requires
        is_canonical(a),
        is_canonical(b),
    ensures
        r == (a * b) % (P as int),
        is_canonical(r),
{
    assert((a as u128) * (b as u128) < 0x1_0000_0000_0000_0000_0000_0000_0000_0000) by (nonlinear_arith)
        requires
            a < P,
            b < P,
    ;
    let wide: u128 = (a as u128) * (b as u128);
    let m: u128 = wide % (P as u128);
    m as u64
}

/// Turning a raw integer into a field element and reading it back gives
/// the integer modulo `P`.
pub proof fn lemma_round_trip(x: u64)
    ensures
        reduce(reduce(x)) == x % P,
        is_canonical(reduce(x)),
{
}

} // verus!
