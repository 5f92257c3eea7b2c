//! Numbers of 64 bits that wrap around, read with and without a sign.

use vstd::prelude::*;

verus! {

/// `x` modulo 2^64, read as a signed 64-bit number.
pub open spec fn signed64(x: int) -> int {
    let m = x % 0x1_0000_0000_0000_0000;
    if m < 0x8000_0000_0000_0000 {
        m
    } else {
        m - 0x1_0000_0000_0000_0000
    }
}

/// `x` modulo 2^64.
pub open spec fn wrap64(x: int) -> u64 {
    (x % 0x1_0000_0000_0000_0000) as u64
}

/// `base`, read as a signed number, plus `delta`, as an unsigned number
/// again. The sum must be a signed number of 64 bits.
pub fn add_signed(base: u64, delta: i64) -> (sum: u64)
    requires
        -0x8000_0000_0000_0000 <= signed64(base as int) + delta < 0x8000_0000_0000_0000,
    ensures
        sum == wrap64(signed64(base as int) + delta),
        signed64(base as int) + delta >= 0 ==> sum == signed64(base as int) + delta,
{
    assert(base < 0x8000_0000_0000_0000 ==> (base as i64) == base) by (bit_vector);
    assert(base >= 0x8000_0000_0000_0000 ==> (base as i64) == base - 0x1_0000_0000_0000_0000)
        by (bit_vector);
    assert((base as int) % 0x1_0000_0000_0000_0000 == base);
    let signed: i64 = #[verifier::truncate] (base as i64);
    let sum: i64 = signed + delta;
    assert(sum >= 0 ==> (sum as u64) == sum) by (bit_vector);
    assert(sum < 0 ==> (sum as u64) == sum + 0x1_0000_0000_0000_0000) by (bit_vector);
    assert(sum >= 0 ==> (sum as int) % 0x1_0000_0000_0000_0000 == sum);
    assert(sum < 0 ==> (sum as int) % 0x1_0000_0000_0000_0000 == sum + 0x1_0000_0000_0000_0000);
    #[verifier::truncate]
    (sum as u64)
}

} // verus!
