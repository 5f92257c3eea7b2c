//! Virtual runtime: the weighted running time by which tasks are ordered.
//!
//! A virtual runtime is a point on a clock of 2^64 nanoseconds that wraps
//! around. Two points are compared by their signed distance, so the order is
//! meaningful for points less than 2^63 apart, and nothing fails when the
//! clock wraps.

use crate::num::{signed64, wrap64};
use vstd::prelude::*;

verus! {

/// A virtual runtime, in nanoseconds.
#[derive(Clone, Copy, Debug, PartialEq, Eq, Structural)]
pub struct VRuntime(pub u64);

impl View for VRuntime {
    type V = nat;

    open spec fn view(&self) -> nat {
        self.0 as nat
    }
}

impl VRuntime {
    /// The signed distance from `other` to `self`.
    pub open spec fn spec_delta(self, other: VRuntime) -> int {
        signed64(self.0 - other.0)
    }

    /// `self` moved forward by `rhs`.
    pub open spec fn spec_advance(self, rhs: u64) -> VRuntime {
        VRuntime(wrap64(self.0 + rhs))
    }

    /// `self` moved back by `rhs`.
    pub open spec fn spec_retreat(self, rhs: u64) -> VRuntime {
        VRuntime(wrap64(self.0 - rhs))
    }

    /// Whether `self` comes before `other`.
    pub open spec fn spec_lt(self, other: VRuntime) -> bool {
        self.spec_delta(other) < 0
    }

    /// Whether `self` does not come after `other`.
    pub open spec fn spec_le(self, other: VRuntime) -> bool {
        self.spec_delta(other) <= 0
    }

    /// The later of the two.
    pub open spec fn spec_max(self, other: VRuntime) -> VRuntime {
        if self.spec_delta(other) > 0 {
            self
        } else {
            other
        }
    }

    /// The earlier of the two.
    pub open spec fn spec_min(self, other: VRuntime) -> VRuntime {
        if self.spec_delta(other) > 0 {
            other
        } else {
            self
        }
    }

    /// The key under which a max-first queue hands out the earliest virtual
    /// runtime first: the complement of the runtime read as a signed number.
    pub open spec fn spec_key(self) -> i64 {
        (-signed64(self.0 as int) - 1) as i64
    }

    /// The virtual runtime that has the given key.
    pub open spec fn spec_from_key(key: i64) -> VRuntime {
        VRuntime(wrap64(-1 - key))
    }

    /// The virtual runtime of a value.
    pub fn new(value: u64) -> (v: VRuntime)
        ensures
            v == VRuntime(value),
    {
        VRuntime(value)
    }

    /// The value.
    pub fn value(self) -> (value: u64)
        ensures
            value == self.0,
    {
        self.0
    }

    /// The signed distance from `other` to `self`.
    pub fn delta(self, other: VRuntime) -> (d: i64)
        ensures
            d == self.spec_delta(other),
    {
        let a: u64 = self.0;
        let b: u64 = other.0;
        let w: u64 = a.wrapping_sub(b);
        assert(w == wrap64(a - b)) by {
            if a >= b {
                assert((a - b) % 0x1_0000_0000_0000_0000 == a - b);
            } else {
                assert((a - b) % 0x1_0000_0000_0000_0000 == a - b + 0x1_0000_0000_0000_0000);
            }
        }
        assert(w < 0x8000_0000_0000_0000 ==> (w as i64) == w) by (bit_vector);
        assert(w >= 0x8000_0000_0000_0000 ==> (w as i64) == w - 0x1_0000_0000_0000_0000)
            by (bit_vector);
        #[verifier::truncate]
        (w as i64)
    }

    /// `self` moved forward by `rhs`, wrapping around at 2^64.
    pub fn advance(self, rhs: u64) -> (v: VRuntime)
        ensures
            v == self.spec_advance(rhs),
    {
        let a: u64 = self.0;
        let w: u64 = a.wrapping_add(rhs);
        assert(w == wrap64(a + rhs)) by {
            if a + rhs <= u64::MAX {
                assert((a + rhs) % 0x1_0000_0000_0000_0000 == a + rhs);
            } else {
                assert((a + rhs) % 0x1_0000_0000_0000_0000 == a + rhs - 0x1_0000_0000_0000_0000);
            }
        }
        VRuntime(w)
    }

    /// `self` moved back by `rhs`, wrapping around at 0.
    pub fn retreat(self, rhs: u64) -> (v: VRuntime)
        ensures
            v == self.spec_retreat(rhs),
    {
        let a: u64 = self.0;
        let w: u64 = a.wrapping_sub(rhs);
        assert(w == wrap64(a - rhs)) by {
            if a >= rhs {
                assert((a - rhs) % 0x1_0000_0000_0000_0000 == a - rhs);
            } else {
                assert((a - rhs) % 0x1_0000_0000_0000_0000 == a - rhs + 0x1_0000_0000_0000_0000);
            }
        }
        VRuntime(w)
    }

    /// Whether `self` comes before `other`.
    pub fn lt(self, other: VRuntime) -> (b: bool)
        ensures
            b == self.spec_lt(other),
    {
        self.delta(other) < 0
    }

    /// The later of the two; `other` where they are equal.
    pub fn max(self, other: VRuntime) -> (v: VRuntime)
        ensures
            v == self.spec_max(other),
    {
        if self.delta(other) > 0 {
            self
        } else {
            other
        }
    }

    /// The earlier of the two; `self` where they are equal.
    pub fn min(self, other: VRuntime) -> (v: VRuntime)
        ensures
            v == self.spec_min(other),
    {
        if self.delta(other) > 0 {
            other
        } else {
            self
        }
    }

    /// The virtual runtime that has the given key.
    pub fn from_key(key: i64) -> (v: VRuntime)
        ensures
            v.spec_key() == key,
            v == Self::spec_from_key(key),
    {
        let s: i64 = -1 - key;
        assert(s >= 0 ==> (s as u64) == s) by (bit_vector);
        assert(s < 0 ==> (s as u64) == s + 0x1_0000_0000_0000_0000) by (bit_vector);
        let w: u64 = #[verifier::truncate] (s as u64);
        assert((w as int) % 0x1_0000_0000_0000_0000 == w);
        assert((s as int) % 0x1_0000_0000_0000_0000 == w);
        VRuntime(w)
    }

    /// The key under which a max-first queue hands out the earliest virtual
    /// runtime first.
    pub fn key(self) -> (k: i64)
        ensures
            k == self.spec_key(),
    {
        let w: u64 = self.0;
        assert(w < 0x8000_0000_0000_0000 ==> (w as i64) == w) by (bit_vector);
        assert(w >= 0x8000_0000_0000_0000 ==> (w as i64) == w - 0x1_0000_0000_0000_0000)
            by (bit_vector);
        assert((w as int) % 0x1_0000_0000_0000_0000 == w);
        let s: i64 = #[verifier::truncate] (w as i64);
        -1 - s
    }
}

impl Default for VRuntime {
    fn default() -> (v: VRuntime)
        ensures
            v == VRuntime(0),
    {
        VRuntime(0)
    }
}

impl From<u64> for VRuntime {
    fn from(value: u64) -> (v: VRuntime) {
        VRuntime(value)
    }
}

impl vstd::std_specs::convert::FromSpecImpl<u64> for VRuntime {
    open spec fn obeys_from_spec() -> bool {
        true
    }

    open spec fn from_spec(value: u64) -> VRuntime {
        VRuntime(value)
    }
}

/// The distance from a point to itself is zero, and the points `d` after and
/// `d` before a point are `d` away from it, as long as `d` is below 2^63.
pub proof fn lemma_delta_of_advance(v: VRuntime, d: u64)
    requires
        d < 0x8000_0000_0000_0000,
    ensures
        v.spec_delta(v) == 0,
        v.spec_advance(d).spec_delta(v) == d,
        v.spec_delta(v.spec_retreat(d)) == d,
{
    let m = 0x1_0000_0000_0000_0000int;
    if v.0 + d < m {
        assert((v.0 + d) % m == v.0 + d);
    } else {
        assert((v.0 + d) % m == v.0 + d - m);
        assert((d - m) % m == d);
    }
    if v.0 >= d {
        assert((v.0 - d) % m == v.0 - d);
    } else {
        assert((v.0 - d) % m == v.0 - d + m);
        assert((d - m) % m == d);
    }
    assert(0int % m == 0);
    assert((d as int) % m == d);
}

/// A virtual runtime is the one that has its key.
pub proof fn lemma_key_round_trip(v: VRuntime)
    ensures
        VRuntime::spec_from_key(v.spec_key()) == v,
{
    let m = 0x1_0000_0000_0000_0000int;
    assert((v.0 as int) % m == v.0);
    if v.0 >= 0x8000_0000_0000_0000 {
        assert((v.0 - m) % m == v.0);
    }
}

/// The later of two points is one of them and is not before either, unless
/// the two are exactly half the clock apart.
pub proof fn lemma_max_is_upper(a: VRuntime, b: VRuntime)
    ensures
        a.spec_max(b) == a || a.spec_max(b) == b,
        a.spec_max(b).spec_delta(b) >= 0,
        a.spec_delta(b) != -0x8000_0000_0000_0000 ==> a.spec_max(b).spec_delta(a) >= 0,
{
    let m = 0x1_0000_0000_0000_0000int;
    assert(0int % m == 0);
    lemma_delta_antisymmetric(a, b);
}

/// Distances add up along three points that lie close enough together for
/// the sum not to wrap.
pub proof fn lemma_delta_adds(a: VRuntime, b: VRuntime, c: VRuntime)
    requires
        -0x8000_0000_0000_0000 <= a.spec_delta(b) + b.spec_delta(c) < 0x8000_0000_0000_0000,
    ensures
        a.spec_delta(c) == a.spec_delta(b) + b.spec_delta(c),
{
    let m = 0x1_0000_0000_0000_0000int;
    let x = a.0 - b.0;
    let y = b.0 - c.0;
    let z = a.0 - c.0;
    assert(z == x + y);
    assert(x % m == x || x % m == x + m);
    assert(y % m == y || y % m == y + m);
    assert(z % m == z || z % m == z + m);
}

/// The distance from `b` to `a` is the negative of the distance from `a` to
/// `b`, unless the two are exactly half the clock apart.
pub proof fn lemma_delta_antisymmetric(a: VRuntime, b: VRuntime)
    ensures
        a.spec_delta(b) != -0x8000_0000_0000_0000 ==> b.spec_delta(a) == -a.spec_delta(b),
        a.spec_delta(b) == -0x8000_0000_0000_0000 ==> b.spec_delta(a) == -0x8000_0000_0000_0000,
        a.spec_delta(b) == 0 <==> a == b,
{
    let m = 0x1_0000_0000_0000_0000int;
    if a.0 >= b.0 {
        assert((a.0 - b.0) % m == a.0 - b.0);
        if a.0 > b.0 {
            assert((b.0 - a.0) % m == b.0 - a.0 + m);
        }
    } else {
        assert((a.0 - b.0) % m == a.0 - b.0 + m);
        assert((b.0 - a.0) % m == b.0 - a.0);
    }
}

} // verus!
