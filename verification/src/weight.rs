//! Load weights: the nice-to-weight table and the fixed-point helper that
//! scales a time span by a ratio of weights without dividing.

use vstd::arithmetic::power2::{lemma2_to64, lemma_pow2_pos, pow2};
use vstd::bits::lemma_u128_shr_is_div;
use vstd::prelude::*;

verus! {

/// Targeted preemption latency for CPU-bound tasks, in nanoseconds.
pub const SCHED_LATENCY: u64 = 6_000_000;

/// Wake-up granularity, in nanoseconds.
pub const SCHED_WAKEUP_GRANULARITY: u64 = 1_000_000;

/// Minimal preemption granularity for CPU-bound tasks, in nanoseconds.
pub const SCHED_MIN_GRANULARITY: u64 = 750_000;

/// Number of runnable tasks above which the period is stretched.
pub const SCHED_NR_LATENCY: usize = 8;

/// Whether a forked child is placed before its parent.
pub const SCHED_CHILD_RUNS_FIRST: bool = false;

/// Weight of a task at nice 0.
pub const NICE_0_WEIGHT: u64 = 1024;

/// Highest nice value, that is the lowest priority.
pub const MAX_NICE: isize = 19;

/// Lowest nice value, that is the highest priority.
pub const MIN_NICE: isize = -20;

/// Largest multiplier that an inverse weight can be.
pub const WMULT_CONST: u32 = 0xffff_ffff;

/// Number of fraction bits of an inverse weight.
pub const WMULT_SHIFT: u32 = 32;

/// Whether `nice` is a niceness that a task can have.
pub open spec fn valid_nice(nice: int) -> bool {
    MIN_NICE <= nice <= MAX_NICE
}

/// The weights by niceness, from nice -20 up to nice 19. Each step is a
/// factor of about 1.25.
pub open spec fn weight_table() -> Seq<u64> {
    seq![
        88761, 71755, 56483, 46273, 36291,
        29154, 23254, 18705, 14949, 11916,
        9548, 7620, 6100, 4904, 3906,
        3121, 2501, 1991, 1586, 1277,
        1024, 820, 655, 526, 423,
        335, 272, 215, 172, 137,
        110, 87, 70, 56, 45,
        36, 29, 23, 18, 15,
    ]
}

/// The weight of a task of niceness `nice`.
pub open spec fn weight_of_nice(nice: int) -> u64
    recommends
        valid_nice(nice),
{
    weight_table()[nice + 20]
}

/// The weight of a task of niceness `nice`.
pub fn nice_to_weight(nice: isize) -> (weight: u64)
    requires
        valid_nice(nice as int),
    ensures
        weight == weight_of_nice(nice as int),
        15 <= weight <= 88761,
{
    let table: [u64; 40] = [
        88761, 71755, 56483, 46273, 36291,
        29154, 23254, 18705, 14949, 11916,
        9548, 7620, 6100, 4904, 3906,
        3121, 2501, 1991, 1586, 1277,
        1024, 820, 655, 526, 423,
        335, 272, 215, 172, 137,
        110, 87, 70, 56, 45,
        36, 29, 23, 18, 15,
    ];
    proof {
        assert(table@ =~= weight_table());
        lemma_weight_bounds(nice as int);
    }
    table[(nice + 20) as usize]
}

/// Every weight of the table lies between that of nice 19 and that of
/// nice -20.
pub proof fn lemma_weight_bounds(nice: int)
    requires
        valid_nice(nice),
    ensures
        15 <= weight_of_nice(nice) <= 88761,
{
    lemma_weight_decreases(MIN_NICE as int, nice);
    lemma_weight_decreases(nice, MAX_NICE as int);
}

/// A lower niceness never has a lower weight, and a strictly lower
/// niceness has a strictly higher weight.
pub proof fn lemma_weight_decreases(nice1: int, nice2: int)
    requires
        valid_nice(nice1),
        valid_nice(nice2),
        nice1 <= nice2,
    ensures
        weight_of_nice(nice1) >= weight_of_nice(nice2),
        nice1 < nice2 ==> weight_of_nice(nice1) > weight_of_nice(nice2),
    decreases nice2 - nice1,
{
    if nice1 < nice2 {
        lemma_weight_decreases(nice1, nice2 - 1);
        let t = weight_table();
        assert(t[nice2 + 19] > t[nice2 + 20]);
    }
}

/// The multiplier that stands for dividing by `weight`: the 32-bit fixed-point
/// inverse of the weight, kept within 32 bits.
pub open spec fn inv_weight_of(weight: u64) -> u32 {
    if weight == 0 {
        WMULT_CONST
    } else if weight == 1 {
        WMULT_CONST
    } else if weight <= WMULT_CONST {
        (0x1_0000_0000u64 / weight) as u32
    } else {
        1
    }
}

/// A weight together with its inverse, so that a division by the weight is
/// a multiplication and a shift.
#[derive(Clone, Copy, Debug)]
pub struct LoadWeight {
    weight: u64,
    inv_weight: u32,
}

impl View for LoadWeight {
    type V = nat;

    closed spec fn view(&self) -> nat {
        self.weight as nat
    }
}

impl LoadWeight {
    #[verifier::type_invariant]
    spec fn inverse_is_cached(self) -> bool {
        self.inv_weight == inv_weight_of(self.weight)
    }

    /// The load of the given weight.
    pub closed spec fn of(weight: u64) -> LoadWeight {
        LoadWeight { weight, inv_weight: inv_weight_of(weight) }
    }

    /// The load of the given weight.
    pub fn new(weight: u64) -> (lw: LoadWeight)
        ensures
            lw == Self::of(weight),
            lw@ == weight,
    {
        let inv_weight: u32 = if weight == 0 {
            WMULT_CONST
        } else if weight == 1 {
            WMULT_CONST
        } else if weight <= WMULT_CONST as u64 {
            (0x1_0000_0000u64 / weight) as u32
        } else {
            1
        };
        LoadWeight { weight, inv_weight }
    }

    /// The weight.
    pub fn weight(self) -> (weight: u64)
        ensures
            weight == self@,
    {
        self.weight
    }

    /// The multiplier that stands for dividing by this weight.
    pub fn inv_weight(self) -> (inv: u32)
        ensures
            inv == inv_weight_of(self@ as u64),
            inv >= 1,
    {
        proof {
            use_type_invariant(&self);
            lemma_inv_weight_bounds(self.weight);
        }
        self.inv_weight
    }

    /// The sum of two loads.
    pub fn plus(self, rhs: LoadWeight) -> (sum: LoadWeight)
        requires
            self@ + rhs@ <= u64::MAX,
        ensures
            sum@ == self@ + rhs@,
    {
        LoadWeight::new(self.weight + rhs.weight)
    }

    /// The load without `rhs`.
    pub fn minus(self, rhs: LoadWeight) -> (difference: LoadWeight)
        requires
            rhs@ <= self@,
        ensures
            difference@ == self@ - rhs@,
    {
        LoadWeight::new(self.weight - rhs.weight)
    }
}

/// The load of a weight has that weight.
pub proof fn lemma_load_of_weight(weight: u64)
    ensures
        LoadWeight::of(weight)@ == weight,
{
}

/// The inverse of a weight is at least 1, and at most 2^32 divided by the
/// weight.
pub proof fn lemma_inv_weight_bounds(weight: u64)
    ensures
        1 <= inv_weight_of(weight) <= WMULT_CONST,
        1 <= weight <= WMULT_CONST ==> inv_weight_of(weight) * weight <= 0x1_0000_0000,
{
    if 2 <= weight <= WMULT_CONST {
        let q = 0x1_0000_0000u64 / weight;
        assert(1 <= q <= 0x8000_0000 && q * weight <= 0x1_0000_0000) by (nonlinear_arith)
            requires
                q == 0x1_0000_0000u64 / weight,
                2 <= weight <= 0xffff_ffff,
        ;
    }
}

/// How many times `x` is halved until it is below 2^32.
pub open spec fn excess_bits(x: nat) -> nat
    decreases x,
{
    if x < 0x1_0000_0000 {
        0
    } else {
        1 + excess_bits(x / 2)
    }
}

/// `x` halved until it is below 2^32.
pub open spec fn fit32(x: nat) -> nat
    decreases x,
{
    if x < 0x1_0000_0000 {
        x
    } else {
        fit32(x / 2)
    }
}

/// The factor by which `calc_delta` multiplies: `weight * inv`, both the
/// weight and the product brought below 2^32.
pub open spec fn delta_factor(weight: u64, inv: u32) -> nat {
    fit32(fit32(weight as nat) * (inv as nat))
}

/// The number of halvings that `delta_factor` made.
pub open spec fn delta_excess(weight: u64, inv: u32) -> nat {
    excess_bits(weight as nat) + excess_bits(fit32(weight as nat) * (inv as nat))
}

/// What `calc_delta` returns: `delta_exec * weight / lw`, computed with the
/// inverse `inv` of `lw` in 32-bit fixed point and cut to 64 bits.
pub open spec fn calc_delta_spec(delta_exec: u64, weight: u64, inv: u32) -> u64
    recommends
        delta_excess(weight, inv) <= WMULT_SHIFT,
{
    (((delta_exec as nat) * delta_factor(weight, inv)) / pow2(
        (WMULT_SHIFT - delta_excess(weight, inv)) as nat,
    ) % 0x1_0000_0000_0000_0000) as u64
}

/// Halving `x` below 2^32 leaves it below 2^32, and takes no more steps
/// than `x` has bits above the 32nd.
pub proof fn lemma_fit32_bounds(x: nat, bits: nat)
    requires
        x < 0x1_0000_0000 * pow2(bits),
    ensures
        fit32(x) < 0x1_0000_0000,
        excess_bits(x) <= bits,
    decreases x,
{
    if x >= 0x1_0000_0000 {
        if bits == 0 {
            lemma2_to64();
        } else {
            vstd::arithmetic::power2::lemma_pow2_unfold(bits);
            lemma_fit32_bounds(x / 2, (bits - 1) as nat);
        }
    }
}

/// `delta_exec * weight / lw.weight`, computed as
/// `(delta_exec * (weight * lw.inv_weight)) >> 32`, where the factor in the
/// inner brackets is first brought below 2^32 by halving, and the shift is
/// shortened by the number of halvings.
pub fn calc_delta(delta_exec: u64, weight: u64, lw: LoadWeight) -> (delta: u64)
    requires
        delta_excess(weight, inv_weight_of(lw@ as u64)) <= WMULT_SHIFT,
    ensures
        delta == calc_delta_spec(delta_exec, weight, inv_weight_of(lw@ as u64)),
{
    let mut fact: u64 = weight;
    let mut shift: u32 = WMULT_SHIFT;
    let inv: u32 = lw.inv_weight();

    while (fact >> 32) != 0
        invariant
            fit32(fact as nat) == fit32(weight as nat),
            excess_bits(fact as nat) + (WMULT_SHIFT - shift) == excess_bits(weight as nat),
            shift <= WMULT_SHIFT,
            delta_excess(weight, inv) <= WMULT_SHIFT,
        decreases fact,
    {
        assert((fact >> 32) != 0 ==> fact >= 0x1_0000_0000 && fact >> 1 == fact / 2 && fact >> 1
            < fact) by (bit_vector);
        fact >>= 1;
        shift -= 1;
    }
    assert((fact >> 32) == 0 ==> fact < 0x1_0000_0000) by (bit_vector);
    assert(fact * inv <= u64::MAX) by (nonlinear_arith)
        requires
            fact < 0x1_0000_0000,
            inv <= 0xffff_ffff,
    ;
    fact = fact * (inv as u64);

    while (fact >> 32) != 0
        invariant
            fit32(fact as nat) == delta_factor(weight, inv),
            excess_bits(fact as nat) + (WMULT_SHIFT - shift) == delta_excess(weight, inv),
            shift <= WMULT_SHIFT,
            delta_excess(weight, inv) <= WMULT_SHIFT,
        decreases fact,
    {
        assert((fact >> 32) != 0 ==> fact >= 0x1_0000_0000 && fact >> 1 == fact / 2 && fact >> 1
            < fact) by (bit_vector);
        fact >>= 1;
        shift -= 1;
    }
    assert((fact >> 32) == 0 ==> fact < 0x1_0000_0000) by (bit_vector);

    assert(delta_exec * fact <= u128::MAX) by (nonlinear_arith)
        requires
            delta_exec <= u64::MAX,
            fact < 0x1_0000_0000,
    ;
    let product: u128 = (delta_exec as u128) * (fact as u128);
    let shifted: u128 = product >> (shift as u128);
    proof {
        lemma_u128_shr_is_div(product, shift as u128);
        assert(shifted as u64 == shifted % 0x1_0000_0000_0000_0000) by (bit_vector);
    }
    #[verifier::truncate]
    (shifted as u64)
}

/// The period in which each runnable task runs once: the latency target,
/// or, when more than `SCHED_NR_LATENCY` tasks run, the minimal granularity
/// for each of them.
pub open spec fn sched_period_spec(nr_running: nat) -> nat {
    if nr_running > SCHED_NR_LATENCY {
        nr_running * (SCHED_MIN_GRANULARITY as nat)
    } else {
        SCHED_LATENCY as nat
    }
}

/// The period in which each of `nr_running` tasks runs once.
pub fn sched_period(nr_running: usize) -> (period: u64)
    requires
        nr_running * SCHED_MIN_GRANULARITY <= u64::MAX,
    ensures
        period == sched_period_spec(nr_running as nat),
{
    if nr_running > SCHED_NR_LATENCY {
        (nr_running as u64) * SCHED_MIN_GRANULARITY
    } else {
        SCHED_LATENCY
    }
}

/// A weight below 2^32 is not halved, and its product with an inverse is
/// halved at most 32 times: `calc_delta` can take every such weight.
pub proof fn lemma_delta_excess_bound(weight: u64, inv: u32)
    requires
        weight <= WMULT_CONST,
    ensures
        fit32(weight as nat) == weight,
        excess_bits(weight as nat) == 0,
        delta_excess(weight, inv) <= WMULT_SHIFT,
        delta_factor(weight, inv) < 0x1_0000_0000,
{
    lemma2_to64();
    assert((weight as nat) * (inv as nat) < 0x1_0000_0000 * pow2(32)) by (nonlinear_arith)
        requires
            weight <= 0xffff_ffff,
            inv <= 0xffff_ffff,
            pow2(32) == 0x1_0000_0000,
    ;
    lemma_fit32_bounds((weight as nat) * (inv as nat), 32);
}

/// What was halved below 2^32, doubled as often again, is no more than what
/// it was.
pub proof fn lemma_fit32_shrinks(x: nat)
    ensures
        fit32(x) * pow2(excess_bits(x)) <= x,
    decreases x,
{
    lemma2_to64();
    if x >= 0x1_0000_0000 {
        lemma_fit32_shrinks(x / 2);
        let e = excess_bits(x / 2);
        assert(excess_bits(x) == e + 1);
        vstd::arithmetic::power2::lemma_pow2_unfold(e + 1);
        let f = fit32(x / 2);
        let p = pow2(e);
        assert(pow2(e + 1) == 2 * p);
        assert(f * (2 * p) == 2 * (f * p)) by (nonlinear_arith);
        assert(fit32(x) == f);
    } else {
        assert(fit32(x) * pow2(0) == x) by (nonlinear_arith)
            requires
                fit32(x) == x,
                pow2(0) == 1,
        ;
    }
}

/// `calc_delta` does not give more than the exact product: where
/// `weight * inv` is at most `times` times 2^32, the result is at most
/// `times` times `delta_exec`, as long as that fits in 64 bits.
pub proof fn lemma_calc_delta_bound(delta_exec: u64, weight: u64, inv: u32, times: nat)
    requires
        weight <= WMULT_CONST,
        weight * inv <= times * 0x1_0000_0000,
        times * delta_exec <= u64::MAX,
    ensures
        calc_delta_spec(delta_exec, weight, inv) <= times * delta_exec,
{
    lemma_delta_excess_bound(weight, inv);
    lemma2_to64();
    let x: nat = (weight as nat) * (inv as nat);
    let f: nat = fit32(x);
    let e: nat = excess_bits(x);
    let s: nat = (WMULT_SHIFT - e) as nat;
    let d: nat = delta_exec as nat;
    let r: nat = (d * f) / pow2(s);
    lemma_fit32_shrinks(x);
    lemma_pow2_pos(s);
    lemma_pow2_pos(e);
    vstd::arithmetic::power2::lemma_pow2_adds(s, e);
    assert(r * pow2(s) <= d * f) by (nonlinear_arith)
        requires
            r == (d * f) / pow2(s),
            pow2(s) > 0,
    ;
    assert(r * 0x1_0000_0000 <= d * x) by (nonlinear_arith)
        requires
            r * pow2(s) <= d * f,
            f * pow2(e) <= x,
            pow2(s) * pow2(e) == 0x1_0000_0000,
            pow2(e) > 0,
    ;
    assert(r <= times * d) by (nonlinear_arith)
        requires
            r * 0x1_0000_0000 <= d * x,
            x <= times * 0x1_0000_0000,
    ;
    assert(r % 0x1_0000_0000_0000_0000 == r);
}

/// `x` cut to its upper 32 bits: what `calc_delta` keeps of a factor.
pub open spec fn upper32(x: nat) -> nat {
    fit32(x) * pow2(excess_bits(x))
}

/// Cutting to the upper 32 bits leaves at least 2^31 of what is 2^31 or
/// more.
proof fn lemma_upper32_keeps_top(x: nat)
    requires
        x >= 0x8000_0000,
    ensures
        upper32(x) >= 0x8000_0000,
    decreases x,
{
    lemma2_to64();
    if x >= 0x1_0000_0000 {
        lemma_upper32_keeps_top(x / 2);
        lemma_upper32_unfold(x);
    } else {
        assert(fit32(x) * pow2(0) == x) by (nonlinear_arith)
            requires
                fit32(x) == x,
                pow2(0) == 1,
        ;
    }
}

/// Above 32 bits, cutting a number is cutting its half, doubled.
proof fn lemma_upper32_unfold(x: nat)
    requires
        x >= 0x1_0000_0000,
    ensures
        upper32(x) == 2 * upper32(x / 2),
{
    let e = excess_bits(x / 2);
    assert(excess_bits(x) == e + 1);
    vstd::arithmetic::power2::lemma_pow2_unfold(e + 1);
    let f = fit32(x / 2);
    let p = pow2(e);
    assert(pow2(e + 1) == 2 * p);
    assert(f * (2 * p) == 2 * (f * p)) by (nonlinear_arith);
    assert(fit32(x) == f);
}

/// Cutting to the upper 32 bits keeps the order.
pub proof fn lemma_upper32_monotone(x: nat, y: nat)
    requires
        x <= y,
    ensures
        upper32(x) <= upper32(y),
    decreases y,
{
    lemma2_to64();
    if y < 0x1_0000_0000 {
        assert(fit32(x) * pow2(0) == x && fit32(y) * pow2(0) == y) by (nonlinear_arith)
            requires
                fit32(x) == x,
                fit32(y) == y,
                pow2(0) == 1,
        ;
    } else if x < 0x1_0000_0000 {
        lemma_fit32_shrinks(x);
        lemma_upper32_keeps_top(y / 2);
        lemma_upper32_unfold(y);
    } else {
        lemma_upper32_monotone(x / 2, y / 2);
        lemma_upper32_unfold(x);
        lemma_upper32_unfold(y);
    }
}

/// What `calc_delta` computes, in one division: the product of the time and
/// the factor `weight * inv`, cut to its upper 32 bits, divided by 2^32.
pub proof fn lemma_calc_delta_as_division(delta_exec: u64, weight: u64, inv: u32)
    requires
        weight <= WMULT_CONST,
    ensures
        calc_delta_spec(delta_exec, weight, inv) == ((delta_exec * upper32(
            (weight as nat) * (inv as nat),
        )) / 0x1_0000_0000) % 0x1_0000_0000_0000_0000,
{
    lemma_delta_excess_bound(weight, inv);
    lemma2_to64();
    let x: nat = (weight as nat) * (inv as nat);
    let f: nat = fit32(x);
    let e: nat = excess_bits(x);
    let s: nat = (WMULT_SHIFT - e) as nat;
    let d: nat = delta_exec as nat;
    lemma_pow2_pos(s);
    lemma_pow2_pos(e);
    vstd::arithmetic::power2::lemma_pow2_adds(e, s);
    vstd::arithmetic::div_mod::lemma_div_multiples_vanish_quotient(
        pow2(e) as int,
        (d * f) as int,
        pow2(s) as int,
    );
    assert(pow2(e) * (d * f) == d * (f * pow2(e))) by (nonlinear_arith);
}

/// A lighter load makes more of the same time: `calc_delta` with the
/// inverse of a lower weight gives at least as much as with that of a higher
/// weight, as long as the greater result fits in 64 bits.
pub proof fn lemma_calc_delta_monotone(
    delta_exec: u64,
    weight: u64,
    heavy: u64,
    light: u64,
    times: nat,
)
    requires
        weight <= WMULT_CONST,
        2 <= light <= heavy <= WMULT_CONST,
        weight * inv_weight_of(light) <= times * 0x1_0000_0000,
        times * delta_exec <= u64::MAX,
    ensures
        calc_delta_spec(delta_exec, weight, inv_weight_of(heavy)) <= calc_delta_spec(
            delta_exec,
            weight,
            inv_weight_of(light),
        ),
{
    let inv_heavy = inv_weight_of(heavy);
    let inv_light = inv_weight_of(light);
    vstd::arithmetic::div_mod::lemma_div_is_ordered_by_denominator(
        0x1_0000_0000,
        light as int,
        heavy as int,
    );
    let q_heavy = 0x1_0000_0000u64 / heavy;
    let q_light = 0x1_0000_0000u64 / light;
    assert(q_heavy <= 0x8000_0000 && q_light <= 0x8000_0000) by (nonlinear_arith)
        requires
            q_heavy == 0x1_0000_0000u64 / heavy,
            q_light == 0x1_0000_0000u64 / light,
            2 <= light,
            2 <= heavy,
    ;
    assert(inv_heavy == q_heavy && inv_light == q_light);
    assert(inv_heavy <= inv_light);
    let x: nat = (weight as nat) * (inv_heavy as nat);
    let y: nat = (weight as nat) * (inv_light as nat);
    assert(x <= y) by (nonlinear_arith)
        requires
            x == (weight as nat) * (inv_heavy as nat),
            y == (weight as nat) * (inv_light as nat),
            inv_heavy <= inv_light,
    ;
    lemma_upper32_monotone(x, y);
    lemma_calc_delta_as_division(delta_exec, weight, inv_heavy);
    lemma_calc_delta_as_division(delta_exec, weight, inv_light);
    let d: nat = delta_exec as nat;
    assert(d * upper32(x) <= d * upper32(y)) by (nonlinear_arith)
        requires
            upper32(x) <= upper32(y),
    ;
    vstd::arithmetic::div_mod::lemma_div_is_ordered(
        (d * upper32(x)) as int,
        (d * upper32(y)) as int,
        0x1_0000_0000,
    );
    lemma_calc_delta_bound(delta_exec, weight, inv_light, times);
    lemma_fit32_shrinks(y);
    let top = (d * upper32(y)) / 0x1_0000_0000;
    assert(top <= times * d) by (nonlinear_arith)
        requires
            top == (d * upper32(y)) / 0x1_0000_0000,
            upper32(y) <= y,
            y <= times * 0x1_0000_0000,
    ;
    assert(top % 0x1_0000_0000_0000_0000 == top);
    let low = (d * upper32(x)) / 0x1_0000_0000;
    assert(low % 0x1_0000_0000_0000_0000 == low);
}

} // verus!
