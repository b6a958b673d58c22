//! File sizes as the listing shows them.

use vstd::prelude::*;

use crate::text::{decimal_text, joined};

verus! {

/// `n / d` rounded to the nearest integer, a tie going to the even one.
pub open spec fn round_half_even(n: nat, d: nat) -> nat
    recommends
        d > 0,
{
    let rest = n % d;
    if 2 * rest > d || (2 * rest == d && (n / d) % 2 == 1) {
        n / d + 1
    } else {
        n / d
    }
}

/// The distance between neighbouring single-precision numbers at `n`: one below two to the power
/// of 24, where every integer has a number of its own, and twice as much for every further bit.
pub open spec fn single_step(n: nat) -> nat
    decreases n,
{
    if n < 0x100_0000 {
        1
    } else {
        2 * single_step(n / 2)
    }
}

/// The single-precision number nearest to `n`.
pub open spec fn single(n: nat) -> nat {
    round_half_even(n, single_step(n)) * single_step(n)
}

/// How many tenths of `unit` the listing shows for a size of `n`. The size is taken in single
/// precision; the units are powers of two, so that dividing by one loses nothing.
pub open spec fn tenths(n: nat, unit: nat) -> nat {
    round_half_even(10 * single(n), unit)
}

/// A number of tenths, written with one decimal.
pub open spec fn one_decimal(t: nat) -> Seq<char> {
    crate::text::decimal(t / 10) + "."@ + crate::text::decimal(t % 10)
}

/// The unit in which a size of `n` bytes is written.
pub open spec fn unit_of(n: nat) -> nat {
    if n < 1024 {
        1
    } else if n < 1024 * 1024 {
        1024
    } else if n < 1024 * 1024 * 1024 {
        1024 * 1024
    } else {
        1024 * 1024 * 1024
    }
}

/// The name of a unit.
pub open spec fn unit_name(unit: nat) -> Seq<char> {
    if unit == 1 {
        " B"@
    } else if unit == 1024 {
        " KB"@
    } else if unit == 1024 * 1024 {
        " MB"@
    } else {
        " GB"@
    }
}

/// How many tenths of its unit a size of `n` bytes reads. Bytes are written exactly.
pub open spec fn read_tenths(n: nat) -> nat {
    if unit_of(n) == 1 {
        10 * n
    } else {
        tenths(n, unit_of(n))
    }
}

/// The text that stands for a size of `n` bytes: bytes as a whole number, other units with one
/// decimal.
pub open spec fn size_text(n: nat) -> Seq<char> {
    (if unit_of(n) == 1 {
        crate::text::decimal(read_tenths(n) / 10)
    } else {
        one_decimal(read_tenths(n))
    }) + unit_name(unit_of(n))
}

/// Rounding keeps order.
proof fn lemma_round_ordered(a: nat, b: nat, d: nat)
    requires
        d > 0,
        a <= b,
    ensures
        round_half_even(a, d) <= round_half_even(b, d),
{
    vstd::arithmetic::div_mod::lemma_div_is_ordered(a as int, b as int, d as int);
    vstd::arithmetic::div_mod::lemma_fundamental_div_mod(a as int, d as int);
    vstd::arithmetic::div_mod::lemma_fundamental_div_mod(b as int, d as int);
}

/// A multiple of `d` is rounded to itself.
proof fn lemma_round_multiple(q: nat, d: nat)
    requires
        d > 0,
    ensures
        round_half_even(q * d, d) == q,
{
    vstd::arithmetic::div_mod::lemma_div_by_multiple(q as int, d as int);
    vstd::arithmetic::div_mod::lemma_mod_multiples_basic(q as int, d as int);
}

/// A fraction is rounded the same when it is expanded.
proof fn lemma_round_expanded(n: nat, d: nat, c: nat)
    requires
        d > 0,
        c > 0,
    ensures
        round_half_even(c * n, c * d) == round_half_even(n, d),
{
    let (q, r) = (n / d, n % d);
    vstd::arithmetic::div_mod::lemma_fundamental_div_mod(n as int, d as int);
    assert(c * n == q * (c * d) + c * r) by (nonlinear_arith)
        requires
            n == d * q + r,
    ;
    assert(0 <= c * r < c * d) by (nonlinear_arith)
        requires
            0 <= r < d,
            c > 0,
    ;
    assert(0 < c * d) by (nonlinear_arith)
        requires
            c > 0,
            d > 0,
    ;
    vstd::arithmetic::div_mod::lemma_fundamental_div_mod_converse(
        (c * n) as int,
        (c * d) as int,
        q as int,
        (c * r) as int,
    );
    assert(2 * (c * r) > c * d <==> 2 * r > d) by (nonlinear_arith)
        requires
            c > 0,
    ;
    assert(2 * (c * r) == c * d <==> 2 * r == d) by (nonlinear_arith)
        requires
            c > 0,
    ;
}

/// The numbers that have a step in common, and that steps grow by doubling.
proof fn lemma_steps(m: nat, n: nat)
    requires
        m <= n,
    ensures
        0 < single_step(m) <= single_step(n),
        m < 0x100_0000 * single_step(m),
        n >= 0x100_0000 ==> 0x80_0000 * single_step(n) <= n,
        n < 0x100_0000 ==> single_step(n) == 1,
        single_step(m) < single_step(n) ==> 2 * single_step(m) <= single_step(n),
    decreases n,
{
    if n >= 0x100_0000 {
        lemma_steps(m / 2, n / 2);
        if m < 0x100_0000 {
            lemma_steps(n / 2, n / 2);
        }
    }
}

/// Single precision keeps order.
proof fn lemma_single_ordered(m: nat, n: nat)
    requires
        m <= n,
    ensures
        single(m) <= single(n),
{
    let (s, t) = (single_step(m), single_step(n));
    lemma_steps(m, n);
    if s == t {
        lemma_round_ordered(m, n, s);
        assert(round_half_even(m, s) * s <= round_half_even(n, s) * s) by (nonlinear_arith)
            requires
                round_half_even(m, s) <= round_half_even(n, s),
        ;
    } else {
        let edge = 0x100_0000 * s;
        lemma_round_ordered(m, edge, s);
        lemma_round_multiple(0x100_0000, s);
        assert(round_half_even(m, s) * s <= edge) by (nonlinear_arith)
            requires
                round_half_even(m, s) <= 0x100_0000,
                edge == 0x100_0000 * s,
        ;
        lemma_round_ordered(0x80_0000 * t, n, t);
        lemma_round_multiple(0x80_0000, t);
        assert(0x80_0000 * t <= round_half_even(n, t) * t) by (nonlinear_arith)
            requires
                0x80_0000 <= round_half_even(n, t),
        ;
    }
}

/// Small numbers are numbers of single precision.
proof fn lemma_single_small(n: nat)
    requires
        n < 0x100_0000,
    ensures
        single(n) == n,
{
    lemma_round_multiple(n, 1);
}

/// Doubling loses nothing in single precision.
proof fn lemma_single_doubled(n: nat)
    ensures
        single(2 * n) == 2 * single(n),
{
    let s = single_step(n);
    lemma_steps(n, n);
    if 2 * n < 0x100_0000 {
        lemma_single_small(n);
        lemma_single_small(2 * n);
    } else {
        assert((2 * n) / 2 == n);
        lemma_round_expanded(n, s, 2);
        assert(round_half_even(n, s) * (2 * s) == 2 * (round_half_even(n, s) * s))
            by (nonlinear_arith);
    }
}

/// Powers of two lose nothing in single precision.
proof fn lemma_single_kibi(n: nat)
    ensures
        single(1024 * n) == 1024 * single(n),
{
    lemma_single_doubled(n);
    lemma_single_doubled(2 * n);
    lemma_single_doubled(4 * n);
    lemma_single_doubled(8 * n);
    lemma_single_doubled(16 * n);
    lemma_single_doubled(32 * n);
    lemma_single_doubled(64 * n);
    lemma_single_doubled(128 * n);
    lemma_single_doubled(256 * n);
    lemma_single_doubled(512 * n);
}

/// A unit reads as one of itself, and what is less does not read as more.
proof fn lemma_unit_bounds(n: nat, unit: nat)
    requires
        unit == 1024 || unit == 1024 * 1024 || unit == 1024 * 1024 * 1024,
    ensures
        n >= unit ==> tenths(n, unit) >= 10,
        n <= 1024 * unit ==> tenths(n, unit) <= 10240,
{
    lemma_single_small(1);
    lemma_single_kibi(1);
    lemma_single_kibi(1024);
    lemma_single_kibi(1024 * 1024);
    lemma_single_kibi(1024 * 1024 * 1024);
    if n >= unit {
        lemma_single_ordered(unit, n);
        lemma_round_ordered(10 * unit, 10 * single(n), unit);
        lemma_round_multiple(10, unit);
    }
    if n <= 1024 * unit {
        lemma_single_ordered(n, 1024 * unit);
        lemma_round_ordered(10 * single(n), 10240 * unit, unit);
        lemma_round_multiple(10240, unit);
    }
}

/// Law: a larger size never reads smaller, whatever the units.
pub proof fn larger_reads_no_smaller(m: nat, n: nat)
    requires
        m <= n,
    ensures
        read_tenths(m) * unit_of(m) <= read_tenths(n) * unit_of(n),
{
    let (u, v) = (unit_of(m), unit_of(n));
    if v > 1 {
        lemma_unit_bounds(n, v);
    }
    if u == v {
        if u > 1 {
            lemma_single_ordered(m, n);
            lemma_round_ordered(10 * single(m), 10 * single(n), u);
        }
    } else if u > 1 {
        lemma_unit_bounds(m, u);
    }
    assert(u == v && read_tenths(m) <= read_tenths(n) ==> read_tenths(m) * u <= read_tenths(n) * v)
        by (nonlinear_arith);
    if u < v {
        assert(read_tenths(m) <= 10240);
        assert(1024 * u <= v);
    }
    assert(1024 * u <= v && read_tenths(m) <= 10240 && 10 <= read_tenths(n) ==> read_tenths(m) * u
        <= read_tenths(n) * v) by (nonlinear_arith);
}

/// Law: below sixteen mebibytes, where single precision is exact, a size reads as the nearest tenth
/// of its unit.
pub proof fn small_sizes_read_true(n: nat)
    requires
        n < 0x100_0000,
    ensures
        2 * (10 * n - read_tenths(n) * unit_of(n)) <= unit_of(n),
        2 * (read_tenths(n) * unit_of(n) - 10 * n) <= unit_of(n),
{
    let u = unit_of(n);
    lemma_single_small(n);
    if u > 1 {
        let (q, r) = ((10 * n) / u, (10 * n) % u);
        vstd::arithmetic::div_mod::lemma_fundamental_div_mod((10 * n) as int, u as int);
        assert((q + 1) * u == q * u + u) by (nonlinear_arith);
        assert(u * q == q * u) by (nonlinear_arith);
    }
}

/// Law: a size that is 1024 times as large reads as the same number, one unit up, as long as there
/// is one.
pub proof fn next_unit_reads_the_same(n: nat)
    requires
        0 < n < 1024 * 1024 * 1024,
    ensures
        unit_of(1024 * n) == 1024 * unit_of(n),
        read_tenths(1024 * n) == read_tenths(n),
{
    let u = unit_of(n);
    lemma_single_kibi(n);
    if u == 1 {
        lemma_single_small(n);
        lemma_round_multiple(10 * n, 1024);
    } else {
        lemma_round_expanded(10 * single(n), u, 1024);
    }
}

/// Divides, rounding to the nearest integer with ties to even.
fn divide_half_even(n: u128, d: u128) -> (q: u128)
    requires
        0 < d <= 0x1_0000_0000_0000_0000,
        n < 0x1_0000_0000_0000_0000_0000_0000,
    ensures
        q == round_half_even(n as nat, d as nat),
{
    let quotient = n / d;
    let rest = n % d;
    proof {
        assert(rest < d);
        assert(quotient <= n) by (nonlinear_arith)
            requires
                quotient == n / d,
                d > 0,
        ;
    }
    if 2 * rest > d || (2 * rest == d && quotient % 2 == 1) {
        quotient + 1
    } else {
        quotient
    }
}

/// Rounding to a multiple of `d` moves a number by less than `d`.
proof fn lemma_round_close(n: nat, d: nat)
    requires
        d > 0,
    ensures
        round_half_even(n, d) * d <= n + d,
{
    assert((n / d) * d + n % d == n) by (nonlinear_arith)
        requires
            d > 0,
    ;
    assert((n / d + 1) * d == (n / d) * d + d) by (nonlinear_arith);
}

/// Steps are positive and small beside the numbers they stand at.
proof fn lemma_step(n: nat)
    ensures
        0 < single_step(n) <= n + 1,
        n >= 0x100_0000 ==> 2 * single_step(n) <= n,
    decreases n,
{
    if n >= 0x100_0000 {
        lemma_step(n / 2);
    }
}

/// Computes the single-precision number nearest to `n`.
fn single_value(n: u64) -> (v: u128)
    ensures
        v == single(n as nat),
        v <= 0x2_0000_0000_0000_0000,
{
    let mut step: u128 = 1;
    let mut rest: u64 = n;
    proof {
        lemma_step(n as nat);
    }
    while rest >= 0x100_0000
        invariant
            single_step(n as nat) == step * single_step(rest as nat),
            0 < single_step(n as nat) <= n + 1,
            0 < step,
        decreases rest,
    {
        let ghost inner = single_step((rest / 2) as nat);
        proof {
            lemma_step((rest / 2) as nat);
            assert(step * (2 * inner) == (2 * step) * inner) by (nonlinear_arith);
            assert(2 * step <= (2 * step) * inner) by (nonlinear_arith)
                requires
                    inner >= 1,
                    step > 0,
            ;
        }
        step = 2 * step;
        rest = rest / 2;
    }
    proof {
        lemma_round_close(n as nat, single_step(n as nat));
        assert(step * 1 == step);
    }
    let q = divide_half_even(n as u128, step);
    q * step
}

/// Writes a size with one decimal, in the given unit.
fn in_unit(bytes: u64, unit: u128, name: &str) -> (text: String)
    requires
        0 < unit <= 1024 * 1024 * 1024,
    ensures
        text@ == one_decimal(tenths(bytes as nat, unit as nat)) + name@,
{
    let scaled = 10 * single_value(bytes);
    let t = divide_half_even(scaled, unit);
    let mut text = decimal_text(t / 10);
    text.append(".");
    text.append(decimal_text(t % 10).as_str());
    text.append(name);
    text
}

/// Writes a file size for the listing: whole bytes below a kibibyte, and otherwise one decimal in
/// the largest unit up to gibibytes that is not larger than the size.
pub fn format_size(bytes: usize) -> (text: String)
    ensures
        text@ == size_text(bytes as nat),
{
    let n = bytes as u64;
    if n < 1024 {
        joined(decimal_text(n as u128).as_str(), " B")
    } else if n < 1024 * 1024 {
        in_unit(n, 1024, " KB")
    } else if n < 1024 * 1024 * 1024 {
        in_unit(n, 1024 * 1024, " MB")
    } else {
        in_unit(n, 1024 * 1024 * 1024, " GB")
    }
}

} // verus!
