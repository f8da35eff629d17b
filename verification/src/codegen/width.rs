//! The width of the unsigned integer type that numeric capture getters parse into.
use vstd::arithmetic::power::{lemma_pow_adds, lemma_pow_increases, lemma_pow_positive, pow};
use vstd::prelude::*;

verus! {

/// The least `k` with `2^k >= x`: the number of bits needed to count `x` values.
pub open spec fn ceil_log2(x: nat) -> nat
    decreases x,
{
    if x <= 1 {
        0
    } else {
        1 + ceil_log2(((x + 1) / 2) as nat)
    }
}

/// `ceil_log2(x)` is the least exponent whose power of two reaches `x`.
pub proof fn lemma_ceil_log2(x: nat)
    ensures
        x <= pow(2, ceil_log2(x)),
        ceil_log2(x) > 0 ==> pow(2, (ceil_log2(x) - 1) as nat) < x,
    decreases x,
{
    if x > 1 {
        let y = ((x + 1) / 2) as nat;
        lemma_ceil_log2(y);
        let c = ceil_log2(y);
        assert(ceil_log2(x) == c + 1);
        lemma_pow_adds(2, c, 1);
        vstd::arithmetic::power::lemma_pow1(2);
        assert(pow(2, c + 1) == 2 * pow(2, c));
        assert(x <= pow(2, ceil_log2(x)));
        if c > 0 {
            lemma_pow_adds(2, (c - 1) as nat, 1);
            assert(pow(2, c) == 2 * pow(2, (c - 1) as nat));
            assert(pow(2, c) < x);
        } else {
            vstd::arithmetic::power::lemma_pow0(2);
        }
    } else {
        vstd::arithmetic::power::lemma_pow0(2);
    }
}

/// The number of bits that `d` decimal digits need: `ceil(d * log2(10))`, the least `b`
/// with `2^b >= 10^d`.
pub open spec fn digit_bits(d: nat) -> nat {
    ceil_log2(pow(10, d) as nat)
}

/// The width in bits of the integer type for values of `d` decimal digits, or `None` where
/// they need more than 128 bits. The width is `2 ^ ceil(log2(bits))` (with `^` the bitwise
/// exclusive or), brought into `8..=128`.
pub open spec fn numeric_width(d: nat) -> Option<nat> {
    let b = digit_bits(d);
    if b > 128 {
        None
    } else {
        let x = 2u64 ^ (ceil_log2(b) as u64);
        Some(
            if x < 8 {
                8
            } else if x > 128 {
                128
            } else {
                x as nat
            },
        )
    }
}

/// `ceil_log2` does not decrease.
proof fn lemma_ceil_log2_monotone(x: nat, y: nat)
    requires
        x <= y,
    ensures
        ceil_log2(x) <= ceil_log2(y),
    decreases y,
{
    if x > 1 {
        lemma_ceil_log2_monotone(((x + 1) / 2) as nat, ((y + 1) / 2) as nat);
    }
}

/// The powers that bound the digit counts handled.
proof fn lemma_power_constants()
    ensures
        pow(2, 128) == 0x1_0000_0000_0000_0000_0000_0000_0000_0000,
        pow(10, 38) == 100_000_000_000_000_000_000_000_000_000_000_000_000,
        pow(10, 39) == 1_000_000_000_000_000_000_000_000_000_000_000_000_000,
{
    assert(pow(10, 19) == 10_000_000_000_000_000_000) by {
        reveal_with_fuel(pow, 20);
    }
    assert(pow(10, 20) == 100_000_000_000_000_000_000) by {
        reveal_with_fuel(pow, 21);
    }
    lemma_pow_adds(10, 19, 19);
    lemma_pow_adds(10, 19, 20);
    assert(pow(2, 16) == 65536) by {
        reveal_with_fuel(pow, 17);
    }
    lemma_pow_adds(2, 16, 16);
    assert(pow(2, 32) == 0x1_0000_0000);
    lemma_pow_adds(2, 32, 32);
    assert(pow(2, 64) == 0x1_0000_0000_0000_0000);
    lemma_pow_adds(2, 64, 64);
    assert(pow(2, 128) == 0x1_0000_0000_0000_0000_0000_0000_0000_0000);
}

/// An exponent whose power of two reaches `x` bounds `ceil_log2(x)`.
proof fn lemma_ceil_log2_bound(x: nat, e: nat)
    requires
        x <= pow(2, e),
    ensures
        ceil_log2(x) <= e,
{
    lemma_ceil_log2(x);
    let c = ceil_log2(x);
    if c > e {
        lemma_pow_increases(2, e, (c - 1) as nat);
    }
}

/// The least `k` with `2^k >= x`.
fn ceil_log2_exec(x: u128) -> (r: u32)
    ensures
        r == ceil_log2(x as nat),
{
    proof {
        lemma_power_constants();
        lemma_ceil_log2_bound(x as nat, 128);
    }
    let mut v = x;
    let mut k: u32 = 0;
    while v > 1
        invariant
            ceil_log2(x as nat) == k + ceil_log2(v as nat),
            ceil_log2(x as nat) <= 128,
        decreases v,
    {
        let next = v / 2 + v % 2;
        assert(next as nat == ((v as nat + 1) / 2) as nat);
        v = next;
        k = k + 1;
    }
    k
}

/// The width in bits of the integer type for values of `d` decimal digits, or `None` where
/// they need more than 128 bits.
pub fn numeric_width_exec(d: usize) -> (r: Option<u32>)
    ensures
        r matches Some(w) ==> numeric_width(d as nat) == Some(w as nat),
        r is None ==> numeric_width(d as nat) is None,
{
    if d >= 39 {
        proof {
            lemma_ceil_log2(pow(10, d as nat) as nat);
            lemma_pow_increases(10, 39, d as nat);
            lemma_power_constants();
            if digit_bits(d as nat) <= 128 {
                lemma_pow_increases(2, digit_bits(d as nat), 128);
            }
        }
        return None;
    }
    let mut p: u128 = 1;
    let mut i: usize = 0;
    proof {
        vstd::arithmetic::power::lemma_pow0(10);
    }
    while i < d
        invariant
            i <= d <= 38,
            p == pow(10, i as nat),
        decreases d - i,
    {
        proof {
            lemma_pow_increases(10, (i + 1) as nat, 38);
            lemma_power_constants();
            lemma_pow_adds(10, i as nat, 1);
            vstd::arithmetic::power::lemma_pow1(10);
            assert(pow(10, (i + 1) as nat) == 10 * pow(10, i as nat));
        }
        p = p * 10;
        i = i + 1;
    }
    proof {
        lemma_pow_positive(10, d as nat);
    }
    let bits = ceil_log2_exec(p);
    if bits > 128 {
        return None;
    }
    let k = ceil_log2_exec(bits as u128);
    let x: u64 = 2u64 ^ (k as u64);
    let w: u32 = if x < 8 {
        8
    } else if x > 128 {
        128
    } else {
        x as u32
    };
    Some(w)
}

} // verus!
