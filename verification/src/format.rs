//! Human-readable byte sizes ("512 B", "1.5 KB", "3.0 MB", ...).
//!
//! The size is shown in the largest of B, KB, MB and GB (steps of 1024) in
//! which it is at least one, with one decimal place for every unit but bytes.
//! The scaled value is the size as a double-precision number (rounded to 53
//! significant bits, ties to even) divided by a power of 1024, and its
//! decimal place is rounded half to even, exactly as `{:.1}` prints a double.

use vstd::prelude::*;
use vstd::arithmetic::power2::*;
use vstd::arithmetic::div_mod::*;
use crate::text::{decimal, digit_char, push_char, push_decimal, digit};

verus! {

/// Sizes below this many bytes are shown as a plain byte count.
pub const KIB: u64 = 1024;

/// Rounds `n / d` to the nearest integer, ties to the even neighbour.
pub open spec fn round_half_even(n: nat, d: nat) -> nat
    recommends
        d > 0,
{
    let q = n / d;
    let r = n % d;
    if 2 * r < d {
        q
    } else if 2 * r > d {
        q + 1
    } else if q % 2 == 0 {
        q
    } else {
        q + 1
    }
}

/// The exponent `e` from which on `b / 2^e` fits in the 53 significant bits of a double.
pub open spec fn mantissa_shift(b: nat, e: nat) -> nat
    decreases 64 - e,
{
    if e >= 64 || b / pow2(e) < pow2(53) {
        e
    } else {
        mantissa_shift(b, e + 1)
    }
}

/// The value of `b` converted to a double (round to nearest, ties to even).
pub open spec fn as_double(b: nat) -> nat {
    let e = mantissa_shift(b, 0);
    round_half_even(b, pow2(e)) * pow2(e)
}

/// The unit index (0 = B, 1 = KB, 2 = MB, 3 = GB) used for a value `v`.
pub open spec fn unit_index(v: nat) -> nat {
    if v >= pow2(30) {
        3
    } else if v >= pow2(20) {
        2
    } else if v >= pow2(10) {
        1
    } else {
        0
    }
}

/// The name of a unit.
pub open spec fn unit_name(u: nat) -> Seq<char> {
    if u == 0 {
        seq!['B']
    } else if u == 1 {
        seq!['K', 'B']
    } else if u == 2 {
        seq!['M', 'B']
    } else {
        seq!['G', 'B']
    }
}

/// The text that `format_bytes` gives for `bytes`.
pub open spec fn format_bytes_spec(bytes: nat) -> Seq<char> {
    if bytes < 1024 {
        decimal(bytes) + seq![' '] + unit_name(0)
    } else {
        let v = as_double(bytes);
        let u = unit_index(v);
        let t = round_half_even(10 * v, pow2(10 * u));
        decimal(t / 10) + seq!['.'] + seq![digit_char(t % 10)] + seq![' '] + unit_name(u)
    }
}

/// Exact `n / d` rounded half to even.
fn div_round_half_even(n: u128, d: u128) -> (q: u128)
    requires
        d > 0,
        n / d < u128::MAX,
    ensures
        q == round_half_even(n as nat, d as nat),
{
    let q = n / d;
    let r = n % d;
    if r < d - r {
        q
    } else if r > d - r {
        q + 1
    } else if q % 2 == 0 {
        q
    } else {
        q + 1
    }
}

/// The value of `bytes` as a double, as an exact integer.
fn double_value(bytes: u64) -> (v: u128)
    ensures
        v == as_double(bytes as nat),
        v <= pow2(65),
{
    let b = bytes as u128;
    let mut e: u32 = 0;
    let mut p: u128 = 1;
    proof {
        lemma2_to64();
        lemma2_to64_rest();
        lemma_pow2(0);
    }
    while e < 64 && b / p >= 0x20_0000_0000_0000
        invariant
            e <= 64,
            p == pow2(e as nat),
            p <= 0x1_0000_0000_0000_0000,
            p > 0,
            b == bytes as nat,
            mantissa_shift(b as nat, e as nat) == mantissa_shift(b as nat, 0),
            pow2(53) == 0x20_0000_0000_0000,
            pow2(64) == 0x1_0000_0000_0000_0000,
        decreases 64 - e,
    {
        proof {
            lemma_pow2_unfold((e + 1) as nat);
            if e + 1 < 64 {
                lemma_pow2_strictly_increases((e + 1) as nat, 64);
            }
        }
        e = e + 1;
        p = p * 2;
    }
    assert(mantissa_shift(b as nat, e as nat) == e);
    proof {
        lemma_div_is_ordered_by_denominator(b as int, 1, p as int);
    }
    let q = div_round_half_even(b, p);
    proof {
        lemma_fundamental_div_mod(b as int, p as int);
        lemma_mod_pos_bound(b as int, p as int);
        let bp = b / p;
        assert(p * bp <= b);
        assert(q <= bp + 1);
        assert(q * p <= b + p) by (nonlinear_arith)
            requires
                q <= bp + 1,
                p * bp <= b,
                p > 0,
        ;
        lemma_pow2_unfold(65);
    }
    q * p
}

/// Formats a byte count for display: "N B" below 1 KB, otherwise the size in
/// KB, MB or GB (powers of 1024) with one decimal place, e.g. "1.5 KB".
pub fn format_bytes(bytes: u64) -> (res: String)
    ensures
        res@ == format_bytes_spec(bytes as nat),
{
    let mut s = String::new();
    if bytes < 1024 {
        push_decimal(&mut s, bytes as u128);
        push_char(&mut s, ' ');
        push_char(&mut s, 'B');
        return s;
    }
    let v = double_value(bytes);
    proof {
        lemma2_to64();
        lemma2_to64_rest();
        lemma_pow2(0);
        lemma_pow2_unfold(65);
    }
    let (unit, div): (u32, u128) = if v >= 0x4000_0000 {
        (3, 0x4000_0000)
    } else if v >= 0x10_0000 {
        (2, 0x10_0000)
    } else if v >= 0x400 {
        (1, 0x400)
    } else {
        (0, 1)
    };
    assert(unit == unit_index(v as nat));
    assert(div == pow2(10 * unit as nat));
    proof {
        lemma_div_is_ordered_by_denominator((10 * v) as int, 1, div as int);
    }
    let t = div_round_half_even(10 * v, div);
    push_decimal(&mut s, t / 10);
    push_char(&mut s, '.');
    push_char(&mut s, digit(t % 10));
    push_char(&mut s, ' ');
    if unit == 0 {
        push_char(&mut s, 'B');
    } else {
        if unit == 1 {
            push_char(&mut s, 'K');
        } else if unit == 2 {
            push_char(&mut s, 'M');
        } else {
            push_char(&mut s, 'G');
        }
        push_char(&mut s, 'B');
    }
    s
}

} // verus!
