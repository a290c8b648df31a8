//! Human-readable file sizes.
use vstd::prelude::*;
use crate::text::{decimal, digit, digit_char, push_char, push_decimal};

verus! {

/// The spacing of the doubles next to `x` (a unit in the last place of a
/// 53-bit significand), for `x` below 2^64.
pub open spec fn double_spacing(x: nat) -> nat {
    if x < 0x20_0000_0000_0000 { 1 }
    else if x < 0x40_0000_0000_0000 { 2 }
    else if x < 0x80_0000_0000_0000 { 4 }
    else if x < 0x100_0000_0000_0000 { 8 }
    else if x < 0x200_0000_0000_0000 { 16 }
    else if x < 0x400_0000_0000_0000 { 32 }
    else if x < 0x800_0000_0000_0000 { 64 }
    else if x < 0x1000_0000_0000_0000 { 128 }
    else if x < 0x2000_0000_0000_0000 { 256 }
    else if x < 0x4000_0000_0000_0000 { 512 }
    else if x < 0x8000_0000_0000_0000 { 1024 }
    else { 2048 }
}

/// `n / d` rounded to the nearest integer, ties to the even neighbour.
pub open spec fn div_round_even(n: nat, d: nat) -> nat {
    let q = n / d;
    let r = n % d;
    if 2 * r > d || (2 * r == d && q % 2 == 1) { q + 1 } else { q }
}

/// The integer that a conversion of `x` to a double yields
/// (round to nearest, ties to even).
pub open spec fn as_double(x: nat) -> nat {
    let u = double_spacing(x);
    div_round_even(x, u) * u
}

/// The text of `v / d` with one decimal place, where the last place is
/// rounded half to even as formatting a double with precision 1 does;
/// `v / d` is exact in a double because `d` is a power of two.
pub open spec fn one_decimal(v: nat, d: nat) -> Seq<char> {
    let t = div_round_even(v * 10, d);
    decimal(t / 10).push('.').push(digit_char(t % 10))
}

/// The text that names the size `size` in bytes: whole bytes below one
/// KiB, otherwise KB, MB or GB with one decimal place.
pub open spec fn size_text(size: nat) -> Seq<char> {
    if size < 0x400 {
        decimal(size) + " B"@
    } else if size < 0x10_0000 {
        one_decimal(size, 0x400) + " KB"@
    } else if size < 0x4000_0000 {
        one_decimal(size, 0x10_0000) + " MB"@
    } else {
        one_decimal(as_double(size), 0x4000_0000) + " GB"@
    }
}

fn spacing(x: u64) -> (u: u128)
    ensures
        u == double_spacing(x as nat),
        1 <= u <= 2048,
{
    if x < 0x20_0000_0000_0000 { 1 }
    else if x < 0x40_0000_0000_0000 { 2 }
    else if x < 0x80_0000_0000_0000 { 4 }
    else if x < 0x100_0000_0000_0000 { 8 }
    else if x < 0x200_0000_0000_0000 { 16 }
    else if x < 0x400_0000_0000_0000 { 32 }
    else if x < 0x800_0000_0000_0000 { 64 }
    else if x < 0x1000_0000_0000_0000 { 128 }
    else if x < 0x2000_0000_0000_0000 { 256 }
    else if x < 0x4000_0000_0000_0000 { 512 }
    else if x < 0x8000_0000_0000_0000 { 1024 }
    else { 2048 }
}

fn round_even(n: u128, d: u128) -> (q: u128)
    requires
        d > 0,
        d <= 0x1_0000_0000_0000_0000,
        n <= 0x1_0000_0000_0000_0000_0000,
    ensures
        q == div_round_even(n as nat, d as nat),
        q <= n / d + 1,
{
    let q = n / d;
    let r = n % d;
    if 2 * r > d || (2 * r == d && q % 2 == 1) {
        q + 1
    } else {
        q
    }
}

fn double_value(x: u64) -> (v: u128)
    ensures
        v == as_double(x as nat),
        v <= 0x1_0000_0000_0000_0000,
{
    let u = spacing(x);
    let xn = x as u128;
    let q = round_even(xn, u);
    proof {
        vstd::arithmetic::div_mod::lemma_fundamental_div_mod(xn as int, u as int);
        assert(q * u <= xn + u) by (nonlinear_arith)
            requires
                q <= xn / u + 1,
                xn == u * (xn / u) + xn % u,
                0 <= xn % u,
                u >= 1,
        ;
    }
    q * u
}

fn push_one_decimal(s: &mut String, v: u128, d: u128)
    requires
        v <= 0x1_0000_0000_0000_0000,
        0x400 <= d <= 0x4000_0000,
    ensures
        final(s)@ == old(s)@ + one_decimal(v as nat, d as nat),
{
    let t = round_even(v * 10, d);
    proof {
        let n: int = v as int * 10;
        assert(n / (d as int) <= n / 0x400) by (nonlinear_arith)
            requires d >= 0x400, n >= 0;
    }
    let whole = (t / 10) as u64;
    let tenth = (t % 10) as u64;
    push_decimal(s, whole);
    push_char(s, '.');
    push_char(s, digit(tenth));
}

/// Formats a size in bytes: `"512 B"`, `"1.5 KB"`, `"3.0 MB"`, `"2.0 GB"`.
pub fn format_size(size: u64) -> (text: String)
    ensures
        text@ == size_text(size as nat),
{
    let mut s = String::new();
    if size < 0x400 {
        push_decimal(&mut s, size);
        s.append(" B");
    } else if size < 0x10_0000 {
        push_one_decimal(&mut s, size as u128, 0x400);
        s.append(" KB");
    } else if size < 0x4000_0000 {
        push_one_decimal(&mut s, size as u128, 0x10_0000);
        s.append(" MB");
    } else {
        let v = double_value(size);
        push_one_decimal(&mut s, v, 0x4000_0000);
        s.append(" GB");
    }
    s
}

} // verus!
