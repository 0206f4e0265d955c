//! Byte counts: human-readable sizes and the space estimate for a full
//! snapshot.  Both follow what the `f64` arithmetic of the tool computes,
//! reproduced exactly with integers.

use vstd::prelude::*;
use crate::text::{decimal, push_decimal, push_str};

verus! {

/// 2^53: below it every integer is an `f64`.
pub open spec fn two_pow_53() -> nat {
    0x20_0000_0000_0000
}

/// Division rounded to nearest, ties to an even quotient.
pub open spec fn round_div_even(a: nat, d: nat) -> nat {
    let q = a / d;
    let r = a % d;
    if 2 * r > d || (2 * r == d && q % 2 == 1) {
        q + 1
    } else {
        q
    }
}

/// Spacing between neighbouring `f64` values at the magnitude of `n`:
/// 1 below 2^53, doubling with every further binary digit.
pub open spec fn f64_spacing(n: nat) -> nat
    decreases n,
{
    if n < two_pow_53() {
        1
    } else {
        2 * f64_spacing(n / 2)
    }
}

/// The `f64` nearest to `n` (ties to even), which is again an integer.
pub open spec fn to_f64(n: nat) -> nat {
    round_div_even(n, f64_spacing(n)) * f64_spacing(n)
}

/// One decimal place, rounded half to even, of `x / 2^k`: `{:.1}` formatting.
pub open spec fn one_decimal(x: nat, unit: nat) -> Seq<char> {
    let t = round_div_even(10 * x, unit);
    decimal(t / 10) + seq!['.'] + decimal(t % 10)
}

pub open spec fn kib() -> nat { 1024 }
pub open spec fn mib() -> nat { 1024 * 1024 }
pub open spec fn gib() -> nat { 1024 * 1024 * 1024 }

/// Text of a byte count in B, KiB, MiB or GiB with one decimal place.
pub open spec fn format_bytes_text(n: nat) -> Seq<char> {
    let x = to_f64(n);
    if x >= gib() {
        one_decimal(x, gib()) + " GiB"@
    } else if x >= mib() {
        one_decimal(x, mib()) + " MiB"@
    } else if x >= kib() {
        one_decimal(x, kib()) + " KiB"@
    } else {
        decimal(x) + " B"@
    }
}

fn round_div_even_exec(a: u128, d: u128) -> (r: u128)
    requires
        d >= 1,
        a / d < u128::MAX,
    ensures
        r == round_div_even(a as nat, d as nat),
{
    let q = a / d;
    let rem = a % d;
    assert(rem < d);
    if (rem > d - rem) || (rem == d - rem && q % 2 == 1) {
        q + 1
    } else {
        q
    }
}

/// Nearest `f64` to `n`.
fn to_f64_exec(n: u128) -> (x: u128)
    requires
        n < 0x100_0000_0000_0000_0000_0000_0000_0000,
    ensures
        x == to_f64(n as nat),
        x <= 2 * n + 1,
{
    let mut m = n;
    let mut d: u128 = 1;
    while m >= 0x20_0000_0000_0000
        invariant
            d >= 1,
            m == n / d,
            f64_spacing(n as nat) == d * f64_spacing(m as nat),
            d == 1 || d * 0x10_0000_0000_0000 <= n,
            n < 0x100_0000_0000_0000_0000_0000_0000_0000,
        decreases m,
    {
        proof {
            vstd::arithmetic::div_mod::lemma_div_denominator(n as int, d as int, 2);
            assert(f64_spacing(m as nat) == 2 * f64_spacing((m / 2) as nat));
            assert(d * 0x20_0000_0000_0000 <= n) by {
                vstd::arithmetic::div_mod::lemma_fundamental_div_mod(n as int, d as int);
                vstd::arithmetic::mul::lemma_mul_inequality(0x20_0000_0000_0000, m as int, d as int);
                vstd::arithmetic::mul::lemma_mul_is_commutative(m as int, d as int);
            }
            assert(d * f64_spacing(m as nat) == (d * 2) * f64_spacing((m / 2) as nat)) by (nonlinear_arith)
                requires f64_spacing(m as nat) == 2 * f64_spacing((m / 2) as nat);
        }
        m = m / 2;
        d = d * 2;
    }
    proof {
        assert(f64_spacing(m as nat) == 1);
        assert(f64_spacing(n as nat) == d) by (nonlinear_arith)
            requires f64_spacing(n as nat) == d * f64_spacing(m as nat), f64_spacing(m as nat) == 1;
    }
    let q = round_div_even_exec(n, d);
    proof {
        assert(q <= m + 1);
        vstd::arithmetic::div_mod::lemma_fundamental_div_mod(n as int, d as int);
        assert(m * d <= n) by (nonlinear_arith)
            requires n == d * m + n % d, n % d >= 0;
        assert(q * d <= n + d) by (nonlinear_arith)
            requires q <= m + 1, m * d <= n, d >= 1;
        assert(d <= n || d == 1) by (nonlinear_arith)
            requires d == 1 || d * 0x10_0000_0000_0000 <= n, d >= 1;
    }
    q * d
}

fn push_one_decimal(s: &mut String, x: u128, unit: u128)
    requires
        unit == kib() || unit == mib() || unit == gib(),
        x <= 0x2_0000_0000_0000_0000,
    ensures
        final(s)@ == old(s)@ + one_decimal(x as nat, unit as nat),
{
    let tx: u128 = 10 * x;
    let t = round_div_even_exec(tx, unit);
    assert(t <= tx / unit + 1);
    assert(tx / unit <= tx / 1024) by {
        vstd::arithmetic::div_mod::lemma_div_is_ordered_by_denominator(tx as int, 1024, unit as int);
    }
    let whole = (t / 10) as u64;
    let frac = (t % 10) as u64;
    push_decimal(s, whole);
    crate::text::push_char(s, '.');
    push_decimal(s, frac);
    assert(s@ =~= old(s)@ + one_decimal(x as nat, unit as nat));
}

/// Human-readable size: `B` below 1 KiB, else KiB / MiB / GiB with one
/// decimal place, exactly as `{:.1}` prints the `f64` value.
pub fn format_bytes(n: u64) -> (r: String)
    ensures
        r@ == format_bytes_text(n as nat),
{
    let x = to_f64_exec(n as u128);
    let mut s = String::new();
    if x >= 1024 * 1024 * 1024 {
        push_one_decimal(&mut s, x, 1024 * 1024 * 1024);
        push_str(&mut s, " GiB");
    } else if x >= 1024 * 1024 {
        push_one_decimal(&mut s, x, 1024 * 1024);
        push_str(&mut s, " MiB");
    } else if x >= 1024 {
        push_one_decimal(&mut s, x, 1024);
        push_str(&mut s, " KiB");
    } else {
        push_decimal(&mut s, x as u64);
        push_str(&mut s, " B");
    }
    s
}

/// Mantissa of the `f64` closest to 1.1: the margin is this value / 2^52.
pub open spec fn margin_mantissa() -> nat {
    4953959590107546
}

pub open spec fn two_pow_52() -> nat {
    0x10_0000_0000_0000
}

/// `(bytes as f64 * 1.10).ceil() as u64`: the product of the two `f64`
/// values is rounded to the nearest `f64` (computed here in units of
/// 2^-52), rounded up to an integer, and saturated at `u64::MAX`.
pub open spec fn with_margin(bytes: nat) -> nat {
    let units = to_f64(to_f64(bytes) * margin_mantissa());
    let c = ((units + two_pow_52() - 1) as nat) / two_pow_52();
    if c > u64::MAX { u64::MAX as nat } else { c }
}

/// Space to require before a full snapshot.
pub open spec fn full_backup_bytes_needed_spec(latest_usage: Option<u64>) -> nat {
    match latest_usage {
        Some(bytes) => with_margin(bytes as nat),
        None => gib(),
    }
}

/// Bytes a new full snapshot is expected to need: the disk usage of the
/// latest snapshot plus a 10 % safety margin, or 1 GiB when there is no
/// snapshot yet.
pub fn full_backup_bytes_needed(latest_usage: Option<u64>) -> (r: u64)
    ensures
        r == full_backup_bytes_needed_spec(latest_usage),
{
    match latest_usage {
        None => 1024 * 1024 * 1024,
        Some(bytes) => {
            let x = to_f64_exec(bytes as u128);
            let p: u128 = x * 4953959590107546;
            let units = to_f64_exec(p);
            let c = (units + 0x10_0000_0000_0000 - 1) / 0x10_0000_0000_0000;
            if c > 0xffff_ffff_ffff_ffff {
                0xffff_ffff_ffff_ffff
            } else {
                c as u64
            }
        }
    }
}

/// The spacing of `f64` values is 1 below 2^53 and at most `n / 2^52` above.
proof fn lemma_spacing(n: nat)
    ensures
        f64_spacing(n) >= 1,
        n < two_pow_53() ==> f64_spacing(n) == 1,
        n >= two_pow_53() ==> f64_spacing(n) * two_pow_52() <= n,
    decreases n,
{
    if n >= two_pow_53() {
        lemma_spacing(n / 2);
    }
}

/// Rounding to `f64` loses less than one spacing, and nothing below 2^53.
proof fn lemma_to_f64_close(n: nat)
    ensures
        to_f64(n) + f64_spacing(n) > n,
        n < two_pow_53() ==> to_f64(n) == n,
{
    lemma_spacing(n);
    let d = f64_spacing(n);
    let q = n / d;
    vstd::arithmetic::div_mod::lemma_fundamental_div_mod(n as int, d as int);
    let k = round_div_even(n, d);
    assert(k >= q);
    assert(k * d >= q * d) by (nonlinear_arith)
        requires
            k >= q,
            d >= 1,
    ;
    assert(n % d < d);
    if n < two_pow_53() {
        assert(d == 1);
        assert(q == n);
        assert(n % d == 0);
    }
}

/// The space asked of a full snapshot is never less than the disk usage of
/// the latest snapshot it is estimated from.
pub proof fn lemma_margin_covers_usage(bytes: u64)
    ensures
        full_backup_bytes_needed_spec(Some(bytes)) >= bytes,
{
    let b = bytes as nat;
    let m = margin_mantissa();
    let t = two_pow_52();
    let x = to_f64(b);
    lemma_to_f64_close(b);
    lemma_spacing(b);
    let sb = f64_spacing(b);
    let p = x * m;
    lemma_to_f64_close(p);
    lemma_spacing(p);
    let sp = f64_spacing(p);
    let units = to_f64(p);
    // units > p - sp, and p - sp covers b whole units of 2^-52.
    assert(units + sp > p);
    if b < two_pow_53() {
        assert(x == b);
        if p < two_pow_53() {
            assert(sp == 1);
            assert(p == b * m);
            assert(b * m >= b * t) by (nonlinear_arith)
                requires m >= t;
            assert(units + t - 1 >= b * t);
        } else {
            assert(sp * t <= p);
            assert(p == b * m);
            assert((units + t - 1) >= b * t) by (nonlinear_arith)
                requires
                    units + sp > p,
                    sp * t <= p,
                    p == b * m,
                    m == 4953959590107546,
                    t == 0x10_0000_0000_0000,
            ;
        }
    } else {
        assert(sb * t <= b);
        assert(x + sb > b);
        assert(p >= two_pow_53()) by (nonlinear_arith)
            requires
                x + sb > b,
                sb * t <= b,
                b >= 0x20_0000_0000_0000,
                p == x * m,
                m == 4953959590107546,
                t == 0x10_0000_0000_0000,
        ;
        assert(sp * t <= p);
        assert((units + t - 1) >= b * t) by (nonlinear_arith)
            requires
                units + sp > p,
                sp * t <= p,
                x + sb > b,
                sb * t <= b,
                p == x * m,
                m == 4953959590107546,
                t == 0x10_0000_0000_0000,
        ;
    }
    let c = ((units + t - 1) as nat) / t;
    assert(c >= b) by (nonlinear_arith)
        requires
            units + t - 1 >= b * t,
            c == ((units + t - 1) as nat) / t,
            t == 0x10_0000_0000_0000,
    ;
}

} // verus!
