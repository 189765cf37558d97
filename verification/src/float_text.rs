//! Thousandths shown as `f64` shows them: `m as f64 / 1000.0` written with a
//! fixed number of decimals. Doubles are modelled exactly: a value is rounded
//! to a 53-bit significand, an exact half to the even one, and the decimals of
//! the double are then rounded the same way, as `{:.1}` and `{:.2}` do.

use vstd::prelude::*;
use vstd::arithmetic::power2::{
    pow2, lemma2_to64, lemma2_to64_rest, lemma_pow2_adds, lemma_pow2_pos,
    lemma_pow2_strictly_increases, lemma_pow2_unfold,
};
use crate::text::div_round_half_even;

verus! {

/// Whether the ratio `n / d` lies in `[2^52, 2^53) * 2^(f - 128)`: a double
/// near it then has the exponent `f - 128` on a 53-bit significand.
pub open spec fn in_binade(n: nat, d: nat, f: nat) -> bool {
    &&& pow2(52) * d * pow2(f) <= n * pow2(128)
    &&& n * pow2(128) < pow2(53) * d * pow2(f)
}

/// The binade of `n / d` (see `in_binade`).
pub open spec fn binade_of(n: nat, d: nat) -> nat {
    choose|f: nat| in_binade(n, d, f)
}

/// The double nearest to `n / d`, an exact half going to the even
/// significand, times `2^128` (a whole number for every double met here).
pub open spec fn nearest_double_scaled(n: nat, d: nat) -> nat {
    if n == 0 || d == 0 {
        0
    } else {
        let f = binade_of(n, d);
        div_round_half_even(n * pow2(128), d * pow2(f)) * pow2(f)
    }
}

/// `m as f64 / 1000.0`, times `2^128`: `m` rounded to a double, then the
/// quotient rounded to a double.
pub open spec fn thousandths_as_double_scaled(m: nat) -> nat {
    nearest_double_scaled(nearest_double_scaled(m, 1), 1000 * pow2(128))
}

/// The digits of `m as f64 / 1000.0` shown with one decimal (`scale` 10) or
/// two (`scale` 100), as a whole number: the double times `scale`, rounded to
/// the nearest integer, an exact half to the even one.
pub open spec fn thousandths_double_digits(m: nat, scale: nat) -> nat {
    div_round_half_even(thousandths_as_double_scaled(m) * scale, pow2(128))
}

proof fn lemma_round_scaled(a: nat, b: nat, c: nat)
    requires
        b >= 1,
        c >= 1,
    ensures
        div_round_half_even(a * c, b * c) == div_round_half_even(a, b),
{
    let q = a / b;
    let r = a % b;
    vstd::arithmetic::div_mod::lemma_fundamental_div_mod(a as int, b as int);
    assert(a * c == q * (b * c) + r * c) by (nonlinear_arith)
        requires
            a == b * q + r,
    ;
    assert(0 <= r * c < b * c) by (nonlinear_arith)
        requires
            0 <= r < b,
            c >= 1,
    ;
    vstd::arithmetic::div_mod::lemma_fundamental_div_mod_converse(
        (a * c) as int,
        (b * c) as int,
        q as int,
        (r * c) as int,
    );
    assert((2 * (r * c) > b * c) == (2 * r > b)) by (nonlinear_arith)
        requires
            c >= 1,
    ;
    assert((2 * (r * c) == b * c) == (2 * r == b)) by (nonlinear_arith)
        requires
            c >= 1,
    ;
}

proof fn lemma_binade_order(n: nat, d: nat, f1: nat, f2: nat)
    requires
        d >= 1,
        f1 < f2,
        in_binade(n, d, f1),
    ensures
        !in_binade(n, d, f2),
{
    let k = (f2 - f1) as nat;
    lemma_pow2_adds(f1, k);
    assert(f1 + k == f2);
    lemma_pow2_unfold(k);
    lemma_pow2_pos((k - 1) as nat);
    lemma_pow2_pos(f1);
    lemma_pow2_unfold(53);
    lemma_pow2_pos(52);
    let p1 = pow2(f1);
    let pk = pow2(k);
    let x = n * pow2(128);
    let c = pow2(52);
    assert(x < c * d * (p1 * pk)) by (nonlinear_arith)
        requires
            x < (2 * c) * d * p1,
            pk >= 2,
            p1 > 0,
            d >= 1,
            c > 0,
    ;
}

proof fn lemma_binade_unique(n: nat, d: nat, f: nat)
    requires
        d >= 1,
        in_binade(n, d, f),
    ensures
        binade_of(n, d) == f,
{
    let g = binade_of(n, d);
    assert(in_binade(n, d, g));
    if g < f {
        lemma_binade_order(n, d, g, f);
    } else if f < g {
        lemma_binade_order(n, d, f, g);
    }
}

/// What the rounding loop leaves: `a / b` is `n / d` times `2^-e`, inside `[2^52, 2^53)`.
proof fn lemma_rounding_state(n: nat, d: nat, a: nat, b: nat, e: int)
    requires
        d >= 1,
        n >= 1,
        -128 <= e,
        e >= 0 ==> a == n && b == d * pow2(e as nat),
        e < 0 ==> a == n * pow2((-e) as nat) && b == d,
        pow2(52) * b <= a,
        a < pow2(53) * b,
    ensures
        in_binade(n, d, (128 + e) as nat),
        nearest_double_scaled(n, d) == div_round_half_even(a, b) * pow2((128 + e) as nat),
{
    let f = (128 + e) as nat;
    let c: nat = if e >= 0 {
        pow2(128)
    } else {
        pow2(f)
    };
    lemma_pow2_pos(128);
    lemma_pow2_pos(f);
    if e >= 0 {
        lemma_pow2_pos(e as nat);
        assert(b >= 1) by (nonlinear_arith)
            requires
                b == d * pow2(e as nat),
                d >= 1,
                pow2(e as nat) > 0,
        ;
        lemma_pow2_adds(128, e as nat);
        assert(d * pow2(f) == b * c) by (nonlinear_arith)
            requires
                pow2(f) == pow2(128) * pow2(e as nat),
                b == d * pow2(e as nat),
                c == pow2(128),
        ;
        assert(n * pow2(128) == a * c);
    } else {
        lemma_pow2_adds(f, (-e) as nat);
        assert(f + (-e) as nat == 128);
        assert(n * pow2(128) == a * c) by (nonlinear_arith)
            requires
                pow2(128) == pow2(f) * pow2((-e) as nat),
                a == n * pow2((-e) as nat),
                c == pow2(f),
        ;
        assert(d * pow2(f) == b * c);
    }
    assert(in_binade(n, d, f)) by (nonlinear_arith)
        requires
            pow2(52) * b <= a,
            a < pow2(53) * b,
            c > 0,
            n * pow2(128) == a * c,
            d * pow2(f) == b * c,
    ;
    lemma_binade_unique(n, d, f);
    lemma_round_scaled(a, b, c);
}

proof fn lemma_nearest_scaled(n: nat, d: nat, c: nat, f: nat)
    requires
        n >= 1,
        d >= 1,
        c >= 1,
        in_binade(n, d, f),
    ensures
        nearest_double_scaled(n * c, d * c) == nearest_double_scaled(n, d),
{
    lemma_pow2_pos(f);
    lemma_pow2_pos(128);
    assert(n * c >= 1) by (nonlinear_arith)
        requires
            n >= 1,
            c >= 1,
    ;
    assert(d * c >= 1) by (nonlinear_arith)
        requires
            d >= 1,
            c >= 1,
    ;
    assert(d * pow2(f) >= 1) by (nonlinear_arith)
        requires
            d >= 1,
            pow2(f) > 0,
    ;
    assert(in_binade(n * c, d * c, f)) by (nonlinear_arith)
        requires
            pow2(52) * d * pow2(f) <= n * pow2(128),
            n * pow2(128) < pow2(53) * d * pow2(f),
            c >= 1,
    ;
    lemma_binade_unique(n, d, f);
    lemma_binade_unique(n * c, d * c, f);
    lemma_round_scaled(n * pow2(128), d * pow2(f), c);
    assert(n * c * pow2(128) == n * pow2(128) * c) by (nonlinear_arith);
    assert(d * c * pow2(f) == d * pow2(f) * c) by (nonlinear_arith);
}

fn u128_div_round_half_even(n: u128, d: u128) -> (r: u128)
    requires
        d >= 1,
        n < 0x4000_0000_0000_0000_0000_0000_0000_0000,
    ensures
        r == div_round_half_even(n as nat, d as nat),
        r <= n,
{
    let q = n / d;
    let r = n % d;
    assert(q <= n) by (nonlinear_arith)
        requires
            q == n / d,
            d >= 1,
    ;
    if r > d - r || (r == d - r && q % 2 == 1) {
        assert(q < n) by (nonlinear_arith)
            requires
                q == n / d,
                r == n % d,
                r > 0,
                d >= 1,
        ;
        q + 1
    } else {
        q
    }
}

fn pow2_exec(k: u64) -> (r: u128)
    requires
        k <= 64,
    ensures
        r == pow2(k as nat),
{
    proof {
        lemma2_to64();
    }
    let mut r: u128 = 1;
    let mut i: u64 = 0;
    while i < k
        invariant
            i <= k <= 64,
            r == pow2(i as nat),
            pow2(64) == 0x1_0000_0000_0000_0000,
        decreases k - i,
    {
        proof {
            lemma_pow2_unfold((i + 1) as nat);
            if i + 1 < 64 {
                lemma_pow2_strictly_increases((i + 1) as nat, 64);
            }
        }
        r = r * 2;
        i = i + 1;
    }
    r
}

/// Rounds `n / d` to a double: its significand and its binary exponent.
fn nearest_double_parts(n: u128, d: u128) -> (r: (u128, i64))
    requires
        1 <= n <= 0x1_0000_0000_0000_0000,
        1 <= d <= 1000,
    ensures
        -64 <= r.1 <= 64,
        r.0 <= 0x20_0000_0000_0000,
        in_binade(n as nat, d as nat, (128 + r.1) as nat),
        nearest_double_scaled(n as nat, d as nat) == r.0 * pow2((128 + r.1) as nat),
        r.1 >= 0 ==> pow2(r.1 as nat) * d * 0x10_0000_0000_0000 <= n,
        (d == 1 && r.1 < 0) ==> r.0 == n * pow2((-r.1) as nat),
{
    proof {
        lemma2_to64();
        lemma2_to64_rest();
    }
    let mut a: u128 = n;
    let mut b: u128 = d;
    let mut e: i64 = 0;
    assert(a == n * pow2(0)) by (nonlinear_arith)
        requires
            a == n,
            pow2(0) == 1,
    ;
    while a < 0x10_0000_0000_0000 * b
        invariant
            1 <= d <= 1000,
            1 <= n <= 0x1_0000_0000_0000_0000,
            b == d,
            -64 <= e <= 0,
            a == n * pow2((-e) as nat),
            pow2((-e) as nat) <= a,
            e < 0 ==> a < 0x20_0000_0000_0000 * b,
            pow2(63) == 0x8000_0000_0000_0000,
            pow2(52) == 0x10_0000_0000_0000,
        decreases 64 + e,
    {
        let ghost k = (-e) as nat;
        a = a * 2;
        e = e - 1;
        proof {
            lemma_pow2_unfold(k + 1);
            assert((-e) as nat == k + 1);
            assert(a == n * pow2(k + 1)) by (nonlinear_arith)
                requires
                    a == 2 * (n * pow2(k)),
                    pow2(k + 1) == 2 * pow2(k),
            ;
            lemma_pow2_pos(k + 1);
            assert(pow2(k + 1) <= a) by (nonlinear_arith)
                requires
                    a == n * pow2(k + 1),
                    n >= 1,
                    pow2(k + 1) > 0,
            ;
            if k + 1 > 63 {
                lemma_pow2_strictly_increases(63, k + 1);
            }
        }
    }
    if e == 0 {
        while a >= 0x20_0000_0000_0000 * b
            invariant
                1 <= d <= 1000,
                1 <= n <= 0x1_0000_0000_0000_0000,
                a == n,
                0 <= e <= 64,
                b == d * pow2(e as nat),
                pow2(e as nat) <= b,
                0x10_0000_0000_0000 * b <= a,
                pow2(52) == 0x10_0000_0000_0000,
                pow2(64) == 0x1_0000_0000_0000_0000,
            decreases 64 - e,
        {
            let ghost k = e as nat;
            b = b * 2;
            e = e + 1;
            proof {
                lemma_pow2_unfold(k + 1);
                assert(b == d * pow2(k + 1)) by (nonlinear_arith)
                    requires
                        b == 2 * (d * pow2(k)),
                        pow2(k + 1) == 2 * pow2(k),
                ;
                assert(pow2(k + 1) <= b) by (nonlinear_arith)
                    requires
                        b == d * pow2(k + 1),
                        d >= 1,
                ;
                if k + 1 > 64 {
                    lemma_pow2_strictly_increases(64, k + 1);
                }
            }
        }
    }
    proof {
        lemma_pow2_unfold(53);
        lemma_rounding_state(n as nat, d as nat, a as nat, b as nat, e as int);
    }
    let m = u128_div_round_half_even(a, b);
    assert(m <= 0x20_0000_0000_0000) by (nonlinear_arith)
        requires
            m == div_round_half_even(a as nat, b as nat),
            a < 0x20_0000_0000_0000 * b,
            b >= 1,
    {
        assert(a / b < 0x20_0000_0000_0000) by (nonlinear_arith)
            requires
                a < 0x20_0000_0000_0000 * b,
                b >= 1,
        ;
    }
    proof {
        if e >= 0 {
            assert(pow2(e as nat) * d * 0x10_0000_0000_0000 <= n) by (nonlinear_arith)
                requires
                    b == d * pow2(e as nat),
                    0x10_0000_0000_0000 * b <= a,
                    a == n,
            ;
        }
        if d == 1 && e < 0 {
            assert(a / 1 == a && a % 1 == 0) by (nonlinear_arith);
        }
    }
    (m, e)
}

/// `m` converted to `f64`, a whole number.
fn u64_as_double(m: u64) -> (r: u128)
    requires
        m <= 0x8000_0000_0000_0000,
    ensures
        r * pow2(128) == nearest_double_scaled(m as nat, 1),
        r <= 0x1_0000_0000_0000_0000,
{
    if m == 0 {
        return 0;
    }
    let (s, e) = nearest_double_parts(m as u128, 1);
    proof {
        lemma_pow2_pos(128);
    }
    if e >= 0 {
        let p = pow2_exec(e as u64);
        proof {
            lemma_pow2_adds(e as nat, 128);
            assert((e + 128) as nat == (128 + e) as nat);
            assert(p <= 0x800) by (nonlinear_arith)
                requires
                    p * 1 * 0x10_0000_0000_0000 <= m,
                    m <= 0x8000_0000_0000_0000,
            ;
            assert(s * p <= 0x20_0000_0000_0000 * 0x800) by (nonlinear_arith)
                requires
                    s <= 0x20_0000_0000_0000,
                    p <= 0x800,
            ;
            assert(s * p * pow2(128) == s * pow2((128 + e) as nat)) by (nonlinear_arith)
                requires
                    pow2((128 + e) as nat) == p * pow2(128),
            ;
        }
        s * p
    } else {
        proof {
            let k = (-e) as nat;
            let f = (128 + e) as nat;
            lemma_pow2_adds(f, k);
            assert(f + k == 128);
            assert(s * pow2(f) == m * pow2(128)) by (nonlinear_arith)
                requires
                    s == m * pow2(k),
                    pow2(128) == pow2(f) * pow2(k),
            ;
        }
        m as u128
    }
}

/// The digits of `m as f64 / 1000.0` with one decimal (`scale` 10) or two
/// (`scale` 100), as a whole number (see `thousandths_double_digits`).
pub fn thousandths_double_digits_exec(m: u64, scale: u64) -> (t: u64)
    requires
        m <= 0x8000_0000_0000_0000,
        scale == 10 || scale == 100,
    ensures
        t == thousandths_double_digits(m as nat, scale as nat),
{
    let a = u64_as_double(m);
    proof {
        lemma_pow2_pos(128);
    }
    if a == 0 {
        proof {
            assert(a * pow2(128) == 0);
            assert(nearest_double_scaled(m as nat, 1) == 0);
            assert(thousandths_as_double_scaled(m as nat) == 0);
            assert(thousandths_as_double_scaled(m as nat) * scale == 0);
            let p = pow2(128);
            assert(0nat / p == 0 && 0nat % p == 0) by (nonlinear_arith)
                requires
                    p > 0,
            ;
            assert(div_round_half_even(0, p) == 0);
        }
        return 0;
    }
    let (q, e) = nearest_double_parts(a, 1000);
    proof {
        lemma_nearest_scaled(a as nat, 1000, pow2(128), (128 + e) as nat);
        assert(a * pow2(128) == nearest_double_scaled(m as nat, 1));
        assert(1000 * pow2(128) == (1000 as nat) * pow2(128));
        assert(thousandths_as_double_scaled(m as nat) == q * pow2((128 + e) as nat));
    }
    if e >= 0 {
        let p = pow2_exec(e as u64);
        proof {
            lemma_pow2_adds(e as nat, 128);
            assert((e + 128) as nat == (128 + e) as nat);
            assert(p <= 4) by (nonlinear_arith)
                requires
                    p * 1000 * 0x10_0000_0000_0000 <= a,
                    a <= 0x1_0000_0000_0000_0000,
            ;
            assert(q * p * scale <= 0x20_0000_0000_0000 * 4 * 100) by (nonlinear_arith)
                requires
                    q <= 0x20_0000_0000_0000,
                    p <= 4,
                    scale <= 100,
            ;
            let x = (q * p * scale) as nat;
            assert(q * pow2((128 + e) as nat) * scale == x * pow2(128)) by (nonlinear_arith)
                requires
                    pow2((128 + e) as nat) == p * pow2(128),
                    x == q * p * scale,
            ;
            lemma_round_scaled(x, 1, pow2(128));
            assert(div_round_half_even(x, 1) == x) by (nonlinear_arith);
            assert(1 * pow2(128) == pow2(128));
        }
        (q * p * scale as u128) as u64
    } else {
        let k = (-e) as u64;
        let p = pow2_exec(k);
        proof {
            lemma_pow2_pos(k as nat);
        }
        assert(q * scale <= 0x20_0000_0000_0000 * 100) by (nonlinear_arith)
            requires
                q <= 0x20_0000_0000_0000,
                scale <= 100,
        ;
        let num = q * scale as u128;
        let t = u128_div_round_half_even(num, p);
        proof {
            let f = (128 + e) as nat;
            lemma_pow2_adds(f, k as nat);
            assert(f + k == 128);
            lemma_pow2_pos(f);
            lemma_pow2_pos(k as nat);
            lemma_round_scaled(num as nat, p as nat, pow2(f));
            assert(q * pow2(f) * scale == num * pow2(f)) by (nonlinear_arith)
                requires
                    num == q * scale,
            ;
            assert(p * pow2(f) == pow2(128)) by (nonlinear_arith)
                requires
                    pow2(128) == pow2(f) * pow2(k as nat),
                    p == pow2(k as nat),
            ;
        }
        t as u64
    }
}

/// `(m as f64 / 1000.0).round()`: the double nearest `m / 1000` rounded to a
/// whole number, an exact half away from zero.
pub open spec fn thousandths_double_rounded(m: nat) -> nat {
    (thousandths_as_double_scaled(m) + pow2(127)) / pow2(128)
}

proof fn lemma_div_scaled(a: nat, b: nat, c: nat)
    requires
        b >= 1,
        c >= 1,
    ensures
        (a * c) / (b * c) == a / b,
{
    let q = a / b;
    let r = a % b;
    vstd::arithmetic::div_mod::lemma_fundamental_div_mod(a as int, b as int);
    assert(a * c == q * (b * c) + r * c) by (nonlinear_arith)
        requires
            a == b * q + r,
    ;
    assert(0 <= r * c < b * c) by (nonlinear_arith)
        requires
            0 <= r < b,
            c >= 1,
    ;
    vstd::arithmetic::div_mod::lemma_fundamental_div_mod_converse(
        (a * c) as int,
        (b * c) as int,
        q as int,
        (r * c) as int,
    );
}

/// `(m as f64 / 1000.0).round()` (see `thousandths_double_rounded`).
pub fn thousandths_double_rounded_exec(m: u64) -> (w: u64)
    requires
        m <= 0x8000_0000_0000_0000,
    ensures
        w == thousandths_double_rounded(m as nat),
        w <= 0x80_0000_0000_0000,
{
    let a = u64_as_double(m);
    proof {
        lemma_pow2_pos(128);
        lemma_pow2_pos(127);
        lemma_pow2_unfold(128);
    }
    if a == 0 {
        proof {
            assert(a * pow2(128) == 0);
            assert(thousandths_as_double_scaled(m as nat) == 0);
            vstd::arithmetic::div_mod::lemma_fundamental_div_mod_converse(
                pow2(127) as int,
                pow2(128) as int,
                0,
                pow2(127) as int,
            );
        }
        return 0;
    }
    let (q, e) = nearest_double_parts(a, 1000);
    proof {
        lemma_nearest_scaled(a as nat, 1000, pow2(128), (128 + e) as nat);
        assert(thousandths_as_double_scaled(m as nat) == q * pow2((128 + e) as nat));
    }
    if e >= 0 {
        let p = pow2_exec(e as u64);
        proof {
            lemma_pow2_adds(e as nat, 128);
            assert((e + 128) as nat == (128 + e) as nat);
            assert(p <= 4) by (nonlinear_arith)
                requires
                    p * 1000 * 0x10_0000_0000_0000 <= a,
                    a <= 0x1_0000_0000_0000_0000,
            ;
            assert(q * p <= 0x20_0000_0000_0000 * 4) by (nonlinear_arith)
                requires
                    q <= 0x20_0000_0000_0000,
                    p <= 4,
            ;
            let x = (q * p) as nat;
            assert(q * pow2((128 + e) as nat) == x * pow2(128)) by (nonlinear_arith)
                requires
                    pow2((128 + e) as nat) == p * pow2(128),
                    x == q * p,
            ;
            vstd::arithmetic::div_mod::lemma_fundamental_div_mod_converse(
                (x * pow2(128) + pow2(127)) as int,
                pow2(128) as int,
                x as int,
                pow2(127) as int,
            );
        }
        (q * p) as u64
    } else {
        let k = (-e) as u64;
        let half = pow2_exec(k - 1);
        let p = pow2_exec(k);
        proof {
            lemma_pow2_unfold(k as nat);
            lemma_pow2_pos((k - 1) as nat);
            lemma2_to64();
            if k < 64 {
                lemma_pow2_strictly_increases(k as nat, 64);
            }
        }
        let w = (q + half) / p;
        proof {
            let f = (128 + e) as nat;
            lemma_pow2_pos(f);
            lemma_pow2_adds(f, k as nat);
            lemma_pow2_adds(f, (k - 1) as nat);
            assert(f + k == 128);
            assert(f + (k - 1) as nat == 127);
            assert(q * pow2(f) + pow2(127) == (q + half) * pow2(f)) by (nonlinear_arith)
                requires
                    pow2(127) == pow2(f) * half,
            ;
            assert(pow2(128) == p * pow2(f)) by (nonlinear_arith)
                requires
                    pow2(128) == pow2(f) * p,
            ;
            lemma_div_scaled((q + half) as nat, p as nat, pow2(f));
            assert(w <= 0x80_0000_0000_0000) by (nonlinear_arith)
                requires
                    w as int == (q + half) as int / p as int,
                    q <= 0x20_0000_0000_0000,
                    p == 2 * half,
                    half >= 1,
            ;
        }
        w as u64
    }
}

} // verus!
