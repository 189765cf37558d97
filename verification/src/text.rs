//! Text helpers: decimal and hexadecimal rendering of integers, and the few
//! string predicates the summaries need, each with its meaning as a spec.

use vstd::prelude::*;
use vstd::string::*;

use crate::float_text::{
    thousandths_double_digits, thousandths_double_digits_exec, thousandths_double_rounded,
    thousandths_double_rounded_exec,
};

verus! {

/// The ASCII digit for `d` (`0`..`9`, then upper-case `A`..`F`).
pub open spec fn digit_char(d: int) -> char {
    if d == 0 { '0' }
    else if d == 1 { '1' }
    else if d == 2 { '2' }
    else if d == 3 { '3' }
    else if d == 4 { '4' }
    else if d == 5 { '5' }
    else if d == 6 { '6' }
    else if d == 7 { '7' }
    else if d == 8 { '8' }
    else if d == 9 { '9' }
    else if d == 10 { 'A' }
    else if d == 11 { 'B' }
    else if d == 12 { 'C' }
    else if d == 13 { 'D' }
    else if d == 14 { 'E' }
    else { 'F' }
}

/// The digits of `n` in base `base` (2..=16), most significant first, with no
/// leading zero; zero is the single digit `0`.
pub open spec fn digits(n: nat, base: nat) -> Seq<char>
    recommends
        2 <= base <= 16,
    decreases n,
{
    if n < base || base < 2 {
        seq![digit_char(n as int)]
    } else {
        proof {
            assert(n / base < n) by (nonlinear_arith)
                requires
                    n >= base,
                    base >= 2,
            ;
        }
        digits(n / base, base).push(digit_char((n % base) as int))
    }
}

/// Decimal rendering of a natural number.
pub open spec fn dec(n: nat) -> Seq<char> {
    digits(n, 10)
}

/// Decimal rendering of an integer, with a leading `-` when negative.
pub open spec fn int_dec(i: int) -> Seq<char> {
    if i < 0 {
        seq!['-'] + dec((-i) as nat)
    } else {
        dec(i as nat)
    }
}

/// `s` left-padded with `c` up to `width` characters.
pub open spec fn pad_left(s: Seq<char>, width: nat, c: char) -> Seq<char> {
    if s.len() < width {
        Seq::new((width - s.len()) as nat, |_i: int| c) + s
    } else {
        s
    }
}

/// Upper-case hexadecimal rendering, zero-padded to at least four digits
/// (what `{:04X}` prints for an unsigned value).
pub open spec fn hex4(n: nat) -> Seq<char> {
    pad_left(digits(n, 16), 4, '0')
}

/// Appends one character to a string.
/// Calls `String::push`, which appends the character to the end of the string.
#[verifier::external_body]
pub(crate) fn push_char(s: &mut String, c: char)
    ensures
        final(s)@ == old(s)@.push(c),
{
    s.push(c);
}

fn digit_to_char(d: u64) -> (c: char)
    requires
        d < 16,
    ensures
        c == digit_char(d as int),
{
    match d {
        0 => '0',
        1 => '1',
        2 => '2',
        3 => '3',
        4 => '4',
        5 => '5',
        6 => '6',
        7 => '7',
        8 => '8',
        9 => '9',
        10 => 'A',
        11 => 'B',
        12 => 'C',
        13 => 'D',
        14 => 'E',
        _ => 'F',
    }
}

/// Appends the digits of `n` in base `base` to `out`.
pub fn push_digits(out: &mut String, n: u64, base: u64)
    requires
        2 <= base <= 16,
    ensures
        final(out)@ == old(out)@ + digits(n as nat, base as nat),
    decreases n,
{
    if n < base {
        push_char(out, digit_to_char(n));
    } else {
        assert(n / base < n) by (nonlinear_arith)
            requires
                n >= base,
                base >= 2,
        ;
        push_digits(out, n / base, base);
        push_char(out, digit_to_char(n % base));
    }
}

/// Decimal rendering of an unsigned integer.
pub fn u64_to_dec(n: u64) -> (s: String)
    ensures
        s@ == dec(n as nat),
{
    let mut s = String::new();
    push_digits(&mut s, n, 10);
    s
}

/// Decimal rendering of a signed integer (what `{}` prints).
pub fn i64_to_dec(i: i64) -> (s: String)
    ensures
        s@ == int_dec(i as int),
{
    let mut s = String::new();
    if i < 0 {
        push_char(&mut s, '-');
        let m: u64 = if i == i64::MIN { 0x8000_0000_0000_0000u64 } else { (-i) as u64 };
        push_digits(&mut s, m, 10);
    } else {
        push_digits(&mut s, i as u64, 10);
    }
    s
}

/// Upper-case hexadecimal rendering zero-padded to four digits (`{:04X}`).
pub fn u64_to_hex4(n: u64) -> (s: String)
    ensures
        s@ == hex4(n as nat),
{
    let mut h = String::new();
    push_digits(&mut h, n, 16);
    let len = h.as_str().unicode_len();
    let mut s = String::new();
    let mut k: usize = len;
    while k < 4
        invariant
            len == digits(n as nat, 16).len(),
            len <= k <= 4 || (len > 4 && k == len),
            s@ == Seq::new((k - len) as nat, |_i: int| '0'),
        decreases 4 - k,
    {
        push_char(&mut s, '0');
        k = k + 1;
    }
    s.append(h.as_str());
    assert(s@ == hex4(n as nat));
    s
}


/// The characters of each string of a list.
pub open spec fn views(v: Seq<String>) -> Seq<Seq<char>> {
    v.map_values(|s: String| s@)
}

/// Whether two strings hold the same characters.
pub fn str_equals(a: &str, b: &str) -> (r: bool)
    ensures
        r == (a@ == b@),
{
    let x = a.to_owned();
    let y = b.to_owned();
    x == y
}

/// Whether `s` begins with `prefix`.
pub fn str_starts_with(s: &str, prefix: &str) -> (r: bool)
    ensures
        r == (prefix@.len() <= s@.len() && s@.subrange(0, prefix@.len() as int) == prefix@),
{
    let n = s.unicode_len();
    let k = prefix.unicode_len();
    if k > n {
        return false;
    }
    let mut i: usize = 0;
    while i < k
        invariant
            k == prefix@.len(),
            n == s@.len(),
            k <= n,
            i <= k,
            forall|j: int| 0 <= j < i ==> s@[j] == prefix@[j],
        decreases k - i,
    {
        if s.get_char(i) != prefix.get_char(i) {
            assert(s@.subrange(0, k as int)[i as int] != prefix@[i as int]);
            return false;
        }
        i = i + 1;
    }
    assert(s@.subrange(0, k as int) =~= prefix@);
    true
}

/// Whether some string of `v` equals `s`.
pub fn vec_contains_str(v: &Vec<String>, s: &str) -> (r: bool)
    ensures
        r == exists|i: int| 0 <= i < v@.len() && v@[i]@ == s@,
{
    let mut i: usize = 0;
    while i < v.len()
        invariant
            i <= v@.len(),
            forall|j: int| 0 <= j < i ==> v@[j]@ != s@,
        decreases v.len() - i,
    {
        if str_equals(v[i].as_str(), s) {
            return true;
        }
        i = i + 1;
    }
    false
}

/// Magnitude of a signed integer.
pub fn magnitude(v: i64) -> (m: u64)
    ensures
        m as int == if v < 0 { -(v as int) } else { v as int },
{
    if v < 0 {
        if v == i64::MIN {
            0x8000_0000_0000_0000u64
        } else {
            (-v) as u64
        }
    } else {
        v as u64
    }
}

/// `n / d` rounded to the nearest integer, an exact half going to the even neighbour.
pub open spec fn div_round_half_even(n: nat, d: nat) -> nat
    recommends
        d > 0,
{
    let q = n / d;
    let r = n % d;
    if 2 * r > d || (2 * r == d && q % 2 == 1) {
        q + 1
    } else {
        q
    }
}

/// Whole units from thousandths as `(v as f64 / 1000.0).round()` gives
/// them: the double nearest the quotient, rounded to a whole number, an exact
/// half away from zero (see `thousandths_double_rounded`).
pub open spec fn thousandths_rounded(v: int) -> int {
    let m: nat = if v < 0 { (-v) as nat } else { v as nat };
    let w = thousandths_double_rounded(m) as int;
    if v < 0 {
        -w
    } else {
        w
    }
}

/// `thousandths_rounded(v)`.
pub fn round_thousandths(v: i64) -> (r: i64)
    ensures
        r == thousandths_rounded(v as int),
{
    let m = magnitude(v);
    let w = thousandths_double_rounded_exec(m);
    if v < 0 {
        -(w as i64)
    } else {
        w as i64
    }
}

/// A thousandths quantity shown as `v as f64 / 1000.0` is with one decimal
/// (`{:.1}`): the tenths of the double nearest the quotient, an exact half to
/// the even tenth (see `thousandths_double_digits`), with a `-` for a negative `v`.
pub open spec fn thousandths_one_place(v: int) -> Seq<char> {
    let m: nat = if v < 0 { (-v) as nat } else { v as nat };
    let t = thousandths_double_digits(m, 10);
    (if v < 0 { "-"@ } else { ""@ }) + dec(t / 10) + seq!['.', digit_char((t % 10) as int)]
}

/// A thousandths quantity shown as `v as f64 / 1000.0` is with two decimals
/// (`{:.2}`): the hundredths of the double nearest the quotient, an exact half
/// to the even hundredth (see `thousandths_double_digits`), with a `-` for a
/// negative `v`.
pub open spec fn thousandths_two_places(v: int) -> Seq<char> {
    let m: nat = if v < 0 { (-v) as nat } else { v as nat };
    let t = thousandths_double_digits(m, 100);
    (if v < 0 { "-"@ } else { ""@ }) + dec(t / 100) + seq![
        '.',
        digit_char(((t / 10) % 10) as int),
        digit_char((t % 10) as int),
    ]
}

/// Appends `thousandths_one_place(v)` to `out`.
pub fn push_thousandths_one_place(out: &mut String, v: i64)
    ensures
        final(out)@ == old(out)@ + thousandths_one_place(v as int),
{
    let m = magnitude(v);
    let t = thousandths_double_digits_exec(m, 10);
    let ghost start = out@;
    if v < 0 {
        push_char(out, '-');
    }
    let ghost signed = out@;
    push_digits(out, t / 10, 10);
    push_char(out, '.');
    push_char(out, digit_to_char(t % 10));
    proof {
        reveal_strlit("-");
        reveal_strlit("");
        assert(signed == start + (if v < 0 { "-"@ } else { ""@ }));
        assert(out@ =~= start + thousandths_one_place(v as int));
    }
}

/// Appends `thousandths_two_places(v)` to `out`.
pub fn push_thousandths_two_places(out: &mut String, v: i64)
    ensures
        final(out)@ == old(out)@ + thousandths_two_places(v as int),
{
    let m = magnitude(v);
    let t = thousandths_double_digits_exec(m, 100);
    let ghost start = out@;
    if v < 0 {
        push_char(out, '-');
    }
    let ghost signed = out@;
    push_digits(out, t / 100, 10);
    push_char(out, '.');
    push_char(out, digit_to_char((t / 10) % 10));
    push_char(out, digit_to_char(t % 10));
    proof {
        reveal_strlit("-");
        reveal_strlit("");
        assert(signed == start + (if v < 0 { "-"@ } else { ""@ }));
        assert(out@ =~= start + thousandths_two_places(v as int));
    }
}


/// Lexicographic order on character sequences, characters compared by code point.
pub open spec fn chars_lt(a: Seq<char>, b: Seq<char>) -> bool
    decreases a.len(),
{
    if a.len() == 0 {
        b.len() > 0
    } else if b.len() == 0 {
        false
    } else if (a[0] as int) < (b[0] as int) {
        true
    } else if a[0] == b[0] {
        chars_lt(a.drop_first(), b.drop_first())
    } else {
        false
    }
}

/// `chars_lt` is irreflexive and total on distinct sequences.
pub proof fn lemma_chars_lt_strict_total(a: Seq<char>, b: Seq<char>)
    ensures
        !chars_lt(a, a),
        a != b ==> chars_lt(a, b) || chars_lt(b, a),
        !(chars_lt(a, b) && chars_lt(b, a)),
    decreases a.len(),
{
    if a.len() > 0 && b.len() > 0 {
        lemma_chars_lt_strict_total(a.drop_first(), b.drop_first());
        lemma_chars_lt_strict_total(a.drop_first(), a.drop_first());
        if a[0] != b[0] {
            assert((a[0] as int) != (b[0] as int));
        }
        if a[0] == b[0] && a != b {
            assert(a.drop_first() != b.drop_first()) by {
                if a.drop_first() == b.drop_first() {
                    assert(a =~= seq![a[0]] + a.drop_first());
                    assert(b =~= seq![b[0]] + b.drop_first());
                }
            }
        }
    } else if a.len() > 0 {
        lemma_chars_lt_strict_total(a.drop_first(), a.drop_first());
    } else if b.len() == 0 {
        assert(a =~= b);
    }
}

/// Whether `a` comes before `b` in lexicographic order.
pub fn str_lt(a: &str, b: &str) -> (r: bool)
    ensures
        r == chars_lt(a@, b@),
{
    let n = a.unicode_len();
    let m = b.unicode_len();
    let mut i: usize = 0;
    assert(a@.skip(0) =~= a@);
    assert(b@.skip(0) =~= b@);
    while i < n && i < m
        invariant
            n == a@.len(),
            m == b@.len(),
            i <= n,
            i <= m,
            chars_lt(a@, b@) == chars_lt(a@.skip(i as int), b@.skip(i as int)),
        decreases n - i,
    {
        let x = a.get_char(i);
        let y = b.get_char(i);
        assert(a@.skip(i as int)[0] == x);
        assert(b@.skip(i as int)[0] == y);
        if (x as u32) < (y as u32) {
            return true;
        }
        if x != y {
            return false;
        }
        assert(a@.skip(i as int).drop_first() =~= a@.skip(i + 1));
        assert(b@.skip(i as int).drop_first() =~= b@.skip(i + 1));
        i = i + 1;
    }
    i < m
}

} // verus!
