//! Numbers as text, and the rounding of double precision numbers.

use crate::text::{chars_of, trim};
#[allow(unused_imports)]
use crate::text::trimmed;
use vstd::arithmetic::power2::pow2;
use vstd::prelude::*;
#[allow(unused_imports)]
use vstd::string::StringExecFns;

verus! {

/// The decimal digit with the value `d`.
pub open spec fn digit(d: int) -> char {
    ('0' as u32 + d) as char
}

/// `n` in decimal notation.
pub open spec fn decimal(n: nat) -> Seq<char>
    decreases n,
{
    if n < 10 {
        seq![digit(n as int)]
    } else {
        decimal(n / 10).push(digit((n % 10) as int))
    }
}

/// An integer in decimal notation, with a minus sign where it is negative.
pub open spec fn decimal_int(n: int) -> Seq<char> {
    if n < 0 {
        "-"@ + decimal((-n) as nat)
    } else {
        decimal(n as nat)
    }
}

/// The integer nearest to `num / den`; the even one of two that are equally near.
pub open spec fn half_even(num: nat, den: nat) -> nat {
    let q = num / den;
    let r = num % den;
    if 2 * r < den || (2 * r == den && q % 2 == 0) {
        q
    } else {
        q + 1
    }
}

/// The first number that needs more than the 53 bits of a double's significand.
pub const SIGNIFICAND_LIMIT: u128 = 0x20_0000_0000_0000;

/// How many low bits of `n` find no place in a double's significand.
pub open spec fn excess_bits(n: nat) -> nat
    decreases n,
{
    if n < SIGNIFICAND_LIMIT {
        0
    } else {
        1 + excess_bits(n / 2)
    }
}

/// The value of the integer `n` as a double precision number.
pub open spec fn as_double(n: nat) -> nat {
    half_even(n, pow2(excess_bits(n))) * pow2(excess_bits(n))
}

/// How often `num` has to be doubled for `num / den` to have 53 bits before the point.
pub open spec fn quotient_shift(num: nat, den: nat) -> nat
    decreases (if num >= 0x10_0000_0000_0000 * den {
        0
    } else {
        0x10_0000_0000_0000 * den - num
    }),
{
    if num == 0 || num >= 0x10_0000_0000_0000 * den {
        0
    } else {
        1 + quotient_shift(2 * num, den)
    }
}

/// The integer part of `w * (part / whole)`, computed in double precision: the quotient is
/// rounded to a double, and then the product is.
pub open spec fn scaled(w: nat, part: nat, whole: nat) -> nat {
    let num = as_double(part);
    let den = as_double(whole);
    let shift = quotient_shift(num, den);
    let quotient = half_even(num * pow2(shift), den);
    as_double(as_double(w) * quotient) / pow2(shift)
}

/// `num / den` with one digit after the point, rounded half to even.
pub open spec fn one_place(num: nat, den: nat) -> Seq<char> {
    let tenths = half_even(num * 10, den);
    decimal(tenths / 10) + "."@ + decimal(tenths % 10)
}

/// `num / den` with two digits after the point, rounded half to even.
pub open spec fn two_places(num: nat, den: nat) -> Seq<char> {
    let hundredths = half_even(num * 100, den);
    decimal(hundredths / 100) + "."@ + decimal(hundredths % 100 / 10) + decimal(hundredths % 10)
}

/// The value of a decimal digit.
pub open spec fn digit_value(c: char) -> Option<int> {
    if '0' <= c <= '9' {
        Some(c as int - '0' as int)
    } else {
        None
    }
}

/// The value of a text of decimal digits, of which there is at least one.
pub open spec fn digits_value(s: Seq<char>) -> Option<int>
    decreases s.len(),
{
    if s.len() == 0 {
        None
    } else if s.len() == 1 {
        digit_value(s[0])
    } else {
        match (digits_value(s.drop_last()), digit_value(s.last())) {
            (Some(a), Some(b)) => Some(10 * a + b),
            _ => None,
        }
    }
}

/// The integer that a text writes: an optional sign and then digits.
pub open spec fn int_value(s: Seq<char>) -> Option<int> {
    if s.len() > 0 && s[0] == '-' {
        match digits_value(s.skip(1)) {
            Some(n) => Some(-n),
            None => None,
        }
    } else if s.len() > 0 && s[0] == '+' {
        digits_value(s.skip(1))
    } else {
        digits_value(s)
    }
}

fn digit_char(d: u8) -> (r: char)
    requires
        d < 10,
    ensures
        r == digit(d as int),
{
    (48 + d) as char
}

/// `n` in decimal notation.
pub fn decimal_text(n: u128) -> (r: String)
    ensures
        r@ == decimal(n as nat),
    decreases n,
{
    if n < 10 {
        let mut out = String::new();
        out.push(digit_char(n as u8));
        assert(out@ =~= decimal(n as nat));
        out
    } else {
        let mut out = decimal_text(n / 10);
        out.push(digit_char((n % 10) as u8));
        out
    }
}

/// An integer in decimal notation.
pub fn decimal_int_text(n: i64) -> (r: String)
    ensures
        r@ == decimal_int(n as int),
{
    if n < 0 {
        let mut out = String::from_str("-");
        out.append(decimal_text((-(n as i128)) as u128).as_str());
        out
    } else {
        decimal_text(n as u128)
    }
}

fn round_half_even(num: u128, den: u128) -> (r: u128)
    requires
        0 < den <= u128::MAX / 2,
        num < u128::MAX,
    ensures
        r == half_even(num as nat, den as nat),
        num / den <= r <= num / den + 1,
{
    let q: u128 = num / den;
    let r: u128 = num % den;
    proof {
        assert(q <= num) by (nonlinear_arith)
            requires
                q == num / den,
                den > 0,
        ;
    }
    if 2 * r < den || (2 * r == den && q % 2 == 0) {
        q
    } else {
        q + 1
    }
}

/// The excess bits of `n` and two to their number.
fn excess(n: u128) -> (r: (u32, u128))
    ensures
        r.0 == excess_bits(n as nat),
        r.1 == pow2(r.0 as nat),
        r.0 <= 128,
        r.1 > 0,
        r.1 <= n || r.1 == 1,
    decreases n,
{
    proof {
        vstd::arithmetic::power2::lemma2_to64();
    }
    if n < SIGNIFICAND_LIMIT {
        (0, 1)
    } else {
        let (k, p) = excess(n / 2);
        proof {
            vstd::arithmetic::power2::lemma_pow2_unfold((k + 1) as nat);
            lemma_excess_bound(n as nat);
        }
        (k + 1, 2 * p)
    }
}

proof fn lemma_excess_bound(n: nat)
    requires
        n <= u128::MAX,
    ensures
        excess_bits(n) <= 75,
{
    vstd::arithmetic::power2::lemma2_to64();
    vstd::arithmetic::power2::lemma_pow2_adds(64, 11);
    assert(pow2(75) == 0x1_0000_0000_0000_0000 * 0x800);
    assert(SIGNIFICAND_LIMIT * pow2(75) == 0x20_0000_0000_0000 * (0x1_0000_0000_0000_0000 * 0x800));
    lemma_excess_below(n, 75);
}

proof fn lemma_excess_below(n: nat, k: nat)
    requires
        n < SIGNIFICAND_LIMIT * pow2(k),
    ensures
        excess_bits(n) <= k,
    decreases k,
{
    vstd::arithmetic::power2::lemma2_to64();
    if k > 0 {
        vstd::arithmetic::power2::lemma_pow2_unfold(k);
        let p = pow2((k - 1) as nat);
        assert(SIGNIFICAND_LIMIT * pow2(k) == 2 * (SIGNIFICAND_LIMIT * p)) by (nonlinear_arith)
            requires
                pow2(k) == 2 * p,
        ;
        lemma_excess_below(n / 2, (k - 1) as nat);
    }
}

/// The value of `n` as a double precision number.
fn to_double(n: u128) -> (r: u128)
    requires
        n < 0x4000_0000_0000_0000_0000_0000_0000_0000,
    ensures
        r == as_double(n as nat),
        r <= 2 * n,
        n <= 2 * r,
{
    let (k, p) = excess(n);
    let q = round_half_even(n, p);
    proof {
        assert((n / p) * p <= n) by (nonlinear_arith)
            requires
                p > 0,
        ;
        assert(q * p <= (n / p) * p + p) by (nonlinear_arith)
            requires
                q <= n / p + 1,
                p > 0,
        ;
        if k == 0 {
            vstd::arithmetic::power2::lemma2_to64();
            assert(n % 1 == 0 && n / 1 == n);
            assert(q == n);
        }
        if n > 0 {
            assert(n / p >= 1) by (nonlinear_arith)
                requires
                    0 < p <= n,
            ;
            assert(n <= 2 * ((n / p) * p)) by (nonlinear_arith)
                requires
                    0 < p <= n,
                    n / p >= 1,
            ;
            assert((n / p) * p <= q * p) by (nonlinear_arith)
                requires
                    n / p <= q,
                    p > 0,
            ;
        }
    }
    q * p
}

/// Doubles `num` until the quotient by `den` has 53 bits: the result and two to the number of
/// doublings.
fn align(num: u128, den: u128) -> (r: (u128, u128))
    requires
        0 < num,
        0 < den < 0x40_0000_0000_0000_0000,
        num < 0x40_0000_0000_0000_0000 || num < 0x20_0000_0000_0000 * den,
    ensures
        r.1 == pow2(quotient_shift(num as nat, den as nat)),
        r.0 == num * r.1,
        r.0 < 0x20_0000_0000_0000 * den || r.0 == num,
        r.1 > 0,
    decreases (if num >= 0x10_0000_0000_0000 * den {
        0
    } else {
        0x10_0000_0000_0000 * den - num
    }),
{
    proof {
        vstd::arithmetic::power2::lemma2_to64();
    }
    if num >= 0x10_0000_0000_0000 * den {
        (num, 1)
    } else {
        let (a, p) = align(2 * num, den);
        proof {
            let k = quotient_shift(2 * num as nat, den as nat);
            vstd::arithmetic::power2::lemma_pow2_unfold((k + 1) as nat);
            assert(a == num * (2 * p)) by (nonlinear_arith)
                requires
                    a == (2 * num) * p,
            ;
            assert(a < 0x20_0000_0000_0000 * 0x40_0000_0000_0000_0000);
            assert(2 * p <= a) by (nonlinear_arith)
                requires
                    a == num * (2 * p),
                    num >= 1,
            ;
        }
        (a, 2 * p)
    }
}

/// The integer part of `w * (part / whole)` in double precision.
pub fn scale(w: u128, part: u128, whole: u128) -> (r: u128)
    requires
        w < 0x4_0000_0000_0000_0000,
        part < whole < 0x4_0000_0000_0000_0000,
    ensures
        r == scaled(w as nat, part as nat, whole as nat),
{
    let num = to_double(part);
    let den = to_double(whole);
    let x = to_double(w);
    if num == 0 {
        proof {
            vstd::arithmetic::power2::lemma2_to64();
            assert(half_even(0, den as nat) == 0);
            assert(x as nat * 0 == 0);
            assert(as_double(0) == 0) by {
                assert(half_even(0, 1) == 0);
            }
        }
        return 0;
    }
    let (a, p) = align(num, den);
    let m = round_half_even(a, den);
    proof {
        assert(a / den <= 0x20_0000_0000_0000) by (nonlinear_arith)
            requires
                a < 0x20_0000_0000_0000 * den || a <= 4 * den,
                den > 0,
        ;
        assert(x * m <= 0x8_0000_0000_0000_0000 * 0x20_0000_0000_0001) by (nonlinear_arith)
            requires
                0 <= x <= 0x8_0000_0000_0000_0000,
                0 <= m <= 0x20_0000_0000_0001,
        ;
    }
    to_double(x * m) / p
}

/// `n`, as a double precision number, divided by `den`, with one digit after the point.
pub fn one_place_text(n: u128, den: u128) -> (r: String)
    requires
        n <= u64::MAX,
        0 < den <= u64::MAX,
    ensures
        r@ == one_place(as_double(n as nat), den as nat),
{
    let tenths = round_half_even(to_double(n) * 10, den);
    let mut out = decimal_text(tenths / 10);
    out.append(".");
    out.append(decimal_text(tenths % 10).as_str());
    out
}

/// `n`, as a double precision number, divided by `den`, with two digits after the point.
pub fn two_places_text(n: u128, den: u128) -> (r: String)
    requires
        n <= u64::MAX,
        0 < den <= u64::MAX,
    ensures
        r@ == two_places(as_double(n as nat), den as nat),
{
    let hundredths = round_half_even(to_double(n) * 100, den);
    let mut out = decimal_text(hundredths / 100);
    out.append(".");
    out.append(decimal_text(hundredths % 100 / 10).as_str());
    out.append(decimal_text(hundredths % 10).as_str());
    out
}

/// The integer that the text writes, with white space around it left out, where it is one of
/// 32 bits.
pub open spec fn i32_value(s: Seq<char>) -> Option<i32> {
    match int_value(trimmed(s)) {
        Some(n) => if i32::MIN <= n <= i32::MAX {
            Some(n as i32)
        } else {
            None
        },
        None => None,
    }
}

/// Reads digits up to a number beyond 32 bits.
fn read_digits(v: &Vec<char>, from: usize) -> (r: Option<u64>)
    requires
        from <= v.len(),
    ensures
        match r {
            Some(n) => digits_value(v@.skip(from as int)) is Some && (n <= 0x8000_0000 ==> digits_value(
                v@.skip(from as int),
            ) == Some(n as int)) && (n > 0x8000_0000 ==> digits_value(v@.skip(from as int))->0
                > 0x8000_0000),
            None => digits_value(v@.skip(from as int)) is None,
        },
{
    let ghost s = v@.skip(from as int);
    if from == v.len() {
        return None;
    }
    let mut n: u64 = 0;
    let mut i: usize = from;
    while i < v.len()
        invariant
            from <= i <= v.len(),
            s == v@.skip(from as int),
            from < v.len(),
            n <= 0x8000_0001,
            i > from ==> digits_value(s.take(i - from)) is Some,
            i > from && n <= 0x8000_0000 ==> digits_value(s.take(i - from)) == Some(n as int),
            i > from && n > 0x8000_0000 ==> digits_value(s.take(i - from))->0 > 0x8000_0000,
            i == from ==> n == 0,
        decreases v.len() - i,
    {
        let c = v[i];
        let ghost longer = s.take(i + 1 - from);
        assert(longer.last() == c);
        assert(longer.drop_last() =~= s.take(i - from));
        if c < '0' || c > '9' {
            proof {
                lemma_no_digits(s, i - from);
            }
            return None;
        }
        let d: u64 = (c as u32 - 48) as u64;
        n = 10 * n + d;
        if n > 0x8000_0000 {
            n = 0x8000_0001;
        }
        i += 1;
    }
    assert(s.take(s.len() as int) =~= s);
    Some(n)
}

proof fn lemma_no_digits(s: Seq<char>, i: int)
    requires
        0 <= i < s.len(),
        digit_value(s[i]) is None,
    ensures
        digits_value(s) is None,
    decreases s.len(),
{
    if i < s.len() - 1 {
        lemma_no_digits(s.drop_last(), i);
    }
}

/// The 32 bit integer that the text writes.
pub fn parse_i32(s: &str) -> (r: Option<i32>)
    ensures
        r == i32_value(s@),
{
    let text = trim(s);
    let v = chars_of(text.as_str());
    let negative = v.len() > 0 && v[0] == '-';
    let from: usize = if v.len() > 0 && (v[0] == '-' || v[0] == '+') {
        1
    } else {
        0
    };
    assert(v@.skip(0) =~= v@);
    match read_digits(&v, from) {
        None => None,
        Some(n) => {
            if negative {
                if n <= 0x8000_0000 {
                    Some((-(n as i64)) as i32)
                } else {
                    None
                }
            } else if n <= 0x7fff_ffff {
                Some(n as i32)
            } else {
                None
            }
        },
    }
}

proof fn lemma_half_even(num: nat, den: nat)
    requires
        den > 0,
    ensures
        2 * (half_even(num, den) * den) <= 2 * num + den,
        2 * num <= 2 * (half_even(num, den) * den) + den,
        num / den <= half_even(num, den) <= num / den + 1,
{
    let q = num / den;
    let r = num % den;
    assert(num == q * den + r && 0 <= r < den) by (nonlinear_arith)
        requires
            q == num / den,
            r == num % den,
            den > 0,
    ;
    assert((q + 1) * den == q * den + den) by (nonlinear_arith);
}

proof fn lemma_half_even_ordered(a: nat, b: nat, den: nat)
    requires
        a <= b,
        den > 0,
    ensures
        half_even(a, den) <= half_even(b, den),
{
    let (qa, ra) = (a / den, a % den);
    let (qb, rb) = (b / den, b % den);
    assert(a == qa * den + ra && 0 <= ra < den && b == qb * den + rb && 0 <= rb < den)
        by (nonlinear_arith)
        requires
            qa == a / den,
            ra == a % den,
            qb == b / den,
            rb == b % den,
            den > 0,
    ;
    assert(qa <= qb) by (nonlinear_arith)
        requires
            qa * den + ra <= qb * den + rb,
            0 <= ra,
            rb < den,
            den > 0,
    ;
}

proof fn lemma_excess_range(n: nat)
    ensures
        n < 0x20_0000_0000_0000 * pow2(excess_bits(n)),
        excess_bits(n) > 0 ==> 0x10_0000_0000_0000 * pow2(excess_bits(n)) <= n,
    decreases n,
{
    vstd::arithmetic::power2::lemma2_to64();
    if n >= 0x20_0000_0000_0000 {
        let k = excess_bits(n / 2);
        lemma_excess_range(n / 2);
        vstd::arithmetic::power2::lemma_pow2_unfold((k + 1) as nat);
        assert(pow2(excess_bits(n)) == 2 * pow2(k));
    }
}

proof fn lemma_double_near(n: nat)
    ensures
        0x20_0000_0000_0000 * as_double(n) <= 0x20_0000_0000_0001 * n,
        0x1f_ffff_ffff_ffff * n <= 0x20_0000_0000_0000 * as_double(n),
        n < 0x20_0000_0000_0000 ==> as_double(n) == n,
{
    let p = pow2(excess_bits(n));
    vstd::arithmetic::power2::lemma2_to64();
    vstd::arithmetic::power2::lemma_pow2_pos(excess_bits(n));
    lemma_excess_range(n);
    lemma_half_even(n, p);
    if excess_bits(n) == 0 {
        assert(p == 1);
        assert(n % 1 == 0 && n / 1 == n);
    }
}

proof fn lemma_double_ordered(a: nat, b: nat)
    requires
        a <= b,
    ensures
        as_double(a) <= as_double(b),
{
    let (j, k) = (excess_bits(a), excess_bits(b));
    let (p, q) = (pow2(j), pow2(k));
    vstd::arithmetic::power2::lemma_pow2_pos(j);
    vstd::arithmetic::power2::lemma_pow2_pos(k);
    lemma_excess_range(a);
    lemma_excess_range(b);
    if j == k {
        lemma_half_even_ordered(a, b, p);
        let (x, y) = (half_even(a, p), half_even(b, p));
        assert(x * p <= y * p) by (nonlinear_arith)
            requires
                x <= y,
        ;
    } else {
        if j > k {
            if k < j - 1 {
                vstd::arithmetic::power2::lemma_pow2_strictly_increases(k, (j - 1) as nat);
            }
            vstd::arithmetic::power2::lemma_pow2_unfold(j);
            assert(false);
        }
        if j < k - 1 {
            vstd::arithmetic::power2::lemma_pow2_strictly_increases(j, (k - 1) as nat);
        }
        vstd::arithmetic::power2::lemma_pow2_unfold(k);
        assert(2 * p <= q);
        let (x, y) = (half_even(a, p), half_even(b, q));
        lemma_half_even(a, p);
        lemma_half_even(b, q);
        assert(x <= 0x20_0000_0000_0000) by {
            assert(a / p < 0x20_0000_0000_0000) by (nonlinear_arith)
                requires
                    a < 0x20_0000_0000_0000 * p,
                    p > 0,
            ;
        }
        assert(y >= 0x10_0000_0000_0000) by {
            assert(b / q >= 0x10_0000_0000_0000) by (nonlinear_arith)
                requires
                    0x10_0000_0000_0000 * q <= b,
                    q > 0,
            ;
        }
        assert(x * p <= 0x20_0000_0000_0000 * p) by (nonlinear_arith)
            requires
                x <= 0x20_0000_0000_0000,
        ;
        assert(0x10_0000_0000_0000 * q <= y * q) by (nonlinear_arith)
            requires
                y >= 0x10_0000_0000_0000,
        ;
    }
}

proof fn lemma_shift_suffices(num: nat, den: nat)
    requires
        num > 0,
        den > 0,
    ensures
        0x10_0000_0000_0000 * den <= num * pow2(quotient_shift(num, den)),
    decreases (if num >= 0x10_0000_0000_0000 * den {
        0
    } else {
        0x10_0000_0000_0000 * den - num
    }),
{
    vstd::arithmetic::power2::lemma2_to64();
    if num < 0x10_0000_0000_0000 * den {
        let k = quotient_shift(2 * num, den);
        lemma_shift_suffices(2 * num, den);
        vstd::arithmetic::power2::lemma_pow2_unfold((k + 1) as nat);
        let p = pow2(k);
        assert(quotient_shift(num, den) == k + 1);
        assert(pow2(k + 1) == 2 * p);
        assert(num * (2 * p) == (2 * num) * p) by (nonlinear_arith);
    } else {
        assert(quotient_shift(num, den) == 0);
        assert(num * pow2(0) == num);
    }
}

proof fn lemma_quotient_bound(d: nat, part: nat, p: nat, more: nat)
    requires
        p > 0,
        d < part * p + more * p,
    ensures
        d / p < part + more,
{
    assert(d / p < part + more) by (nonlinear_arith)
        requires
            p > 0,
            d < part * p + more * p,
    ;
}

/// Two numbers that are made smaller by the same factor, `part` to their sum, in double precision:
/// neither becomes larger than `part`, and together they are not larger either. Where their sum is
/// too large for a double's significand, they may together be larger by two.
pub proof fn scaled_parts_fit(a: nat, b: nat, part: nat)
    requires
        0 < part < 0x10_0000_0000_0000,
        0 < a + b,
    ensures
        scaled(a, part, a + b) <= part,
        scaled(b, part, a + b) <= part,
        a + b < SIGNIFICAND_LIMIT ==> scaled(a, part, a + b) + scaled(b, part, a + b) <= part,
        scaled(a, part, a + b) + scaled(b, part, a + b) <= part + 2,
{
    let whole = a + b;
    let (x, y, z) = (as_double(a), as_double(b), as_double(whole));
    lemma_double_near(part);
    lemma_double_near(a);
    lemma_double_near(b);
    lemma_double_near(whole);
    lemma_double_ordered(a, whole);
    lemma_double_ordered(b, whole);
    let shift = quotient_shift(part, z);
    let p = pow2(shift);
    vstd::arithmetic::power2::lemma_pow2_pos(shift);
    assert(z > 0);
    lemma_shift_suffices(part, z);
    let q = half_even(part * p, z);
    lemma_half_even(part * p, z);
    let t = part * p;
    let (xq, yq, zq) = (x * q, y * q, z * q);
    assert(q * z == zq) by (nonlinear_arith)
        requires
            zq == z * q,
    ;
    assert(xq <= zq && yq <= zq) by (nonlinear_arith)
        requires
            xq == x * q,
            yq == y * q,
            zq == z * q,
            x <= z,
            y <= z,
            0 <= q,
    ;
    let (d, e) = (as_double(xq), as_double(yq));
    lemma_double_near(xq);
    lemma_double_near(yq);
    assert(t <= 0xf_ffff_ffff_ffff * p) by (nonlinear_arith)
        requires
            t == part * p,
            part <= 0xf_ffff_ffff_ffff,
    ;
    assert(0x20_0000_0000_0000 * zq <= 0x20_0000_0000_0001 * t);
    assert(d < t + p);
    assert(e < t + p);
    assert(1 * p == p && 3 * p == p + p + p);
    lemma_quotient_bound(d, part, p, 1);
    lemma_quotient_bound(e, part, p, 1);
    assert(0x1f_ffff_ffff_ffff * (x + y) <= 0x20_0000_0000_0001 * z);
    assert(0x1f_ffff_ffff_ffff * (xq + yq) <= 0x20_0000_0000_0001 * zq) by (nonlinear_arith)
        requires
            0x1f_ffff_ffff_ffff * (x + y) <= 0x20_0000_0000_0001 * z,
            xq == x * q,
            yq == y * q,
            zq == z * q,
            0 <= q,
    ;
    assert(d + e < t + 3 * p);
    let (i, j) = (d / p, e / p);
    assert(i * p <= d && j * p <= e) by (nonlinear_arith)
        requires
            i == d / p,
            j == e / p,
            p > 0,
    ;
    assert(i + j < part + 3) by (nonlinear_arith)
        requires
            i * p + j * p < part * p + 3 * p,
            p > 0,
    ;
    if whole < 0x20_0000_0000_0000 {
        assert(xq + yq == zq) by (nonlinear_arith)
            requires
                xq == x * q,
                yq == y * q,
                zq == z * q,
                x + y == z,
        ;
        assert(d + e < t + p);
        assert(i + j < part + 1) by (nonlinear_arith)
            requires
                i * p + j * p < part * p + p,
                p > 0,
        ;
    }
}

/// A number that is made smaller by the factor `part` to `whole` in double precision has its share
/// of `part`, but for less than two.
pub proof fn scaled_parts_are_near(w: nat, part: nat, whole: nat)
    requires
        0 < part < 0x10_0000_0000_0000,
        w <= whole,
        0 < whole < 0x20_0000_0000_0000,
    ensures
        w * part < (scaled(w, part, whole) + 2) * whole,
{
    lemma_double_near(part);
    lemma_double_near(w);
    lemma_double_near(whole);
    let shift = quotient_shift(part, whole);
    let p = pow2(shift);
    vstd::arithmetic::power2::lemma_pow2_pos(shift);
    lemma_shift_suffices(part, whole);
    let t = part * p;
    let q = half_even(t, whole);
    lemma_half_even(t, whole);
    let wq = w * q;
    let d = as_double(wq);
    lemma_double_near(wq);
    let s = d / p;
    assert(s == scaled(w, part, whole));
    let (wt, qz, wqz, dz, pz) = (w * t, q * whole, wq * whole, d * whole, p * whole);
    assert(0x1f_ffff_ffff_ffff * t <= 0x20_0000_0000_0000 * qz);
    assert(0x1f_ffff_ffff_ffff * wt <= 0x20_0000_0000_0000 * wqz) by (nonlinear_arith)
        requires
            0x1f_ffff_ffff_ffff * t <= 0x20_0000_0000_0000 * qz,
            wt == w * t,
            wqz == (w * q) * whole,
            qz == q * whole,
    ;
    assert(0x1f_ffff_ffff_ffff * wqz <= 0x20_0000_0000_0000 * dz) by (nonlinear_arith)
        requires
            0x1f_ffff_ffff_ffff * wq <= 0x20_0000_0000_0000 * d,
            wqz == wq * whole,
            dz == d * whole,
    ;
    assert(0x10_0000_0000_0000 * wt <= 0x10_0000_0000_0000 * dz + wt);
    assert(wt < 0x10_0000_0000_0000 * pz) by (nonlinear_arith)
        requires
            wt == w * (part * p),
            pz == p * whole,
            w <= whole,
            part < 0x10_0000_0000_0000,
            p > 0,
            whole > 0,
    ;
    assert(wt < dz + pz);
    assert(d < (s + 1) * p) by (nonlinear_arith)
        requires
            s == d / p,
            p > 0,
    ;
    assert(dz + pz <= ((s + 2) * p) * whole) by (nonlinear_arith)
        requires
            dz == d * whole,
            pz == p * whole,
            d < (s + 1) * p,
    ;
    assert(w * part < (s + 2) * whole) by (nonlinear_arith)
        requires
            w * (part * p) < ((s + 2) * p) * whole,
            p > 0,
    ;
}

} // verus!
