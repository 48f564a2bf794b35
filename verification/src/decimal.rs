//! Numbers as text: whole numbers, and quotients with one decimal as a
//! binary64 division and a round-half-to-even print give them.

use vstd::arithmetic::div_mod::lemma_fundamental_div_mod;
use vstd::arithmetic::div_mod::lemma_fundamental_div_mod_converse;
use vstd::arithmetic::power2::lemma_pow2_adds;
use vstd::arithmetic::power2::lemma_pow2_pos;
use vstd::arithmetic::power2::lemma_pow2_unfold;
use vstd::arithmetic::power2::lemma2_to64;
use vstd::arithmetic::power2::lemma2_to64_rest;
use vstd::arithmetic::power2::pow2;
use vstd::prelude::*;

verus! {

/// The digit that stands for `d`.
pub open spec fn digit(d: nat) -> char {
    (48 + d) as char
}

/// The decimal digits of `n`, most significant first.
pub open spec fn digits(n: nat) -> Seq<char>
    decreases n,
{
    if n < 10 {
        seq![digit(n)]
    } else {
        digits(n / 10).push(digit(n % 10))
    }
}

/// A whole number in decimal digits, with a minus sign where it is negative.
pub open spec fn signed_digits(n: int) -> Seq<char> {
    if n < 0 {
        seq!['-'] + digits((-n) as nat)
    } else {
        digits(n as nat)
    }
}

/// Writes a natural number in decimal digits.
pub fn decimal(n: u128) -> (r: String)
    ensures
        r@ == digits(n as nat),
    decreases n,
{
    let mut out: String = if n < 10 {
        String::new()
    } else {
        decimal(n / 10)
    };
    out.push((48 + (n % 10) as u8) as char);
    proof {
        if n < 10 {
            assert(out@ =~= digits(n as nat));
        }
    }
    out
}

/// Writes a whole number in decimal digits.
pub fn signed_decimal(n: i64) -> (r: String)
    ensures
        r@ == signed_digits(n as int),
{
    if n < 0 {
        let mut out: String = String::new();
        out.push('-');
        let positive: u128 = (-(n as i128)) as u128;
        out.push_str(decimal(positive).as_str());
        assert(out@ =~= signed_digits(n as int));
        out
    } else {
        decimal(n as u128)
    }
}

/// `n / d` rounded to the nearest whole number; a value halfway between two of
/// them goes to the even one.
pub open spec fn div_half_even(n: nat, d: nat) -> nat {
    let quotient = n / d;
    let rest = n % d;
    if 2 * rest < d || (2 * rest == d && quotient % 2 == 0) {
        quotient
    } else {
        quotient + 1
    }
}

/// How many binary digits `n` has.
pub open spec fn bits(n: nat) -> nat
    decreases n,
{
    if n == 0 {
        0
    } else {
        1 + bits(n / 2)
    }
}

/// The binary64 number nearest to the natural number `n`, ties to even: at most
/// 53 significant binary digits are kept.
pub open spec fn nearest_binary64(n: nat) -> nat {
    if bits(n) <= 53 {
        n
    } else {
        let unit = pow2((bits(n) - 53) as nat);
        div_half_even(n, unit) * unit
    }
}

/// The binary64 number nearest to `n / d`, ties to even, for `n >= d`, as a
/// fraction.
pub open spec fn quotient_binary64(n: nat, d: nat) -> (nat, nat) {
    let size = bits(n / d);
    if size > 53 {
        let unit = pow2((size - 53) as nat);
        (div_half_even(n, d * unit) * unit, 1)
    } else {
        let scale = pow2((53 - size) as nat);
        (div_half_even(n * scale, d), scale)
    }
}

/// A fraction rounded to tenths, ties to even, in tenths.
pub open spec fn in_tenths(x: (nat, nat)) -> nat {
    div_half_even(x.0 * 10, x.1)
}

/// The tenths of `n / d` when `n` becomes a binary64 number, is divided by `d`
/// as such, and the quotient is rounded to one decimal.
pub open spec fn scaled_tenths(n: nat, d: nat) -> nat {
    in_tenths(quotient_binary64(nearest_binary64(n), d))
}

/// `n / d` with one decimal.
pub open spec fn scaled_text(n: nat, d: nat) -> Seq<char> {
    digits(scaled_tenths(n, d) / 10) + "."@ + digits(scaled_tenths(n, d) % 10)
}

proof fn lemma_bits_bounds(n: nat)
    requires
        n > 0,
    ensures
        bits(n) > 0,
        pow2((bits(n) - 1) as nat) <= n < pow2(bits(n)),
    decreases n,
{
    lemma_pow2_unfold(bits(n));
    if n == 1 {
        assert(bits(0) == 0);
        assert(bits(1) == 1 + bits(0));
        lemma2_to64();
    } else {
        lemma_bits_bounds(n / 2);
        lemma_pow2_unfold(bits(n / 2));
    }
}

proof fn lemma_bits_below(n: nat, k: nat)
    requires
        n < pow2(k),
    ensures
        bits(n) <= k,
{
    if n > 0 {
        lemma_bits_bounds(n);
        if bits(n) > k {
            lemma_pow2_adds(k, (bits(n) - 1 - k) as nat);
            lemma_pow2_pos((bits(n) - 1 - k) as nat);
            assert(pow2(k) <= pow2(k) * pow2((bits(n) - 1 - k) as nat)) by (nonlinear_arith)
                requires
                    pow2((bits(n) - 1 - k) as nat) >= 1,
            ;
        }
    }
}

proof fn lemma_bits_at_least(n: nat, k: nat)
    requires
        n >= pow2(k),
    ensures
        bits(n) > k,
{
    lemma_pow2_pos(k);
    lemma_bits_bounds(n);
    if bits(n) <= k {
        lemma_pow2_adds(bits(n), (k - bits(n)) as nat);
        lemma_pow2_pos((k - bits(n)) as nat);
        assert(pow2(bits(n)) <= pow2(bits(n)) * pow2((k - bits(n)) as nat)) by (nonlinear_arith)
            requires
                pow2((k - bits(n)) as nat) >= 1,
        ;
    }
}

/// Scaling both sides of a division leaves the rounded quotient as it is.
proof fn lemma_div_half_even_scale(c: nat, n: nat, d: nat)
    requires
        c > 0,
        d > 0,
    ensures
        div_half_even(c * n, c * d) == div_half_even(n, d),
        (c * n) / (c * d) == n / d,
        c * d > 0,
{
    let quotient = (n / d) as int;
    let rest = (n % d) as int;
    lemma_fundamental_div_mod(n as int, d as int);
    assert(c * n == (c * d) * quotient + c * rest && 0 <= c * rest < c * d && c * d > 0)
        by (nonlinear_arith)
        requires
            n == d * quotient + rest,
            0 <= rest < d,
            c > 0,
    ;
    assert((c * d) * quotient == quotient * (c * d)) by (nonlinear_arith);
    lemma_fundamental_div_mod_converse(
        (c * n) as int,
        (c * d) as int,
        quotient,
        (c * rest) as int,
    );
    assert(2 * (c * rest) < c * d <==> 2 * rest < d) by (nonlinear_arith)
        requires
            c > 0,
    ;
    assert(2 * (c * rest) == c * d <==> 2 * rest == d) by (nonlinear_arith)
        requires
            c > 0,
    ;
}

proof fn lemma_quotient_scale(c: nat, n: nat, d: nat)
    requires
        c > 0,
        d > 0,
    ensures
        quotient_binary64(c * n, c * d) == quotient_binary64(n, d),
{
    lemma_div_half_even_scale(c, n, d);
    let size = bits(n / d);
    if size > 53 {
        let unit = pow2((size - 53) as nat);
        lemma_pow2_pos((size - 53) as nat);
        assert((c * d) * unit == c * (d * unit) && d * unit > 0) by (nonlinear_arith)
            requires
                d > 0,
                unit > 0,
        ;
        lemma_div_half_even_scale(c, n, d * unit);
    } else {
        let scale = pow2((53 - size) as nat);
        assert((c * n) * scale == c * (n * scale)) by (nonlinear_arith);
        lemma_div_half_even_scale(c, n * scale, d);
    }
}

/// A quotient that is below a bound rounds to at most that bound.
proof fn lemma_div_half_even_bound(n: nat, d: nat, bound: nat)
    requires
        d > 0,
        n < bound * d,
    ensures
        div_half_even(n, d) <= bound,
{
    lemma_fundamental_div_mod(n as int, d as int);
    assert(n / d < bound) by (nonlinear_arith)
        requires
            n == d * (n / d) + n % d,
            n % d >= 0,
            n < bound * d,
            d > 0,
    ;
}

fn round_half_even(n: u128, d: u128) -> (r: u128)
    requires
        0 < d <= 0x4000_0000_0000_0000_0000_0000_0000_0000,
        n / d < u128::MAX,
    ensures
        r == div_half_even(n as nat, d as nat),
{
    let quotient: u128 = n / d;
    let rest: u128 = n % d;
    if 2 * rest < d || (2 * rest == d && quotient % 2 == 0) {
        quotient
    } else {
        quotient + 1
    }
}

fn binary_size(n: u128) -> (r: u32)
    ensures
        r == bits(n as nat),
        r <= 128,
    decreases n,
{
    proof {
        lemma2_to64();
        lemma_pow2_adds(64, 64);
        lemma_bits_below(n as nat, 128);
    }
    if n == 0 {
        0
    } else {
        1 + binary_size(n / 2)
    }
}

fn power_of_two(e: u32) -> (r: u128)
    requires
        e < 128,
    ensures
        r == pow2(e as nat),
    decreases e,
{
    proof {
        lemma2_to64();
        lemma2_to64_rest();
        if e > 0 {
            lemma_pow2_unfold(e as nat);
        }
        lemma_pow2_adds(e as nat, (127 - e) as nat);
        lemma_pow2_adds(63, 64);
        lemma_pow2_pos((127 - e) as nat);
        assert(pow2(e as nat) <= pow2(127)) by (nonlinear_arith)
            requires
                pow2(e as nat) * pow2((127 - e) as nat) == pow2(127),
                pow2((127 - e) as nat) >= 1,
        ;
    }
    if e == 0 {
        1
    } else {
        2 * power_of_two(e - 1)
    }
}

/// The tenths of a binary64 quotient.
fn quotient_tenths(n: u128, d: u128) -> (r: u128)
    requires
        100 <= d <= 0x10_0000,
        d <= n <= 0x8000_0000_0000_0000_0000_0000_0000_0000,
    ensures
        r == in_tenths(quotient_binary64(n as nat, d as nat)),
{
    let whole: u128 = n / d;
    let size: u32 = binary_size(whole);
    proof {
        lemma2_to64();
        lemma2_to64_rest();
        lemma_pow2_adds(57, 64);
        assert(whole < pow2(121)) by (nonlinear_arith)
            requires
                whole == n / d,
                n <= 0x8000_0000_0000_0000_0000_0000_0000_0000,
                d >= 100,
                pow2(121) == pow2(57) * pow2(64),
                pow2(57) == 0x200000000000000,
                pow2(64) == 0x10000000000000000,
        ;
        lemma_bits_below(whole as nat, 121);
        lemma_fundamental_div_mod(n as int, d as int);
        assert(whole >= 1) by (nonlinear_arith)
            requires
                n >= d,
                n == d * whole + n % d,
                n % d < d,
        ;
        lemma_bits_bounds(whole as nat);
    }
    if size > 53 {
        let unit: u128 = power_of_two(size - 53);
        proof {
            lemma_pow2_pos((size - 53) as nat);
            lemma_pow2_adds(53, (size - 53) as nat);
            lemma_pow2_adds(size as nat, (121 - size) as nat);
            lemma_pow2_pos((121 - size) as nat);
            lemma_pow2_adds((size - 53) as nat, (121 - size) as nat);
            lemma_pow2_adds(4, 64);
            assert(unit <= pow2(68)) by (nonlinear_arith)
                requires
                    unit * pow2((121 - size) as nat) == pow2(68),
                    pow2((121 - size) as nat) >= 1,
            ;
            assert(0 < d * unit <= 0x10_0000 * pow2(68)) by (nonlinear_arith)
                requires
                    0 < d <= 0x10_0000,
                    0 < unit <= pow2(68),
            ;
            assert(n < pow2(53) * (d * unit)) by (nonlinear_arith)
                requires
                    n == d * (n / d) + n % d,
                    n % d < d,
                    n / d < pow2(size as nat),
                    pow2(size as nat) == pow2(53) * unit,
                    d > 0,
            ;
            lemma_div_half_even_bound(n as nat, (d * unit) as nat, pow2(53));
        }
        let rounded: u128 = round_half_even(n, d * unit);
        proof {
            assert(rounded * unit <= pow2(121)) by (nonlinear_arith)
                requires
                    rounded <= pow2(53),
                    unit <= pow2(68),
                    pow2(53) * pow2(68) == pow2(121),
            {
            }
        }
        let value: u128 = rounded * unit;
        assert((value as nat * 10) / 1 == value * 10 && (value as nat * 10) % 1 == 0);
        value * 10
    } else {
        let scale: u128 = power_of_two(53 - size);
        proof {
            lemma_pow2_pos((53 - size) as nat);
            lemma_pow2_adds(size as nat, (53 - size) as nat);
            assert(n * scale < pow2(53) * d) by (nonlinear_arith)
                requires
                    n == d * (n / d) + n % d,
                    n % d < d,
                    n / d < pow2(size as nat),
                    pow2(53) == pow2(size as nat) * scale,
                    d > 0,
                    scale > 0,
            ;
            assert(pow2(53) * d <= pow2(53) * 0x10_0000) by (nonlinear_arith)
                requires
                    d <= 0x10_0000,
            ;
            assert(scale <= pow2(53)) by (nonlinear_arith)
                requires
                    pow2(53) == pow2(size as nat) * scale,
                    pow2(size as nat) >= 1,
            ;
            lemma_div_half_even_bound((n * scale) as nat, d as nat, pow2(53));
        }
        let rounded: u128 = round_half_even(n * scale, d);
        round_half_even(rounded * 10, scale)
    }
}

/// The tenths of `n / d` after both roundings to binary64.
fn tenths_of(n: u128, d: u128) -> (r: u128)
    requires
        n >= d,
        d == 1000 || (n <= u64::MAX && 1000 <= d <= 0x10_0000),
    ensures
        r == scaled_tenths(n as nat, d as nat),
{
    let size: u32 = binary_size(n);
    proof {
        lemma2_to64();
        lemma2_to64_rest();
        lemma_bits_bounds(n as nat);
    }
    if size <= 53 {
        proof {
            if n >= pow2(53) {
                lemma_bits_at_least(n as nat, 53);
            }
        }
        quotient_tenths(n, d)
    } else {
        let unit: u128 = power_of_two(size - 53);
        proof {
            lemma_pow2_pos((size - 53) as nat);
            lemma_pow2_adds(53, (size - 53) as nat);
            lemma_pow2_adds((size - 53) as nat, (128 - size) as nat);
            lemma_pow2_pos((128 - size) as nat);
            lemma_pow2_adds(11, 64);
            assert(unit <= pow2(75)) by (nonlinear_arith)
                requires
                    unit * pow2((128 - size) as nat) == pow2(75),
                    pow2((128 - size) as nat) >= 1,
            ;
            lemma_div_half_even_bound(n as nat, unit as nat, pow2(53));
            lemma_pow2_adds(52, (size - 53) as nat);
            // The leading digit is kept, so the mantissa is at least 2^52.
            lemma_fundamental_div_mod(n as int, unit as int);
            assert(n / unit >= pow2(52)) by (nonlinear_arith)
                requires
                    n >= pow2(52) * unit,
                    n == unit * (n / unit) + n % unit,
                    n % unit < unit,
                    unit > 0,
            ;
        }
        let mantissa: u128 = round_half_even(n, unit);
        if size < 128 {
            proof {
                lemma_pow2_adds((size - 53) as nat, (127 - size) as nat);
                lemma_pow2_pos((127 - size) as nat);
                lemma_pow2_adds(10, 64);
                lemma_pow2_adds(53, 74);
                lemma_pow2_adds(63, 64);
                assert(unit <= pow2(74)) by (nonlinear_arith)
                    requires
                        unit * pow2((127 - size) as nat) == pow2(74),
                        pow2((127 - size) as nat) >= 1,
                ;
                assert(0x10_0000 <= mantissa * unit <= pow2(53) * pow2(74)) by (nonlinear_arith)
                    requires
                        pow2(52) <= mantissa <= pow2(53),
                        1 <= unit <= pow2(74),
                        pow2(52) >= 0x10_0000,
                ;
            }
            quotient_tenths(mantissa * unit, d)
        } else {
            let eighth: u128 = power_of_two(72);
            proof {
                lemma_pow2_adds(72, 3);
                lemma_pow2_adds(8, 64);
                lemma_pow2_adds(53, 72);
                lemma_pow2_adds(61, 64);
                assert(unit == 8 * eighth);
                assert(125 <= mantissa * eighth <= pow2(53) * pow2(72)) by (nonlinear_arith)
                    requires
                        pow2(52) <= mantissa <= pow2(53),
                        eighth == pow2(72),
                        pow2(52) >= 125,
                        pow2(72) >= 1,
                ;
                assert(8 * (mantissa * eighth) == mantissa * unit) by (nonlinear_arith)
                    requires
                        unit == 8 * eighth,
                ;
                lemma_quotient_scale(8, (mantissa * eighth) as nat, 125);
            }
            quotient_tenths(mantissa * eighth, 125)
        }
    }
}

/// Writes `n / d` with one decimal.
pub fn with_one_decimal(n: u128, d: u128) -> (r: String)
    requires
        n >= d,
        d == 1000 || (n <= u64::MAX && 1000 <= d <= 0x10_0000),
    ensures
        r@ == scaled_text(n as nat, d as nat),
{
    let tenths: u128 = tenths_of(n, d);
    let mut out: String = decimal(tenths / 10);
    out.push_str(".");
    out.push_str(decimal(tenths % 10).as_str());
    out
}

/// What decimal digits are worth, each ten times the one behind it.
pub open spec fn worth(s: Seq<char>) -> int
    decreases s.len(),
{
    if s.len() == 0 {
        0
    } else {
        10 * worth(s.drop_last()) + (s.last() as u32 - '0' as u32)
    }
}

/// The digits of a number are worth that number; each of them is a decimal digit;
/// there is one at least, and more than one does not start with a zero.
pub proof fn digits_are_worth_the_number(n: nat)
    ensures
        worth(digits(n)) == n,
        digits(n).len() > 0,
        forall|i: int| 0 <= i < digits(n).len() ==> '0' <= #[trigger] digits(n)[i] && digits(n)[i]
            <= '9',
        digits(n).len() > 1 ==> digits(n)[0] != '0',
        n > 0 ==> digits(n)[0] != '0',
    decreases n,
{
    if n < 10 {
        let s = digits(n);
        assert(s =~= seq![digit(n)]);
        assert(s.drop_last() =~= Seq::empty());
        assert(worth(s.drop_last()) == 0);
        assert(s.last() as u32 == 48 + n);
    } else {
        digits_are_worth_the_number(n / 10);
        let front = digits(n / 10);
        let s = digits(n);
        assert(s.drop_last() =~= front);
        assert(s.last() as u32 == 48 + n % 10);
        assert forall|i: int| 0 <= i < s.len() implies '0' <= #[trigger] s[i] && s[i] <= '9' by {
            if i < front.len() {
                assert(s[i] == front[i]);
            }
        }
        assert(s[0] == front[0]);
    }
}

/// A number below zero is written as a minus sign and the digits of its size, any
/// other as its digits.
pub proof fn signs_go_first(n: int)
    ensures
        n >= 0 ==> worth(signed_digits(n)) == n && signed_digits(n)[0] != '-',
        n < 0 ==> signed_digits(n)[0] == '-' && worth(signed_digits(n).skip(1)) == -n,
{
    if n >= 0 {
        digits_are_worth_the_number(n as nat);
        assert('0' <= digits(n as nat)[0]);
    } else {
        digits_are_worth_the_number((-n) as nat);
        assert(signed_digits(n).skip(1) =~= digits((-n) as nat));
    }
}

/// Rounding goes to the nearest whole number, and halfway between two of them to the
/// even one.
pub proof fn rounding_goes_to_the_nearest(n: nat, d: nat)
    requires
        d > 0,
    ensures
        2 * n <= 2 * (div_half_even(n, d) * d) + d,
        2 * (div_half_even(n, d) * d) <= 2 * n + d,
        2 * (n % d) == d ==> div_half_even(n, d) % 2 == 0,
{
    lemma_fundamental_div_mod(n as int, d as int);
    let quotient = n / d;
    let rest = n % d;
    assert((quotient + 1) * d == d * quotient + d) by (nonlinear_arith);
    assert(quotient * d == d * quotient) by (nonlinear_arith);
}

/// A natural number below two to the power of 53 is a binary64 number itself.
pub proof fn small_numbers_are_exact(n: nat)
    requires
        n < 0x20_0000_0000_0000,
    ensures
        nearest_binary64(n) == n,
{
    lemma2_to64_rest();
    lemma_bits_below(n, 53);
}

/// The tenths of a quotient are off by less than one tenth, two thirds of it at
/// most, where the numbers are small enough to be binary64 numbers. So a quotient
/// that is a whole number of tenths is exact.
pub proof fn quotients_are_off_by_less_than_a_tenth(n: nat, d: nat)
    requires
        100 <= d <= n,
        n < 0x20_0000_0000_0000,
    ensures
        30 * n - 2 * d <= 3 * (scaled_tenths(n, d) * d) <= 30 * n + 2 * d,
        (10 * n) % d == 0 ==> scaled_tenths(n, d) == (10 * n) / d,
{
    small_numbers_are_exact(n);
    lemma2_to64();
    lemma2_to64_rest();
    let whole = n / d;
    let size = bits(whole);
    lemma_fundamental_div_mod(n as int, d as int);
    assert(whole < 0x1_0000_0000_0000) by (nonlinear_arith)
        requires
            n == d * whole + n % d,
            n % d >= 0,
            n < 0x20_0000_0000_0000,
            d >= 100,
    ;
    lemma_bits_below(whole, 48);
    let scale = pow2((53 - size) as nat);
    lemma_pow2_adds((48 - size) as nat, 5);
    lemma_pow2_pos((48 - size) as nat);
    assert(scale >= 32) by (nonlinear_arith)
        requires
            scale == pow2((48 - size) as nat) * pow2(5),
            pow2((48 - size) as nat) >= 1,
            pow2(5) == 32,
    ;
    let x = div_half_even(n * scale, d);
    rounding_goes_to_the_nearest(n * scale, d);
    let t = div_half_even(x * 10, scale);
    rounding_goes_to_the_nearest(x * 10, scale);
    assert(scaled_tenths(n, d) == t);
    lemma_tenths_bound(n as int, d as int, scale as int, x as int, t as int);
    if (10 * n) % d == 0 {
        let exact = (10 * n) / d;
        lemma_fundamental_div_mod((10 * n) as int, d as int);
        assert(t == exact) by (nonlinear_arith)
            requires
                10 * n == d * exact,
                30 * n - 2 * d <= 3 * (t * d) <= 30 * n + 2 * d,
                d > 0,
        ;
    }
}

proof fn lemma_tenths_bound(n: int, d: int, scale: int, x: int, t: int)
    requires
        d > 0,
        scale >= 32,
        2 * (n * scale) <= 2 * (x * d) + d,
        2 * (x * d) <= 2 * (n * scale) + d,
        2 * (x * 10) <= 2 * (t * scale) + scale,
        2 * (t * scale) <= 2 * (x * 10) + scale,
    ensures
        30 * n - 2 * d <= 3 * (t * d) <= 30 * n + 2 * d,
{
    let off = t * d - 10 * n;
    assert(2 * (t * scale) * d <= (2 * (x * 10) + scale) * d) by (nonlinear_arith)
        requires
            2 * (t * scale) <= 2 * (x * 10) + scale,
            d > 0,
    ;
    assert((2 * (t * scale) + scale) * d >= 2 * (x * 10) * d) by (nonlinear_arith)
        requires
            2 * (x * 10) <= 2 * (t * scale) + scale,
            d > 0,
    ;
    assert(2 * (t * scale) * d == 2 * (t * d) * scale) by (nonlinear_arith);
    assert((2 * (x * 10) + scale) * d == 20 * (x * d) + scale * d) by (nonlinear_arith);
    assert((2 * (t * scale) + scale) * d == 2 * (t * d) * scale + scale * d) by (nonlinear_arith);
    assert(2 * (x * 10) * d == 20 * (x * d)) by (nonlinear_arith);
    assert(2 * off * scale == 2 * (t * d) * scale - 20 * (n * scale)) by (nonlinear_arith)
        requires
            off == t * d - 10 * n,
    ;
    assert(2 * off * scale <= scale * d + 10 * d);
    assert(2 * off * scale >= -(scale * d + 10 * d));
    assert(3 * off <= 2 * d) by (nonlinear_arith)
        requires
            2 * off * scale <= scale * d + 10 * d,
            scale >= 32,
            d > 0,
    ;
    assert(3 * off >= -2 * d) by (nonlinear_arith)
        requires
            2 * off * scale >= -(scale * d + 10 * d),
            scale >= 32,
            d > 0,
    ;
}

/// A quotient is shown with one decimal behind a point, and what is shown is off by
/// less than one tenth, where the numbers are small enough to be binary64 numbers.
pub proof fn quotients_are_shown_with_one_decimal(n: nat, d: nat)
    ensures
        ({
            let text = scaled_text(n, d);
            let at = text.len() - 2;
            let shown = 10 * worth(text.take(at)) + worth(text.skip(at + 1));
            &&& at > 0
            &&& text[at] == '.'
            &&& shown == scaled_tenths(n, d)
            &&& 100 <= d <= n && n < 0x20_0000_0000_0000 ==> 30 * n - 2 * d <= 3 * (shown * d)
                <= 30 * n + 2 * d
        }),
{
    reveal_strlit(".");
    let t = scaled_tenths(n, d);
    let text = scaled_text(n, d);
    digits_are_worth_the_number(t / 10);
    digits_are_worth_the_number(t % 10);
    assert(digits(t % 10).len() == 1);
    let at = text.len() - 2;
    assert(text.take(at) =~= digits(t / 10));
    assert(text.skip(at + 1) =~= digits(t % 10));
    if 100 <= d <= n && n < 0x20_0000_0000_0000 {
        quotients_are_off_by_less_than_a_tenth(n, d);
    }
}

/// A natural number becomes a binary64 number with an error of one part in two to
/// the power of 53 at most.
pub proof fn large_numbers_are_nearly_exact(n: nat)
    ensures
        (nearest_binary64(n) - n) * 0x20_0000_0000_0000 <= n,
        (n - nearest_binary64(n)) * 0x20_0000_0000_0000 <= n,
{
    if bits(n) > 53 {
        lemma2_to64_rest();
        let size = bits(n);
        let unit = pow2((size - 53) as nat);
        lemma_pow2_pos((size - 53) as nat);
        assert(n > 0) by {
            assert(bits(0) == 0);
        }
        lemma_bits_bounds(n);
        lemma_pow2_adds(52, (size - 53) as nat);
        rounding_goes_to_the_nearest(n, unit);
        let x = div_half_even(n, unit) * unit;
        assert(n >= 0x10_0000_0000_0000 * unit);
        assert(2 * (x - n) <= unit && 2 * (n - x) <= unit);
    }
}

} // verus!
