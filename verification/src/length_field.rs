//! The self-describing `length` field of a protocol message.
//!
//! A message is serialised once with a one-digit placeholder in its `length`
//! field; the final value must count the whole serialised text, its own digits
//! included.  `accurate_len` computes that value from the placeholder length.
use vstd::arithmetic::div_mod::lemma_fundamental_div_mod;
use vstd::prelude::*;

verus! {

/// `10` raised to `e`.
pub open spec fn pow10(e: nat) -> nat
    decreases e,
{
    if e == 0 {
        1
    } else {
        10 * pow10((e - 1) as nat)
    }
}

/// The number of decimal digits of `n` (zero has none).
pub open spec fn digit_count(n: nat) -> nat
    decreases n,
{
    if n == 0 {
        0
    } else {
        1 + digit_count(n / 10)
    }
}

/// Absolute value.
pub open spec fn magnitude(x: int) -> nat {
    if x < 0 {
        (-x) as nat
    } else {
        x as nat
    }
}

/// The `length` value chosen for a message whose serialisation with a
/// one-digit placeholder is `len` characters long.  With `c = len - 1`
/// characters besides the number and `d` the digit count of `c`, the value is
/// `c + d`, or `c + d + 1` once `c` reaches `10^d - (d + 1) + (d + 1) % 2`.
pub open spec fn framed_length(len: int) -> int {
    let c = len - 1;
    if c == 0 {
        1
    } else {
        let d = digit_count(magnitude(c)) as int;
        if c >= pow10(d as nat) - (d + 1) + (d + 1) % 2 {
            c + d + 1
        } else {
            c + d
        }
    }
}

pub proof fn lemma_pow10_monotone(a: nat, b: nat)
    requires
        a <= b,
    ensures
        pow10(a) <= pow10(b),
        1 <= pow10(a),
    decreases b,
{
    if b > 0 {
        if a < b {
            lemma_pow10_monotone(a, (b - 1) as nat);
        }
    }
    if a > 0 {
        lemma_pow10_monotone(0, (a - 1) as nat);
    }
}

/// For `n >= 1`, `10^(d-1) <= n < 10^d` where `d` is the digit count of `n`.
pub proof fn lemma_digit_count_range(n: nat)
    requires
        n >= 1,
    ensures
        digit_count(n) >= 1,
        pow10((digit_count(n) - 1) as nat) <= n < pow10(digit_count(n)),
    decreases n,
{
    lemma_fundamental_div_mod(n as int, 10);
    let q = n / 10;
    if q == 0 {
        assert(digit_count(q) == 0);
        assert(pow10(1) == 10) by {
            reveal_with_fuel(pow10, 2);
        }
    } else {
        lemma_digit_count_range(q);
        let k = digit_count(q);
        assert(digit_count(n) == k + 1);
        assert(pow10(k) == 10 * pow10((k - 1) as nat));
        assert(pow10(k + 1) == 10 * pow10(k));
        let lo = pow10((k - 1) as nat);
        let hi = pow10(k);
        assert(10 * lo <= n) by (nonlinear_arith)
            requires
                lo <= q,
                n == 10 * q + n % 10,
                n % 10 >= 0,
        ;
        assert(n < 10 * hi) by (nonlinear_arith)
            requires
                q < hi,
                n == 10 * q + n % 10,
                n % 10 < 10,
        ;
    }
}

/// The digit count of `n` is `d` when `10^(d-1) <= n < 10^d`.
pub proof fn lemma_digit_count_is(n: nat, d: nat)
    requires
        d >= 1,
        pow10((d - 1) as nat) <= n < pow10(d),
    ensures
        digit_count(n) == d,
{
    lemma_pow10_monotone(0, (d - 1) as nat);
    lemma_digit_count_range(n);
    let e = digit_count(n);
    if e < d {
        lemma_pow10_monotone(e, (d - 1) as nat);
    } else if e > d {
        lemma_pow10_monotone(d, (e - 1) as nat);
    }
}

proof fn lemma_digit_count_at_most_ten(n: nat)
    requires
        n <= 0x8000_0000,
    ensures
        digit_count(n) <= 10,
{
    if n >= 1 {
        lemma_digit_count_range(n);
        assert(pow10(10) == 10_000_000_000) by {
            reveal_with_fuel(pow10, 11);
        }
        if digit_count(n) > 10 {
            lemma_pow10_monotone(10, (digit_count(n) - 1) as nat);
        }
    }
}

/// The number of decimal digits of `num`, sign not counted; `0` for zero.
pub fn bit_of_num(num: i32) -> (len: i32)
    ensures
        len == digit_count(magnitude(num as int)),
        0 <= len <= 10,
{
    let mut m: u64 = if num < 0 {
        (-(num as i64)) as u64
    } else {
        num as u64
    };
    let ghost total = digit_count(magnitude(num as int));
    proof {
        lemma_digit_count_at_most_ten(magnitude(num as int));
    }
    let mut len: i32 = 0;
    while m != 0
        invariant
            len + digit_count(m as nat) == total,
            total <= 10,
            0 <= len,
        decreases m,
    {
        m = m / 10;
        len += 1;
    }
    len
}

/// `10^exponent`, or `i32::MAX` where that does not fit in an `i32`.
fn power_of_ten(exponent: i32) -> (p: i32)
    requires
        0 <= exponent,
    ensures
        exponent <= 9 ==> p == pow10(exponent as nat),
        exponent > 9 ==> p == i32::MAX,
{
    if exponent > 9 {
        return i32::MAX;
    }
    let mut p: i32 = 1;
    let mut e: i32 = 0;
    while e < exponent
        invariant
            0 <= e <= exponent <= 9,
            p == pow10(e as nat),
        decreases exponent - e,
    {
        proof {
            lemma_pow10_monotone((e + 1) as nat, 9);
            assert(pow10(9) == 1_000_000_000) by {
                reveal_with_fuel(pow10, 10);
            }
        }
        p = p * 10;
        e += 1;
    }
    p
}

/// The value of the `length` field for a message whose serialisation with a
/// one-digit placeholder has `len` characters.
pub fn accurate_len(len: i32) -> (result: i32)
    requires
        i32::MIN < len <= i32::MAX - 10,
    ensures
        result == framed_length(len as int),
{
    let mut len_of_content = len - 1;
    if len_of_content == 0 {
        return 1;
    }
    let digits = bit_of_num(len_of_content);
    let special_num = power_of_ten(digits);
    let bits_of_special_num = bit_of_num(special_num);
    let ghost c = len_of_content as int;
    let ghost d = digits as int;
    proof {
        lemma_digit_count_range(magnitude(c));
        if d <= 9 {
            lemma_pow10_monotone(d as nat, 9);
            assert(pow10(9) == 1_000_000_000) by {
                reveal_with_fuel(pow10, 10);
            }
            assert(pow10((d + 1 - 1) as nat) <= special_num < pow10((d + 1) as nat));
            lemma_digit_count_is(special_num as nat, (d + 1) as nat);
        } else {
            assert(pow10(10) == 10_000_000_000) by {
                reveal_with_fuel(pow10, 11);
            }
            assert(pow10(9) == 1_000_000_000) by {
                reveal_with_fuel(pow10, 10);
            }
            lemma_digit_count_is(i32::MAX as nat, 10);
            assert(d == 10);
        }
    }
    let min_number_changed_bits = special_num - bits_of_special_num + (bits_of_special_num % 2);
    let mut actual_bit = digits;
    if len_of_content >= min_number_changed_bits && len_of_content < special_num {
        actual_bit += 1;
    }
    proof {
        if c > 0 && d <= 9 {
            assert(c < special_num);
        }
    }
    len_of_content += actual_bit;
    len_of_content
}

/// The chosen `length` value counts itself: the characters besides the number
/// plus the digits of the number give the number back.
pub proof fn lemma_length_field_counts_itself(len: int)
    requires
        1 <= len <= i32::MAX - 10,
    ensures
        framed_length(len) == (len - 1) + digit_count(framed_length(len) as nat),
{
    let c = len - 1;
    let r = framed_length(len);
    if c == 0 {
        assert(digit_count(1) == 1) by {
            reveal_with_fuel(digit_count, 2);
        }
    } else {
        lemma_digit_count_range(c as nat);
        let d = digit_count(c as nat);
        assert(pow10(d + 1) == 10 * pow10(d));
        lemma_pow10_monotone(0, d);
        if r == c + d + 1 {
            // 10^d <= c + d + 1 < 10^(d+1)
            assert(c + d + 1 >= pow10(d)) by {
                assert((d + 1) % 2 <= 1);
            }
            assert(d + 1 < 9 * pow10(d)) by {
                lemma_pow10_grows(d);
            }
            lemma_digit_count_is((c + d + 1) as nat, d + 1);
        } else {
            // 10^(d-1) <= c + d < 10^d
            assert(c + d < pow10(d)) by {
                assert((d + 1) % 2 >= 0);
            }
            lemma_digit_count_is((c + d) as nat, d);
        }
    }
}

proof fn lemma_pow10_grows(d: nat)
    ensures
        d + 1 < 9 * pow10(d),
    decreases d,
{
    if d > 0 {
        lemma_pow10_grows((d - 1) as nat);
    }
}

} // verus!
