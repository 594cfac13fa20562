//! Decimal and fixed-point text of integers, as written into records and
//! metrics.
use vstd::prelude::*;
use vstd::string::*;
use crate::decimal::{all_digits, digit_value, digits_value, is_digit};

verus! {

pub open spec fn pow10(k: nat) -> nat
    decreases k,
{
    if k == 0 {
        1
    } else {
        10 * pow10((k - 1) as nat)
    }
}

pub open spec fn digit_char(d: nat) -> char {
    if d == 0 { '0' }
    else if d == 1 { '1' }
    else if d == 2 { '2' }
    else if d == 3 { '3' }
    else if d == 4 { '4' }
    else if d == 5 { '5' }
    else if d == 6 { '6' }
    else if d == 7 { '7' }
    else if d == 8 { '8' }
    else { '9' }
}

/// The last `k` decimal digits of `n`, zero-padded to exactly `k` characters.
pub open spec fn digits_of(n: nat, k: nat) -> Seq<char>
    decreases k,
{
    if k == 0 {
        Seq::empty()
    } else {
        digits_of(n / 10, (k - 1) as nat).push(digit_char(n % 10))
    }
}

/// How many decimal digits `n` has (at least one).
pub open spec fn num_width(n: nat) -> nat
    decreases n,
{
    if n < 10 {
        1
    } else {
        1 + num_width(n / 10)
    }
}

/// `n` in decimal, without leading zeros.
pub open spec fn dec_text(n: nat) -> Seq<char> {
    digits_of(n, num_width(n))
}

/// `n / 10^k` in decimal, a point, and the last `k` digits of `n`: the
/// fixed-point text of `n` units of `10^-k`.
pub open spec fn fixed_text(n: nat, k: nat) -> Seq<char> {
    dec_text(n / pow10(k)) + seq!['.'] + digits_of(n % pow10(k), k)
}

/// `v` in decimal, with a leading `-` when negative.
pub open spec fn signed_text(v: int) -> Seq<char> {
    if v < 0 {
        seq!['-'] + dec_text((-v) as nat)
    } else {
        dec_text(v as nat)
    }
}

pub proof fn lemma_pow10_positive(k: nat)
    ensures
        pow10(k) >= 1,
    decreases k,
{
    if k > 0 {
        lemma_pow10_positive((k - 1) as nat);
    }
}

pub proof fn lemma_digit_char(d: nat)
    requires
        d < 10,
    ensures
        is_digit(digit_char(d)),
        digit_value(digit_char(d)) == d,
{
}

/// The padded digits of `n` are `k` digits denoting `n mod 10^k`.
pub proof fn lemma_digits_of(n: nat, k: nat)
    ensures
        digits_of(n, k).len() == k,
        all_digits(digits_of(n, k)),
        digits_value(digits_of(n, k)) == n % pow10(k),
    decreases k,
{
    if k > 0 {
        let k1 = (k - 1) as nat;
        lemma_digits_of(n / 10, k1);
        lemma_digit_char(n % 10);
        let s = digits_of(n, k);
        assert(s.drop_last() =~= digits_of(n / 10, k1));
        lemma_pow10_positive(k1);
        let p = pow10(k1);
        assert(digits_value(s) == ((n / 10) % p) * 10 + n % 10);
        assert(((n / 10) % p) * 10 + n % 10 == n % (10 * p)) by {
            vstd::arithmetic::div_mod::lemma_breakdown(n as int, 10, p as int);
        }
    }
}

/// `n` is below `10` to the power of its width.
pub proof fn lemma_width_bound(n: nat)
    ensures
        n < pow10(num_width(n)),
        num_width(n) >= 1,
    decreases n,
{
    if n >= 10 {
        lemma_width_bound(n / 10);
        let p = pow10(num_width(n / 10));
        assert(n < pow10(num_width(n))) by {
            assert(n / 10 + 1 <= p);
            assert(n < 10 * (n / 10 + 1));
            assert(10 * (n / 10 + 1) <= 10 * p) by (nonlinear_arith)
                requires n / 10 + 1 <= p;
        }
    } else {
        assert(pow10(1) == 10) by {
            reveal_with_fuel(pow10, 2);
        }
    }
}

pub proof fn lemma_dec_text(n: nat)
    ensures
        dec_text(n).len() >= 1,
        all_digits(dec_text(n)),
        digits_value(dec_text(n)) == n,
{
    lemma_digits_of(n, num_width(n));
    lemma_width_bound(n);
    vstd::arithmetic::div_mod::lemma_small_mod(n, pow10(num_width(n)));
}

fn digit_str(d: u128) -> (r: &'static str)
    requires
        d < 10,
    ensures
        r@ == seq![digit_char(d as nat)],
{
    proof {
        reveal_strlit("0");
        reveal_strlit("1");
        reveal_strlit("2");
        reveal_strlit("3");
        reveal_strlit("4");
        reveal_strlit("5");
        reveal_strlit("6");
        reveal_strlit("7");
        reveal_strlit("8");
        reveal_strlit("9");
    }
    let r = if d == 0 { "0" }
    else if d == 1 { "1" }
    else if d == 2 { "2" }
    else if d == 3 { "3" }
    else if d == 4 { "4" }
    else if d == 5 { "5" }
    else if d == 6 { "6" }
    else if d == 7 { "7" }
    else if d == 8 { "8" }
    else { "9" };
    assert(r@ =~= seq![digit_char(d as nat)]);
    r
}

/// Appends the last `k` digits of `n`, zero-padded.
pub fn push_digits(out: &mut String, n: u128, k: usize)
    ensures
        final(out)@ == old(out)@ + digits_of(n as nat, k as nat),
    decreases k,
{
    if k == 0 {
        assert(old(out)@ + digits_of(n as nat, 0) =~= old(out)@);
        return;
    }
    push_digits(out, n / 10, k - 1);
    out.append(digit_str(n % 10));
    assert(digits_of(n as nat, k as nat) =~= digits_of((n / 10) as nat, (k - 1) as nat).push(
        digit_char((n % 10) as nat),
    ));
}

fn width(n: u128) -> (w: usize)
    ensures
        w == num_width(n as nat),
        w <= 39,
    decreases n,
{
    if n < 10 {
        1
    } else {
        let w = width(n / 10);
        proof {
            assert(pow10(39) == 1_000_000_000_000_000_000_000_000_000_000_000_000_000) by {
                reveal_with_fuel(pow10, 40);
            }
            lemma_width_at_most(n as nat, 39);
        }
        1 + w
    }
}

proof fn lemma_width_at_most(n: nat, k: nat)
    requires
        k >= 1,
        n < pow10(k),
    ensures
        num_width(n) <= k,
    decreases k,
{
    if n >= 10 {
        if k == 1 {
            assert(pow10(1) == 10) by {
                reveal_with_fuel(pow10, 2);
            }
        } else {
            lemma_width_at_most(n / 10, (k - 1) as nat);
        }
    }
}

/// Appends `n` in decimal.
pub fn push_decimal(out: &mut String, n: u128)
    ensures
        final(out)@ == old(out)@ + dec_text(n as nat),
{
    let w = width(n);
    push_digits(out, n, w);
}

/// `n` in decimal.
pub fn decimal_text(n: u128) -> (r: String)
    ensures
        r@ == dec_text(n as nat),
{
    let mut s = String::new();
    push_decimal(&mut s, n);
    assert(Seq::<char>::empty() + dec_text(n as nat) =~= dec_text(n as nat));
    s
}

/// `v` in decimal, signed.
pub fn signed_decimal_text(v: i64) -> (r: String)
    ensures
        r@ == signed_text(v as int),
{
    let mut s = String::new();
    if v < 0 {
        proof {
            reveal_strlit("-");
        }
        s.append("-");
        let m: u128 = (0i128 - v as i128) as u128;
        push_decimal(&mut s, m);
        assert(s@ =~= seq!['-'] + dec_text((-v) as nat));
    } else {
        push_decimal(&mut s, v as u128);
        assert(s@ =~= dec_text(v as nat));
    }
    s
}

/// The fixed-point text of `n` units of one hundredth (`k == 2`) or one
/// millionth (`k == 6`).
pub fn fixed_point_text(n: u128, k: usize) -> (r: String)
    requires
        k == 2 || k == 6,
    ensures
        r@ == fixed_text(n as nat, k as nat),
{
    let unit: u128 = if k == 2 {
        100
    } else {
        1_000_000
    };
    assert(pow10(2) == 100) by {
        reveal_with_fuel(pow10, 3);
    }
    assert(pow10(6) == 1_000_000) by {
        reveal_with_fuel(pow10, 7);
    }
    assert(unit == pow10(k as nat));
    let mut s = String::new();
    push_decimal(&mut s, n / unit);
    proof {
        reveal_strlit(".");
    }
    s.append(".");
    push_digits(&mut s, n % unit, k);
    assert(s@ =~= fixed_text(n as nat, k as nat));
    s
}

} // verus!
