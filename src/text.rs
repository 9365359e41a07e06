//! Decimal text: integers in base ten and values rounded to one decimal digit.
use vstd::prelude::*;

verus! {

/// The character of a decimal digit.
pub open spec fn digit_char(d: nat) -> char {
    if d == 0 {
        '0'
    } else if d == 1 {
        '1'
    } else if d == 2 {
        '2'
    } else if d == 3 {
        '3'
    } else if d == 4 {
        '4'
    } else if d == 5 {
        '5'
    } else if d == 6 {
        '6'
    } else if d == 7 {
        '7'
    } else if d == 8 {
        '8'
    } else {
        '9'
    }
}

/// `n` written in base ten, without leading zeros.
pub open spec fn decimal(n: nat) -> Seq<char>
    decreases n,
{
    if n < 10 {
        seq![digit_char(n)]
    } else {
        decimal(n / 10).push(digit_char(n % 10))
    }
}

/// The integer nearest to `num / den`; a tie goes to the even neighbour.
pub open spec fn round_half_even(num: nat, den: nat) -> nat
    recommends
        den > 0,
{
    let q = num / den;
    let r = num % den;
    if 2 * r < den {
        q
    } else if 2 * r > den {
        q + 1
    } else if q % 2 == 0 {
        q
    } else {
        q + 1
    }
}

/// `num / den` in tenths, rounded to the nearest tenth (ties to even).
pub open spec fn tenths_of_ratio(num: int, den: nat) -> int {
    if num < 0 {
        -(round_half_even((10 * -num) as nat, den))
    } else {
        round_half_even((10 * num) as nat, den) as int
    }
}

/// A number of tenths written with exactly one digit after the point.
pub open spec fn one_decimal_text(t: int) -> Seq<char> {
    let m = if t < 0 { -t } else { t };
    let sign = if t < 0 { seq!['-'] } else { Seq::<char>::empty() };
    sign + decimal((m / 10) as nat) + seq!['.', digit_char((m % 10) as nat)]
}

fn digit_str(d: u128) -> (r: &'static str)
    requires
        d < 10,
    ensures
        r@ == seq![digit_char(d as nat)],
{
    proof {
        reveal_strlit("0");
        reveal_strlit("1");
        reveal_strlit("2");
        reveal_strlit("3");
        reveal_strlit("4");
        reveal_strlit("5");
        reveal_strlit("6");
        reveal_strlit("7");
        reveal_strlit("8");
        reveal_strlit("9");
    }
    if d == 0 {
        "0"
    } else if d == 1 {
        "1"
    } else if d == 2 {
        "2"
    } else if d == 3 {
        "3"
    } else if d == 4 {
        "4"
    } else if d == 5 {
        "5"
    } else if d == 6 {
        "6"
    } else if d == 7 {
        "7"
    } else if d == 8 {
        "8"
    } else {
        "9"
    }
}

/// Appends `n` in base ten to `out`.
pub fn push_decimal(out: &mut String, n: u128)
    ensures
        final(out)@ == old(out)@ + decimal(n as nat),
    decreases n,
{
    if n >= 10 {
        push_decimal(out, n / 10);
    }
    out.append(digit_str(n % 10));
    proof {
        if n < 10 {
            assert(n % 10 == n);
        }
        assert(out@ =~= old(out)@ + decimal(n as nat));
    }
}

/// `n` in base ten.
pub fn decimal_string(n: u128) -> (r: String)
    ensures
        r@ == decimal(n as nat),
{
    let mut out = String::new();
    push_decimal(&mut out, n);
    proof {
        assert(out@ =~= decimal(n as nat));
    }
    out
}

/// The text depends on the value alone: the same ratio written with both
/// sides multiplied by `k` is rounded to the same tenths, so formatting a value
/// again, in whatever form, gives the same string.
pub proof fn lemma_format_depends_on_value_only(num: int, den: nat, k: nat)
    requires
        den > 0,
        k > 0,
    ensures
        tenths_of_ratio(num * k, den * k) == tenths_of_ratio(num, den),
        one_decimal_text(tenths_of_ratio(num * k, den * k)) == one_decimal_text(
            tenths_of_ratio(num, den),
        ),
{
    let a: nat = if num < 0 { (10 * -num) as nat } else { (10 * num) as nat };
    let q = a / den;
    let r = a % den;
    vstd::arithmetic::div_mod::lemma_fundamental_div_mod(a as int, den as int);
    assert(a * k == q * (den * k) + r * k) by (nonlinear_arith)
        requires
            a == q * den + r,
    ;
    assert(0 <= r * k < den * k) by (nonlinear_arith)
        requires
            0 <= r < den,
            k > 0,
    ;
    vstd::arithmetic::div_mod::lemma_fundamental_div_mod_converse(
        (a * k) as int,
        (den * k) as int,
        q as int,
        (r * k) as int,
    );
    assert(2 * (r * k) < den * k <==> 2 * r < den) by (nonlinear_arith)
        requires
            k > 0,
    ;
    assert(2 * (r * k) > den * k <==> 2 * r > den) by (nonlinear_arith)
        requires
            k > 0,
    ;
    if num < 0 {
        assert((10 * -(num * k)) == a * k) by (nonlinear_arith)
            requires
                a == 10 * -num,
        ;
        assert(num * k < 0) by (nonlinear_arith)
            requires
                num < 0,
                k > 0,
        ;
    } else {
        assert((10 * (num * k)) == a * k) by (nonlinear_arith)
            requires
                a == 10 * num,
        ;
        assert(num * k >= 0) by (nonlinear_arith)
            requires
                num >= 0,
                k > 0,
        ;
    }
}

/// Writes `num / den`, rounded to tenths, with one digit after the point.
pub(crate) fn format_scaled(negative: bool, num: u64, den: u64) -> (r: String)
    requires
        den > 0,
    ensures
        r@ == one_decimal_text(tenths_of_ratio(if negative { -(num as int) } else { num as int }, den as nat)),
{
    let m: u128 = num as u128 * 10;
    let q: u128 = m / (den as u128);
    let rem: u128 = m % (den as u128);
    let t: u128 = if 2 * rem < den as u128 {
        q
    } else if 2 * rem > den as u128 {
        q + 1
    } else if q % 2 == 0 {
        q
    } else {
        q + 1
    };
    proof {
        reveal_strlit("-");
        reveal_strlit(".");
        assert(t == round_half_even((10 * num) as nat, den as nat));
    }
    let mut out = String::new();
    if negative && t > 0 {
        out.append("-");
    }
    push_decimal(&mut out, t / 10);
    out.append(".");
    out.append(digit_str(t % 10));
    proof {
        let v = tenths_of_ratio(if negative { -(num as int) } else { num as int }, den as nat);
        if negative && num > 0 {
            assert(-(-(num as int)) == num as int);
            assert(v == -(round_half_even((10 * num) as nat, den as nat) as int));
        } else if negative {
            assert(num == 0);
            assert(q == 0 && rem == 0) by (nonlinear_arith)
                requires
                    m == 0,
                    q == m / (den as u128),
                    rem == m % (den as u128),
                    den > 0,
            ;
            assert(v == round_half_even(0, den as nat));
        }
        assert(v == if negative { -(t as int) } else { t as int });
        assert(out@ =~= one_decimal_text(v));
    }
    out
}

/// `num / den` rounded to the nearest tenth (a tie goes to the even tenth) and
/// written with exactly one digit after the decimal point, such as `42.4`.
pub fn format_ratio(num: i64, den: u64) -> (r: String)
    requires
        den > 0,
    ensures
        r@ == one_decimal_text(tenths_of_ratio(num as int, den as nat)),
{
    if num < 0 {
        let m: u64 = (-(num as i128)) as u64;
        format_scaled(true, m, den)
    } else {
        format_scaled(false, num as u64, den)
    }
}

} // verus!
