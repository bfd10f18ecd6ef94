//! Rendering of integer and fixed-point quantities as decimal text.
//!
//! Monetary values are fixed-point integers counting `SCALE`-ths of a
//! currency unit; every rendered figure shows two decimal places, with the
//! third decimal rounding half away from zero.

use vstd::prelude::*;

verus! {

/// Fixed-point values count this many units per currency unit.
pub const SCALE: i64 = 10_000;

/// The decimal digit character for `d` (`d < 10`).
pub open spec fn digit_char(d: nat) -> char {
    if d == 0 {
        '0'
    } else if d == 1 {
        '1'
    } else if d == 2 {
        '2'
    } else if d == 3 {
        '3'
    } else if d == 4 {
        '4'
    } else if d == 5 {
        '5'
    } else if d == 6 {
        '6'
    } else if d == 7 {
        '7'
    } else if d == 8 {
        '8'
    } else {
        '9'
    }
}

/// The decimal digits of `n`, most significant first, no leading zeros
/// (a single `'0'` for zero).
pub open spec fn spec_digits(n: nat) -> Seq<char>
    decreases n,
{
    if n < 10 {
        seq![digit_char(n)]
    } else {
        spec_digits(n / 10).push(digit_char(n % 10))
    }
}

/// The one-character string for a single decimal digit.
fn digit_str(d: u64) -> (r: &'static str)
    requires
        d < 10,
    ensures
        r@ == seq![digit_char(d as nat)],
{
    proof {
        reveal_strlit("0");
        reveal_strlit("1");
        reveal_strlit("2");
        reveal_strlit("3");
        reveal_strlit("4");
        reveal_strlit("5");
        reveal_strlit("6");
        reveal_strlit("7");
        reveal_strlit("8");
        reveal_strlit("9");
    }
    if d == 0 {
        "0"
    } else if d == 1 {
        "1"
    } else if d == 2 {
        "2"
    } else if d == 3 {
        "3"
    } else if d == 4 {
        "4"
    } else if d == 5 {
        "5"
    } else if d == 6 {
        "6"
    } else if d == 7 {
        "7"
    } else if d == 8 {
        "8"
    } else {
        "9"
    }
}

/// Renders `n` in decimal.
pub fn u64_to_string(n: u64) -> (r: String)
    ensures
        r@ == spec_digits(n as nat),
    decreases n,
{
    if n < 10 {
        String::from_str(digit_str(n))
    } else {
        assert(n / 10 < n) by (nonlinear_arith)
            requires
                n >= 10,
        ;
        let mut s = u64_to_string(n / 10);
        s.append(digit_str(n % 10));
        s
    }
}

/// Hundredths of `num / den` (`den > 0`), the third decimal rounding half up.
pub open spec fn spec_round2(num: nat, den: nat) -> nat {
    (200 * num + den) / (2 * den)
}

/// `num / den` rendered with two decimal places: an optional minus sign, the
/// integer part without leading zeros, a dot, and exactly two digits. The
/// third decimal rounds half away from zero; a value that rounds to zero
/// carries no sign.
pub open spec fn spec_fmt_2dp(num: int, den: int) -> Seq<char> {
    let mag = (if num >= 0 {
        num
    } else {
        -num
    }) as nat;
    let c = spec_round2(mag, den as nat);
    let sign: Seq<char> = if num < 0 && c > 0 {
        seq!['-']
    } else {
        Seq::empty()
    };
    sign + spec_digits(c / 100) + seq!['.', digit_char((c % 100) / 10), digit_char(c % 10)]
}

/// Largest numerator magnitude `fmt_2dp` accepts.
pub const FMT_NUM_MAX: i64 = 20_000_000_000_000_000;

/// Largest denominator `fmt_2dp` accepts.
pub const FMT_DEN_MAX: i64 = 10_000_000_000_000;

/// Renders `num / den` with two decimal places.
pub fn fmt_2dp(num: i64, den: i64) -> (r: String)
    requires
        1 <= den <= FMT_DEN_MAX,
        -FMT_NUM_MAX <= num <= FMT_NUM_MAX,
    ensures
        r@ == spec_fmt_2dp(num as int, den as int),
{
    proof {
        reveal_strlit("-");
        reveal_strlit(".");
    }
    let mag: u64 = if num >= 0 {
        num as u64
    } else {
        (-num) as u64
    };
    let d: u64 = den as u64;
    let c: u64 = (200 * mag + d) / (2 * d);
    let int_part: u64 = c / 100;
    let frac: u64 = c % 100;
    let mut s = if num < 0 && c > 0 {
        String::from_str("-")
    } else {
        String::new()
    };
    let digits = u64_to_string(int_part);
    s.append(digits.as_str());
    s.append(".");
    s.append(digit_str(frac / 10));
    s.append(digit_str(frac % 10));
    proof {
        assert(s@ =~= spec_fmt_2dp(num as int, den as int));
    }
    s
}

} // verus!
