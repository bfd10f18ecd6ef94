//! Statistics over a series of fixed-point prices: minimum, maximum, first-to-
//! last price change, and an n-window simple moving average. Prices count
//! `crate::fmt::SCALE`-ths of a currency unit; every function is total over
//! series whose values lie within `PRICE_MAX` and whose length is within
//! `LEN_MAX`.

use vstd::prelude::*;

verus! {

/// Largest price magnitude a series may carry.
pub const PRICE_MAX: i64 = 1_000_000_000_000;

/// Longest series the statistics accept.
pub const LEN_MAX: usize = 10_000;

/// Every value of `s` has magnitude at most `PRICE_MAX`.
pub open spec fn prices_bounded(s: Seq<i64>) -> bool {
    forall|i: int| 0 <= i < s.len() ==> -PRICE_MAX <= #[trigger] s[i] <= PRICE_MAX
}

/// The least value of a non-empty sequence.
pub open spec fn seq_min(s: Seq<i64>) -> i64
    recommends
        s.len() > 0,
    decreases s.len(),
{
    if s.len() <= 1 {
        s[0]
    } else if s[0] <= seq_min(s.drop_first()) {
        s[0]
    } else {
        seq_min(s.drop_first())
    }
}

/// The greatest value of a non-empty sequence.
pub open spec fn seq_max(s: Seq<i64>) -> i64
    recommends
        s.len() > 0,
    decreases s.len(),
{
    if s.len() <= 1 {
        s[0]
    } else if s[0] >= seq_max(s.drop_first()) {
        s[0]
    } else {
        seq_max(s.drop_first())
    }
}

proof fn lemma_seq_min_extend(s: Seq<i64>, v: i64)
    requires
        s.len() > 0,
    ensures
        seq_min(s.push(v)) == if v < seq_min(s) {
            v
        } else {
            seq_min(s)
        },
    decreases s.len(),
{
    assert(s.push(v)[0] == s[0]);
    if s.len() == 1 {
        assert(s.push(v).drop_first() =~= seq![v]);
        assert(seq_min(seq![v]) == v);
    } else {
        assert(s.push(v).drop_first() =~= s.drop_first().push(v));
        lemma_seq_min_extend(s.drop_first(), v);
    }
}

proof fn lemma_seq_max_extend(s: Seq<i64>, v: i64)
    requires
        s.len() > 0,
    ensures
        seq_max(s.push(v)) == if v > seq_max(s) {
            v
        } else {
            seq_max(s)
        },
    decreases s.len(),
{
    assert(s.push(v)[0] == s[0]);
    if s.len() == 1 {
        assert(s.push(v).drop_first() =~= seq![v]);
        assert(seq_max(seq![v]) == v);
    } else {
        assert(s.push(v).drop_first() =~= s.drop_first().push(v));
        lemma_seq_max_extend(s.drop_first(), v);
    }
}

/// The least value of a non-empty sequence is a lower bound on every value.
pub proof fn lemma_seq_min_le(s: Seq<i64>)
    requires
        s.len() > 0,
    ensures
        forall|i: int| 0 <= i < s.len() ==> seq_min(s) <= #[trigger] s[i],
    decreases s.len(),
{
    if s.len() > 1 {
        lemma_seq_min_le(s.drop_first());
        assert forall|i: int| 0 <= i < s.len() implies seq_min(s) <= #[trigger] s[i] by {
            if i > 0 {
                assert(s.drop_first()[i - 1] == s[i]);
            }
        }
    }
}

/// The greatest value of a non-empty sequence is an upper bound on every
/// value.
pub proof fn lemma_seq_max_ge(s: Seq<i64>)
    requires
        s.len() > 0,
    ensures
        forall|i: int| 0 <= i < s.len() ==> #[trigger] s[i] <= seq_max(s),
    decreases s.len(),
{
    if s.len() > 1 {
        lemma_seq_max_ge(s.drop_first());
        assert forall|i: int| 0 <= i < s.len() implies #[trigger] s[i] <= seq_max(s) by {
            if i > 0 {
                assert(s.drop_first()[i - 1] == s[i]);
            }
        }
    }
}

/// The least value of a non-empty sequence is one of its values.
pub proof fn lemma_seq_min_contains(s: Seq<i64>)
    requires
        s.len() > 0,
    ensures
        s.contains(seq_min(s)),
    decreases s.len(),
{
    if s.len() > 1 {
        lemma_seq_min_contains(s.drop_first());
        if s[0] > seq_min(s.drop_first()) {
            let i = choose|i: int| 0 <= i < s.drop_first().len() && s.drop_first()[i] == seq_min(
                s.drop_first(),
            );
            assert(s[i + 1] == seq_min(s));
        }
    }
}

/// The greatest value of a non-empty sequence is one of its values.
pub proof fn lemma_seq_max_contains(s: Seq<i64>)
    requires
        s.len() > 0,
    ensures
        s.contains(seq_max(s)),
    decreases s.len(),
{
    if s.len() > 1 {
        lemma_seq_max_contains(s.drop_first());
        if s[0] < seq_max(s.drop_first()) {
            let i = choose|i: int| 0 <= i < s.drop_first().len() && s.drop_first()[i] == seq_max(
                s.drop_first(),
            );
            assert(s[i + 1] == seq_max(s));
        }
    }
}

/// The long-form currency code rendered as a presentation symbol: `"USD"`
/// becomes `"$"`, anything else is returned unchanged.
pub open spec fn spec_currency_symbol(s: Seq<char>) -> Seq<char> {
    if s == "USD"@ {
        "$"@
    } else {
        s
    }
}

/// Acquire a currency symbol for the long form currency symbol.
///
/// The only currently handled case is to represent USD as $. In all other
/// cases the original long form symbol is returned.
pub fn currency_symbol(s: &str) -> (r: &str)
    ensures
        r@ == spec_currency_symbol(s@),
{
    let owned: String = s.to_owned();
    let usd: String = String::from_str("USD");
    if owned.eq(&usd) {
        "$"
    } else {
        s
    }
}

/// Find the minimum of a sequence of prices: `None` only on an empty series,
/// otherwise a value of the series no value of it lies below.
pub fn min(series: &Vec<i64>) -> (r: Option<i64>)
    ensures
        r == if series@.len() == 0 {
            None::<i64>
        } else {
            Some(seq_min(series@))
        },
        r matches Some(m) ==> series@.contains(m) && (forall|i: int|
            0 <= i < series@.len() ==> m <= #[trigger] series@[i]),
{
    proof {
        if series@.len() > 0 {
            lemma_seq_min_contains(series@);
            lemma_seq_min_le(series@);
        }
    }
    if series.len() == 0 {
        return None;
    }
    let mut best: i64 = series[0];
    let mut i: usize = 1;
    while i < series.len()
        invariant
            1 <= i <= series@.len(),
            best == seq_min(series@.take(i as int)),
        decreases series@.len() - i,
    {
        proof {
            lemma_seq_min_extend(series@.take(i as int), series@[i as int]);
            assert(series@.take(i as int).push(series@[i as int]) =~= series@.take(i + 1));
        }
        if series[i] < best {
            best = series[i];
        }
        i += 1;
    }
    proof {
        assert(series@.take(series@.len() as int) =~= series@);
    }
    Some(best)
}

/// Find the maximum of a sequence of prices: `None` only on an empty series,
/// otherwise a value of the series no value of it lies above.
pub fn max(series: &Vec<i64>) -> (r: Option<i64>)
    ensures
        r == if series@.len() == 0 {
            None::<i64>
        } else {
            Some(seq_max(series@))
        },
        r matches Some(m) ==> series@.contains(m) && (forall|i: int|
            0 <= i < series@.len() ==> #[trigger] series@[i] <= m),
{
    proof {
        if series@.len() > 0 {
            lemma_seq_max_contains(series@);
            lemma_seq_max_ge(series@);
        }
    }
    if series.len() == 0 {
        return None;
    }
    let mut best: i64 = series[0];
    let mut i: usize = 1;
    while i < series.len()
        invariant
            1 <= i <= series@.len(),
            best == seq_max(series@.take(i as int)),
        decreases series@.len() - i,
    {
        proof {
            lemma_seq_max_extend(series@.take(i as int), series@[i as int]);
            assert(series@.take(i as int).push(series@[i as int]) =~= series@.take(i + 1));
        }
        if series[i] > best {
            best = series[i];
        }
        i += 1;
    }
    proof {
        assert(series@.take(series@.len() as int) =~= series@);
    }
    Some(best)
}

/// An exact quotient `num / den`. A zero denominator marks a quotient that is
/// undefined (the fixed-point stand-in for a non-finite value); consumers
/// render it as `"-"`.
#[derive(Clone, Copy, Debug, PartialEq, Eq, Structural)]
pub struct Ratio {
    pub num: i64,
    pub den: i64,
}

/// The absolute and percentage price change of a non-empty series: the
/// difference from first to last value, and `100 * (last - first) / first`
/// as an exact ratio (undefined when the first value is zero).
pub open spec fn spec_price_diff(s: Seq<i64>) -> Option<(i64, Ratio)> {
    if s.len() == 0 {
        None
    } else {
        Some(
            (
                (s.last() - s[0]) as i64,
                (Ratio { num: (100 * (s.last() - s[0])) as i64, den: s[0] }),
            ),
        )
    }
}

/// Find the price difference from the first to the last value of a series,
/// as absolute change and as a percentage of the first value.
///
/// The percentage is an exact ratio; when the first value is zero it is
/// undefined (zero denominator) rather than a crash.
pub fn price_diff(series: &Vec<i64>) -> (r: Option<(i64, Ratio)>)
    requires
        prices_bounded(series@),
    ensures
        r == spec_price_diff(series@),
{
    if series.len() == 0 {
        return None;
    }
    let first: i64 = series[0];
    let last: i64 = series[series.len() - 1];
    let diff: i64 = last - first;
    Some((diff, Ratio { num: 100 * diff, den: first }))
}

/// The sum of `s[i..j]`.
pub open spec fn sum_range(s: Seq<i64>, i: int, j: int) -> int
    decreases j - i,
{
    if i >= j {
        0
    } else {
        sum_range(s, i, j - 1) + s[j - 1]
    }
}

proof fn lemma_sum_range_drop_first(s: Seq<i64>, i: int, j: int)
    requires
        0 <= i < j <= s.len(),
    ensures
        sum_range(s, i, j) == s[i] + sum_range(s, i + 1, j),
    decreases j - i,
{
    if i + 1 < j {
        lemma_sum_range_drop_first(s, i, j - 1);
    } else {
        assert(sum_range(s, i, i) == 0);
        assert(sum_range(s, i + 1, j) == 0);
    }
}

/// The sum of a bounded slice is itself bounded by its width times
/// `PRICE_MAX`.
pub proof fn lemma_sum_range_bound(s: Seq<i64>, i: int, j: int)
    requires
        0 <= i <= j <= s.len(),
        prices_bounded(s),
    ensures
        -(j - i) * PRICE_MAX <= sum_range(s, i, j) <= (j - i) * PRICE_MAX,
    decreases j - i,
{
    if i < j {
        lemma_sum_range_bound(s, i, j - 1);
        assert((j - i) * PRICE_MAX == (j - 1 - i) * PRICE_MAX + PRICE_MAX) by (nonlinear_arith);
    }
}

/// Produce the simple moving averages of the series for the given window
/// size: `None` only for a zero window; otherwise one entry per window, each
/// the exact mean of its `n` values (`len - n + 1` entries when `n <= len`,
/// none otherwise). The running total is updated incrementally, adding the
/// entering value and subtracting the leaving one.
pub fn n_window_sma(n: usize, series: &Vec<i64>) -> (r: Option<Vec<Ratio>>)
    requires
        series@.len() <= LEN_MAX,
        prices_bounded(series@),
    ensures
        (r == None::<Vec<Ratio>>) <==> n == 0,
        n >= 1 ==> (r matches Some(v) && v@.len() == (if n <= series@.len() {
            series@.len() - n + 1
        } else {
            0int
        }) && (forall|k: int|
            0 <= k < v@.len() ==> (#[trigger] v@[k]).num == sum_range(series@, k, k + n)
                && v@[k].den == n)),
{
    if n == 0 {
        return None;
    }
    let ghost s = series@;
    let mut avgs: Vec<Ratio> = Vec::new();
    let mut running_total: i64 = 0;
    let mut w_end: usize = 0;
    while w_end < series.len()
        invariant
            0 <= w_end <= s.len(),
            s == series@,
            s.len() <= LEN_MAX,
            prices_bounded(s),
            1 <= n,
            running_total == sum_range(
                s,
                if w_end <= n {
                    0int
                } else {
                    w_end - n
                },
                w_end as int,
            ),
            avgs@.len() == (if w_end + 1 > n {
                w_end + 1 - n
            } else {
                0int
            }),
            forall|k: int|
                0 <= k < avgs@.len() ==> (#[trigger] avgs@[k]).num == sum_range(s, k, k + n)
                    && avgs@[k].den == n,
        decreases s.len() - w_end,
    {
        let ghost lo: int = if w_end <= n {
            0int
        } else {
            w_end - n
        };
        proof {
            lemma_sum_range_bound(s, lo, w_end as int);
            assert(sum_range(s, lo, w_end as int + 1) == sum_range(s, lo, w_end as int)
                + s[w_end as int]);
        }
        running_total = running_total + series[w_end];
        if w_end >= n {
            proof {
                lemma_sum_range_drop_first(s, lo, w_end as int + 1);
                lemma_sum_range_bound(s, lo + 1, w_end as int + 1);
            }
            running_total = running_total - series[w_end - n];
        }
        if w_end + 1 >= n {
            proof {
                lemma_sum_range_bound(
                    s,
                    if w_end + 1 <= n {
                        0int
                    } else {
                        w_end + 1 - n
                    },
                    w_end as int + 1,
                );
            }
            avgs.push(Ratio { num: running_total, den: n as i64 });
        }
        w_end += 1;
    }
    Some(avgs)
}

} // verus!
