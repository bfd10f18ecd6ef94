//! Quote information for one symbol over a period, and its rendering as a
//! single delimited line.

use crate::analyse;
use crate::analyse::{
    lemma_seq_max_contains, lemma_seq_min_contains, lemma_sum_range_bound, prices_bounded,
    spec_currency_symbol, spec_price_diff, sum_range, Ratio, LEN_MAX, PRICE_MAX,
};
use crate::fmt::{fmt_2dp, spec_fmt_2dp, FMT_DEN_MAX, FMT_NUM_MAX, SCALE};
use vstd::prelude::*;

verus! {

/// Latest timestamp the rendering accepts: 9999-12-31T23:59:59 UTC.
pub const TS_MAX: i64 = 253_402_300_799;

/// Window width of the trailing average column.
pub const SMA_WINDOW: usize = 30;

/// The RFC 3339 rendering of a UTC timestamp, as chrono produces it.
pub uninterp spec fn rfc3339_of(secs: int) -> Seq<char>;

/// Relies on chrono's `DateTime::<Utc>::from_timestamp` and
/// `DateTime::to_rfc3339`: for a timestamp within range the constructor
/// succeeds, and the rendering is a function of the timestamp alone.
#[verifier::external_body]
fn rfc3339_utc(secs: i64) -> (r: String)
    requires
        0 <= secs <= TS_MAX,
    ensures
        r@ == rfc3339_of(secs as int),
{
    let dt = chrono::DateTime::<chrono::Utc>::from_timestamp(secs, 0).unwrap();
    dt.to_rfc3339()
}

/// A failure while building a ticker from fetched quote data.
#[derive(Debug)]
pub struct TickerError(String);

impl View for TickerError {
    type V = Seq<char>;

    closed spec fn view(&self) -> Seq<char> {
        self.0@
    }
}

impl Clone for TickerError {
    fn clone(&self) -> (res: Self)
        ensures
            res == *self,
    {
        TickerError(self.0.clone())
    }
}

impl TickerError {
    /// The diagnostic line for this error.
    pub fn message(&self) -> (r: String)
        ensures
            r@ == "Ticker Error:"@ + self@,
    {
        let mut r = String::from_str("Ticker Error:");
        r.append(self.0.as_str());
        r
    }
}

/// The symbol and currency reported alongside one fetched series.
pub struct SeriesMeta {
    pub symbol: String,
    pub currency: String,
}

/// One fetched sample: a timestamp and the adjusted close price in
/// fixed-point units.
pub struct QuotePoint {
    pub timestamp: u64,
    pub adjclose: i64,
}

/// A fetched response reduced to plain values: the reported series metadata
/// and the daily samples.
pub struct QuoteBatch {
    pub metas: Vec<SeriesMeta>,
    pub points: Vec<QuotePoint>,
}

/// A sample the ticker can carry: timestamp within the renderable range and
/// price within the fixed-point bounds.
pub open spec fn point_ok(p: QuotePoint) -> bool {
    &&& p.timestamp <= TS_MAX as u64
    &&& -PRICE_MAX <= p.adjclose <= PRICE_MAX
}

/// A batch whose samples the ticker can carry.
pub open spec fn points_ok(points: Seq<QuotePoint>) -> bool {
    &&& points.len() <= LEN_MAX
    &&& forall|i: int| 0 <= i < points.len() ==> point_ok(#[trigger] points[i])
}

/// A monetary field: the currency symbol, then the fixed-point value with
/// two decimal places.
pub open spec fn spec_money(currency: Seq<char>, value: int) -> Seq<char> {
    spec_currency_symbol(currency) + spec_fmt_2dp(value, SCALE as int)
}

/// The change-percent field for the exact ratio `num / den`: two decimal
/// places and a percent sign, or `-` when the ratio is undefined.
pub open spec fn spec_pct_ratio(num: int, den: int) -> Seq<char> {
    if den == 0 {
        "-"@
    } else if den < 0 {
        spec_fmt_2dp(-num, -den) + "%"@
    } else {
        spec_fmt_2dp(num, den) + "%"@
    }
}

/// The trailing-average field: the mean of the last `SMA_WINDOW` values as a
/// monetary field, or `-` when fewer samples exist.
pub open spec fn spec_avg_field(v: TickerView) -> Seq<char> {
    if v.values.len() >= SMA_WINDOW {
        spec_currency_symbol(v.currency) + spec_fmt_2dp(
            sum_range(v.values, v.values.len() - (SMA_WINDOW as int), v.values.len() as int),
            (SMA_WINDOW as int) * (SCALE as int),
        )
    } else {
        "-"@
    }
}

/// The full csv line for a ticker.
pub open spec fn spec_csv_line(v: TickerView) -> Seq<char> {
    (if v.times.len() == 0 {
        "-"@
    } else {
        rfc3339_of(v.times[0] as int)
    }) + ","@ + v.symbol + ","@ + (if v.values.len() == 0 {
        "-"@
    } else {
        spec_money(v.currency, v.values.last() as int)
    }) + ","@ + (if v.values.len() == 0 {
        "-"@
    } else {
        spec_pct_ratio(100 * (v.values.last() - v.values[0]), v.values[0] as int)
    }) + ","@ + (if v.values.len() == 0 {
        "-"@
    } else {
        spec_money(v.currency, analyse::seq_min(v.values) as int)
    }) + ","@ + (if v.values.len() == 0 {
        "-"@
    } else {
        spec_money(v.currency, analyse::seq_max(v.values) as int)
    }) + ","@ + spec_avg_field(v)
}

/// End-to-end consistency: on a non-empty series, the change-percent column
/// of the csv line is exactly the rendering of the percentage that
/// `analyse::price_diff` computes, and the trailing-average column is
/// exactly the rendering of the last mean that `analyse::n_window_sma`
/// computes with the `SMA_WINDOW` window, on the ticker's own series.
pub proof fn lemma_csv_line_reflects_stats(v: TickerView)
    requires
        v.values.len() > 0,
        prices_bounded(v.values),
    ensures
        spec_price_diff(v.values) matches Some(pd) && spec_csv_line(v) == (if v.times.len() == 0 {
            "-"@
        } else {
            rfc3339_of(v.times[0] as int)
        }) + ","@ + v.symbol + ","@ + spec_money(v.currency, v.values.last() as int) + ","@
            + spec_pct_ratio(pd.1.num as int, pd.1.den as int) + ","@ + spec_money(
            v.currency,
            analyse::seq_min(v.values) as int,
        ) + ","@ + spec_money(v.currency, analyse::seq_max(v.values) as int) + ","@ + (
        if v.values.len() >= SMA_WINDOW {
            spec_currency_symbol(v.currency) + spec_fmt_2dp(
                sum_range(v.values, v.values.len() - (SMA_WINDOW as int), v.values.len() as int),
                (SMA_WINDOW as int) * (SCALE as int),
            )
        } else {
            "-"@
        }),
{
}

/// A monetary field rendered from a bounded fixed-point value.
fn money_field(currency: &str, value: i64) -> (r: String)
    requires
        -PRICE_MAX <= value <= PRICE_MAX,
    ensures
        r@ == spec_money(currency@, value as int),
{
    let mut r = String::from_str(analyse::currency_symbol(currency));
    let f = fmt_2dp(value, SCALE);
    r.append(f.as_str());
    r
}

/// The change-percent field rendered from an exact ratio.
fn pct_field(d: Ratio) -> (r: String)
    requires
        -FMT_NUM_MAX <= d.num <= FMT_NUM_MAX,
        -FMT_DEN_MAX <= d.den <= FMT_DEN_MAX,
    ensures
        r@ == spec_pct_ratio(d.num as int, d.den as int),
{
    proof {
        reveal_strlit("-");
        reveal_strlit("%");
    }
    if d.den == 0 {
        String::from_str("-")
    } else if d.den < 0 {
        let mut r = fmt_2dp(-d.num, -d.den);
        r.append("%");
        r
    } else {
        let mut r = fmt_2dp(d.num, d.den);
        r.append("%");
        r
    }
}

/// The mathematical content of a ticker.
pub struct TickerView {
    pub symbol: Seq<char>,
    pub currency: Seq<char>,
    pub times: Seq<i64>,
    pub values: Seq<i64>,
}

/// Represent quote information for a ticker over a period of time.
pub struct Ticker {
    symbol: String,
    currency: String,
    quote_times: Vec<i64>,
    quote_values: Vec<i64>,
}

impl View for Ticker {
    type V = TickerView;

    closed spec fn view(&self) -> TickerView {
        TickerView {
            symbol: self.symbol@,
            currency: self.currency@,
            times: self.quote_times@,
            values: self.quote_values@,
        }
    }
}

impl Ticker {
    /// Timestamps renderable, series length and prices within the
    /// fixed-point bounds.
    pub open spec fn wf(&self) -> bool {
        &&& forall|i: int| 0 <= i < self@.times.len() ==> 0 <= #[trigger] self@.times[i] <= TS_MAX
        &&& self@.values.len() <= LEN_MAX
        &&& prices_bounded(self@.values)
    }

    /// Attempt to construct a new ticker from fetched quote data.
    ///
    /// Fails when the response carries no result metadata, or when a sample
    /// lies outside the range the ticker can carry (a malformed response).
    pub fn try_new(batch: QuoteBatch) -> (r: Result<Ticker, TickerError>)
        ensures
            batch.metas@.len() == 0 ==> (r matches Err(e) && e@ == "could not access results"@),
            batch.metas@.len() > 0 && !points_ok(batch.points@) ==> (r matches Err(e) && e@
                == "malformed quote data"@),
            batch.metas@.len() > 0 && points_ok(batch.points@) ==> (r matches Ok(t) && t.wf()
                && t@.symbol == batch.metas@[0].symbol@ && t@.currency == batch.metas@[0].currency@
                && t@.times == batch.points@.map_values(|p: QuotePoint| p.timestamp as i64)
                && t@.values == batch.points@.map_values(|p: QuotePoint| p.adjclose)),
    {
        proof {
            reveal_strlit("could not access results");
            reveal_strlit("malformed quote data");
        }
        if batch.metas.len() == 0 {
            return Err(TickerError(String::from_str("could not access results")));
        }
        if batch.points.len() > LEN_MAX {
            return Err(TickerError(String::from_str("malformed quote data")));
        }
        let mut quote_times: Vec<i64> = Vec::new();
        let mut quote_values: Vec<i64> = Vec::new();
        let mut i: usize = 0;
        while i < batch.points.len()
            invariant
                0 <= i <= batch.points@.len(),
                batch.metas@.len() > 0,
                batch.points@.len() <= LEN_MAX,
                forall|k: int| 0 <= k < i ==> point_ok(#[trigger] batch.points@[k]),
                quote_times@ == batch.points@.take(i as int).map_values(
                    |p: QuotePoint| p.timestamp as i64,
                ),
                quote_values@ == batch.points@.take(i as int).map_values(
                    |p: QuotePoint| p.adjclose,
                ),
            decreases batch.points@.len() - i,
        {
            let p = &batch.points[i];
            if p.timestamp > TS_MAX as u64 || p.adjclose > PRICE_MAX || p.adjclose < -PRICE_MAX {
                return Err(TickerError(String::from_str("malformed quote data")));
            }
            quote_times.push(p.timestamp as i64);
            quote_values.push(p.adjclose);
            proof {
                assert(batch.points@.take(i + 1).map_values(|p: QuotePoint| p.timestamp as i64)
                    =~= batch.points@.take(i as int).map_values(
                    |p: QuotePoint| p.timestamp as i64,
                ).push(batch.points@[i as int].timestamp as i64));
                assert(batch.points@.take(i + 1).map_values(|p: QuotePoint| p.adjclose)
                    =~= batch.points@.take(i as int).map_values(|p: QuotePoint| p.adjclose).push(
                    batch.points@[i as int].adjclose,
                ));
            }
            i += 1;
        }
        proof {
            assert(batch.points@.take(batch.points@.len() as int) =~= batch.points@);
        }
        let meta = &batch.metas[0];
        Ok(
            Ticker {
                symbol: meta.symbol.clone(),
                currency: meta.currency.clone(),
                quote_times,
                quote_values,
            },
        )
    }

    /// The quote data in a single csv line.
    ///
    /// Fields in order, comma-separated: period start (RFC 3339, or `-` when
    /// no samples), symbol, last price, percentage change from first to last,
    /// minimum, maximum, and the mean of the last `SMA_WINDOW` values;
    /// monetary fields carry the currency symbol, and any column whose value
    /// is undefined renders as `-`.
    pub fn csv_line(&self) -> (r: String)
        requires
            self.wf(),
        ensures
            r@ == spec_csv_line(self@),
    {
        proof {
            reveal_strlit("-");
            reveal_strlit(",");
        }
        let mut out: String = if self.quote_times.len() == 0 {
            String::from_str("-")
        } else {
            proof {
                assert(0 <= self@.times[0] <= TS_MAX);
            }
            rfc3339_utc(self.quote_times[0])
        };
        out.append(",");
        out.append(self.symbol.as_str());
        out.append(",");
        if self.quote_values.len() == 0 {
            out.append("-");
        } else {
            let m = money_field(
                self.currency.as_str(),
                self.quote_values[self.quote_values.len() - 1],
            );
            out.append(m.as_str());
        }
        out.append(",");
        match analyse::price_diff(&self.quote_values) {
            None => out.append("-"),
            Some(pd) => {
                let p = pct_field(pd.1);
                out.append(p.as_str());
            },
        }
        out.append(",");
        match analyse::min(&self.quote_values) {
            None => out.append("-"),
            Some(m) => {
                proof {
                    lemma_seq_min_contains(self@.values);
                }
                let f = money_field(self.currency.as_str(), m);
                out.append(f.as_str());
            },
        }
        out.append(",");
        match analyse::max(&self.quote_values) {
            None => out.append("-"),
            Some(m) => {
                proof {
                    lemma_seq_max_contains(self@.values);
                }
                let f = money_field(self.currency.as_str(), m);
                out.append(f.as_str());
            },
        }
        out.append(",");
        match analyse::n_window_sma(SMA_WINDOW, &self.quote_values) {
            None => {
                proof {
                    assert(false);
                }
            },
            Some(v) => {
                if v.len() == 0 {
                    out.append("-");
                } else {
                    let last = v[v.len() - 1];
                    proof {
                        lemma_sum_range_bound(
                            self@.values,
                            self@.values.len() - SMA_WINDOW,
                            self@.values.len() as int,
                        );
                    }
                    let mut f = String::from_str(
                        analyse::currency_symbol(self.currency.as_str()),
                    );
                    let t = fmt_2dp(last.num, last.den * SCALE);
                    f.append(t.as_str());
                    out.append(f.as_str());
                }
            },
        }
        proof {
            assert(out@ =~= spec_csv_line(self@));
        }
        out
    }

    /// The header for csv output from this ticker.
    pub fn csv_header() -> (r: &'static str)
        ensures
            r@ == "period start,symbol,price,change %,min,max,30d avg"@,
    {
        "period start,symbol,price,change %,min,max,30d avg"
    }
}

} // verus!
