// Ticker construction from fetched quote data and the rendering of csv
// lines, the query gateway's parsing and rendering, and the decimal
// formatter.

use mng_tracker::fmt::{fmt_2dp, u64_to_string};
use mng_tracker::gateway::{parse_count, render_tail};
use mng_tracker::ticker::{QuoteBatch, QuotePoint, SeriesMeta, Ticker};

fn fx(v: f64) -> i64 {
    (v * 10_000.0).round() as i64
}

fn batch(symbol: &str, currency: &str, values: &[f64]) -> QuoteBatch {
    QuoteBatch {
        metas: vec![SeriesMeta {
            symbol: symbol.to_string(),
            currency: currency.to_string(),
        }],
        points: values
            .iter()
            .enumerate()
            .map(|(i, v)| QuotePoint {
                timestamp: (i as u64) * 86_400,
                adjclose: fx(*v),
            })
            .collect(),
    }
}

#[test]
fn csv_header_is_stable() {
    assert_eq!(
        Ticker::csv_header(),
        "period start,symbol,price,change %,min,max,30d avg"
    );
}

#[test]
fn try_new_requires_result_metadata() {
    let mut b = batch("X", "USD", &[1.0]);
    b.metas.clear();
    let err = Ticker::try_new(b).err().unwrap();
    assert_eq!(err.message(), "Ticker Error:could not access results");
}

#[test]
fn try_new_rejects_out_of_range_samples() {
    let mut b = batch("X", "USD", &[1.0]);
    b.points[0].adjclose = i64::MAX;
    let err = Ticker::try_new(b).err().unwrap();
    assert_eq!(err.message(), "Ticker Error:malformed quote data");
}

#[test]
fn csv_line_mocked_nine_point_series() {
    let data = [1.0, 11.2, -13.6, 0.004, 500.9, -27.1, -26.2, 5.4, 2.0];
    let t = Ticker::try_new(batch("MOCK", "USD", &data)).unwrap();
    let line = t.csv_line();
    let fields: Vec<&str> = line.split(',').collect();
    assert_eq!(fields.len(), 7);
    // First sample is at the epoch.
    assert_eq!(fields[0], "1970-01-01T00:00:00+00:00");
    assert_eq!(fields[1], "MOCK");
    assert_eq!(fields[2], "$2.00");
    assert_eq!(fields[3], "100.00%");
    assert_eq!(fields[4], "$-27.10");
    assert_eq!(fields[5], "$500.90");
    // Fewer than thirty samples: no trailing average.
    assert_eq!(fields[6], "-");
}

#[test]
fn csv_line_fields_match_statistics_module() {
    // The line's change-percent and trailing-average columns agree with what
    // the statistics module computes directly on the same series.
    let data = [1.0, 11.2, -13.6, 0.004, 500.9, -27.1, -26.2, 5.4, 2.0];
    let values: Vec<i64> = data.iter().map(|v| fx(*v)).collect();
    let t = Ticker::try_new(batch("MOCK", "USD", &data)).unwrap();
    let line = t.csv_line();
    let fields: Vec<&str> = line.split(',').collect();

    let (_, pct) = mng_tracker::analyse::price_diff(&values).unwrap();
    let expected_pct = format!("{:.2}%", pct.num as f64 / pct.den as f64);
    assert_eq!(fields[3], expected_pct);

    let avgs = mng_tracker::analyse::n_window_sma(30, &values).unwrap();
    assert!(avgs.last().is_none());
    assert_eq!(fields[6], "-");
}

#[test]
fn csv_line_thirty_day_average_present() {
    let data: Vec<f64> = (1..=30).map(|i| i as f64).collect();
    let t = Ticker::try_new(batch("AVG", "USD", &data)).unwrap();
    let line = t.csv_line();
    let fields: Vec<&str> = line.split(',').collect();
    // Mean of 1..=30 is 15.5.
    assert_eq!(fields[6], "$15.50");

    let values: Vec<i64> = data.iter().map(|v| fx(*v)).collect();
    let avgs = mng_tracker::analyse::n_window_sma(30, &values).unwrap();
    let last = avgs.last().unwrap();
    let expected = format!("${:.2}", last.num as f64 / (last.den as f64 * 10_000.0));
    assert_eq!(fields[6], expected);
}

#[test]
fn csv_line_empty_series_renders_dashes() {
    let t = Ticker::try_new(batch("EMPTY", "USD", &[])).unwrap();
    assert_eq!(t.csv_line(), "-,EMPTY,-,-,-,-,-");
}

#[test]
fn csv_line_zero_first_price_renders_undefined_percent() {
    let t = Ticker::try_new(batch("Z", "USD", &[0.0, 2.0])).unwrap();
    let line = t.csv_line();
    let fields: Vec<&str> = line.split(',').collect();
    assert_eq!(fields[3], "-");
    assert_eq!(fields[2], "$2.00");
}

#[test]
fn csv_line_foreign_currency_keeps_code() {
    let t = Ticker::try_new(batch("GB", "GBP", &[1.0, 2.0])).unwrap();
    let fields_line = t.csv_line();
    let fields: Vec<&str> = fields_line.split(',').collect();
    assert_eq!(fields[2], "GBP2.00");
}

#[test]
fn parse_count_accepts_digits_only() {
    assert_eq!(parse_count("5"), Some(5));
    assert_eq!(parse_count("0"), Some(0));
    assert_eq!(parse_count("100"), Some(100));
    assert_eq!(parse_count(""), None);
    assert_eq!(parse_count("12a"), None);
    assert_eq!(parse_count("-1"), None);
    assert_eq!(parse_count("99999999999999999999999999"), None);
}

#[test]
fn render_tail_brackets_and_quotes() {
    assert_eq!(render_tail(&vec![]), "[]");
    assert_eq!(render_tail(&vec!["a".to_string()]), "[\"a\"]");
    assert_eq!(
        render_tail(&vec!["x,1".to_string(), "y,2".to_string()]),
        "[\"x,1\", \"y,2\"]"
    );
}

#[test]
fn decimal_rendering() {
    assert_eq!(u64_to_string(0), "0");
    assert_eq!(u64_to_string(90210), "90210");
    // Fixed-point values at scale 10_000, two decimals, half away from zero.
    assert_eq!(fmt_2dp(15_000, 10_000), "1.50");
    assert_eq!(fmt_2dp(-271_000, 10_000), "-27.10");
    assert_eq!(fmt_2dp(50, 10_000), "0.01");
    assert_eq!(fmt_2dp(-50, 10_000), "-0.01");
    assert_eq!(fmt_2dp(-1, 10_000), "0.00");
    assert_eq!(fmt_2dp(0, 10_000), "0.00");
    assert_eq!(fmt_2dp(1_000_000, 10_000), "100.00");
}
