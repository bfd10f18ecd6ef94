// Statistics over fixed-point price series. Prices count 1/10_000 of a
// currency unit: -45.3 is written -453_000.

use mng_tracker::analyse::{currency_symbol, max, min, n_window_sma, price_diff};

fn fx(v: f64) -> i64 {
    (v * 10_000.0).round() as i64
}

#[test]
fn lib_test_min() {
    let series = vec![fx(-1.5), fx(0.0), fx(-45.3), fx(27.0), fx(0.7)];
    assert_eq!(min(&series).unwrap(), fx(-45.3));
}

#[test]
fn lib_test_max() {
    let series = vec![fx(-1.5), fx(0.0), fx(-45.3), fx(27.0), fx(0.7)];
    assert_eq!(max(&series).unwrap(), fx(27.0));
}

#[test]
fn ticker_test_min() {
    assert_eq!(
        min(&vec![-15_000, 0, -453_000, 270_000, 7_000]).unwrap(),
        -453_000
    );
}

#[test]
fn ticker_test_max() {
    assert_eq!(
        max(&vec![-15_000, 0, -453_000, 270_000, 7_000]).unwrap(),
        270_000
    );
}

#[test]
fn min_max_empty_is_none() {
    let empty: Vec<i64> = vec![];
    assert_eq!(min(&empty), None);
    assert_eq!(max(&empty), None);
}

#[test]
fn min_max_doc_series() {
    let series = vec![fx(11.2), fx(-13.6), fx(0.004), fx(500.9), fx(-27.1), fx(-26.2), fx(5.4)];
    assert_eq!(min(&series).unwrap(), fx(-27.1));
    assert_eq!(max(&series).unwrap(), fx(500.9));
}

#[test]
fn price_diff_hundred_percent() {
    let series = vec![
        fx(1.0),
        fx(11.2),
        fx(-13.6),
        fx(0.004),
        fx(500.9),
        fx(-27.1),
        fx(-26.2),
        fx(5.4),
        fx(2.0),
    ];
    let (abs, pct) = price_diff(&series).unwrap();
    // last - first = 2.0 - 1.0 = 1.0
    assert_eq!(abs, fx(1.0));
    // 100 * (last - first) / first = 100.0 percent, as the exact ratio
    assert_eq!(pct.num, 100 * fx(1.0));
    assert_eq!(pct.den, fx(1.0));
    assert_eq!(pct.num as f64 / pct.den as f64, 100.0);
}

#[test]
fn price_diff_empty_is_none() {
    assert_eq!(price_diff(&vec![]), None);
}

#[test]
fn price_diff_zero_first_is_undefined_ratio() {
    let (abs, pct) = price_diff(&vec![0, 20_000]).unwrap();
    assert_eq!(abs, 20_000);
    assert_eq!(pct.den, 0);
}

#[test]
fn sma_window_two() {
    let data = vec![
        fx(1.0),
        fx(11.2),
        fx(-13.6),
        fx(0.004),
        fx(500.9),
        fx(-27.1),
        fx(-26.2),
        fx(5.4),
        fx(2.0),
    ];
    let avgs = n_window_sma(2, &data).unwrap();
    assert_eq!(avgs.len(), data.len() - 1);
    for (k, avg) in avgs.iter().enumerate() {
        assert_eq!(avg.num, data[k] + data[k + 1]);
        assert_eq!(avg.den, 2);
        let mean = avg.num as f64 / avg.den as f64;
        let expected = (data[k] as f64 + data[k + 1] as f64) / 2.0;
        assert!((mean - expected).abs() < 1e-9);
    }
}

#[test]
fn sma_zero_window_is_none() {
    assert_eq!(n_window_sma(0, &vec![10_000, 20_000]), None);
}

#[test]
fn sma_window_longer_than_series_is_empty() {
    let avgs = n_window_sma(5, &vec![10_000, 20_000]).unwrap();
    assert_eq!(avgs.len(), 0);
}

#[test]
fn currency_symbol_usd_and_other() {
    assert_eq!(currency_symbol("USD"), "$");
    assert_eq!(currency_symbol("GBP"), "GBP");
    assert_eq!(currency_symbol(""), "");
}
