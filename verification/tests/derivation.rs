use stout::stock::{
    get_current_price, get_high_low, has_positive_close, pct_change, remove_zeros_lows,
    CompanyInfo, PriceSample, Stock, TimeFrame, PCT_SCALE,
};

fn sample(high: u64, low: u64, close: u64) -> PriceSample {
    PriceSample { timestamp: 0, open: 0, high, low, close }
}

#[test]
fn post_market_price_is_authoritative() {
    assert_eq!(get_current_price(100, Some(105)), 105);
}

#[test]
fn regular_price_is_the_fallback() {
    assert_eq!(get_current_price(100, None), 100);
}

#[test]
fn high_low_discards_zero_lows() {
    let series = vec![sample(10, 0, 10), sample(12, 5, 11), sample(8, 3, 9)];
    assert_eq!(get_high_low(11, &series), (12, 3));
}

#[test]
fn high_clamps_up_to_the_current_price() {
    let series = vec![sample(10, 0, 10), sample(12, 5, 11), sample(8, 3, 9)];
    assert_eq!(get_high_low(15, &series), (15, 3));
}

#[test]
fn low_widens_down_to_the_current_price() {
    let series = vec![sample(12, 5, 11), sample(8, 3, 9)];
    assert_eq!(get_high_low(2, &series), (12, 2));
}

#[test]
fn empty_series_yields_zero_bounds() {
    let series: Vec<PriceSample> = Vec::new();
    assert_eq!(get_high_low(0, &series), (0, 0));
}

#[test]
fn empty_series_bounds_still_contain_the_current_price() {
    let series: Vec<PriceSample> = Vec::new();
    assert_eq!(get_high_low(7, &series), (7, 0));
}

#[test]
fn remove_zeros_lows_keeps_only_real_lows() {
    let series = vec![sample(10, 0, 10), sample(12, 5, 11), sample(8, 0, 9)];
    assert_eq!(remove_zeros_lows(series), vec![sample(12, 5, 11)]);
}

#[test]
fn has_positive_close_spots_the_usable_sample() {
    assert!(has_positive_close(&vec![sample(1, 1, 0), sample(1, 1, 7)]));
    assert!(!has_positive_close(&vec![sample(1, 1, 0)]));
    assert!(!has_positive_close(&Vec::new()));
}

#[test]
fn all_zero_closes_give_zero_change() {
    let series = vec![sample(10, 2, 0), sample(12, 5, 0)];
    assert_eq!(pct_change(500, TimeFrame::Day1, Some(100), &series), 0);
    assert_eq!(pct_change(7, TimeFrame::Week1, None, &series), 0);
}

#[test]
fn daily_change_uses_the_previous_close() {
    let series = vec![sample(12, 5, 108)];
    let r = pct_change(110, TimeFrame::Day1, Some(100), &series);
    assert_eq!(r, (PCT_SCALE / 10) as i128);
}

#[test]
fn daily_change_without_previous_close_uses_first_positive_close() {
    let series = vec![sample(10, 0, 0), sample(12, 5, 90), sample(11, 4, 95)];
    let r = pct_change(99, TimeFrame::Day1, None, &series);
    assert_eq!(r, (PCT_SCALE / 10) as i128);
}

#[test]
fn weekly_change_ignores_the_previous_close() {
    let series = vec![sample(12, 5, 50)];
    let r = pct_change(110, TimeFrame::Week1, Some(100), &series);
    assert_eq!(r, (PCT_SCALE as i128) * 110 / 50 - PCT_SCALE as i128);
}

#[test]
fn a_falling_price_gives_a_negative_change() {
    let series = vec![sample(12, 5, 100)];
    let r = pct_change(90, TimeFrame::Day1, Some(100), &series);
    assert_eq!(r, -((PCT_SCALE / 10) as i128));
}

#[test]
fn derivation_functions_are_pure() {
    let series = vec![sample(10, 0, 10), sample(12, 5, 11), sample(8, 3, 9)];
    assert_eq!(
        get_current_price(100, Some(105)),
        get_current_price(100, Some(105))
    );
    assert_eq!(get_high_low(11, &series), get_high_low(11, &series));
    assert_eq!(
        pct_change(11, TimeFrame::Day1, Some(10), &series),
        pct_change(11, TimeFrame::Day1, Some(10), &series)
    );
}

#[test]
fn stock_assembles_all_derived_metrics() {
    let series = vec![sample(10, 0, 10), sample(12, 5, 11), sample(8, 3, 9)];
    let company = CompanyInfo {
        name: Some("Test Co".to_string()),
        website: Some("https://example.com".to_string()),
    };
    let stock = Stock::new(
        "TEST".to_string(),
        Some(company),
        Some(9_000_000),
        100,
        Some(105),
        TimeFrame::Day1,
        100,
        series.clone(),
    );
    assert_eq!(stock.symbol, "TEST");
    assert_eq!(stock.current_price, 105);
    assert_eq!(stock.high, 105);
    assert_eq!(stock.low, 3);
    assert_eq!(
        stock.pct_change,
        (PCT_SCALE as i128) * 105 / 100 - PCT_SCALE as i128
    );
    assert_eq!(stock.prices, series);
    assert_eq!(stock.time_frame, TimeFrame::Day1);
    assert_eq!(stock.market_cap, Some(9_000_000));
    let c = stock.company.as_ref().unwrap();
    assert_eq!(c.name.as_deref(), Some("Test Co"));
    assert_eq!(c.website.as_deref(), Some("https://example.com"));
}

#[test]
fn time_frames_carry_their_api_parameters() {
    assert_eq!(TimeFrame::Day1.api_interval(), "5m");
    assert_eq!(TimeFrame::Day1.as_range(), "1d");
    assert_eq!(TimeFrame::Week1.api_interval(), "1h");
    assert_eq!(TimeFrame::Week1.as_range(), "5d");
}
