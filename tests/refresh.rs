use portfolio_tracker::decimal::Dec;
use portfolio_tracker::models::{ApiProvider, Ticker};
use portfolio_tracker::refresh::apply_price_outcomes;

fn ticker(symbol: &str) -> Ticker {
    Ticker {
        symbol: symbol.to_string(),
        name: symbol.to_string(),
        currency: "USD".to_string(),
        exchange: None,
        last_price: None,
        last_price_updated_at: None,
        last_api: ApiProvider::Fmp,
    }
}

#[test]
fn failed_lookups_leave_tickers_untouched_and_are_reported() {
    let mut tickers = vec![ticker("A"), ticker("B"), ticker("C"), ticker("D")];
    let outcomes = vec![
        Ok(Dec::parse("10").unwrap()),
        Err("timeout".to_string()),
        Ok(Dec::parse("30.5").unwrap()),
        Err("no data".to_string()),
    ];
    let failure = apply_price_outcomes(&mut tickers, &outcomes, 1_700_000_000).unwrap_err();
    assert_eq!(failure.failures, vec![("B".to_string(), "timeout".to_string()), ("D".to_string(), "no data".to_string())]);
    let updated: Vec<&Ticker> = tickers.iter().filter(|t| t.last_price.is_some()).collect();
    assert_eq!(updated.len(), 2);
    for t in &tickers {
        assert_eq!(t.last_price.is_some(), t.last_price_updated_at.is_some());
    }
    assert!(tickers[2].last_price.unwrap().same_value(&Dec::parse("30.5").unwrap()));
    assert!(tickers[1].last_price.is_none());
    assert_eq!(tickers[0].last_price_updated_at, Some(1_700_000_000));
    assert_eq!(tickers[1].last_price_updated_at, None);
}

#[test]
fn refresh_without_failures_is_ok() {
    let mut tickers = vec![ticker("A")];
    let outcomes = vec![Ok(Dec::parse("1").unwrap())];
    assert!(apply_price_outcomes(&mut tickers, &outcomes, 1_700_000_000).is_ok());
    assert!(tickers[0].last_price.is_some());
}
