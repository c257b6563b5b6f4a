use portfolio_tracker::decimal::Dec;
use portfolio_tracker::fx::{get_exchange_rate, needs_rate_lookup, rate_from_table, RateCache, RateUnavailable};
use portfolio_tracker::models::{ApiProvider, AssetType, ParseError, Ticker, TransactionType};

#[test]
fn asset_type_names_round_trip() {
    for name in ["Stock", "Bond", "ETF", "MutualFund", "Crypto", "PreciousMetals", "Other"] {
        assert_eq!(AssetType::parse_str(name).unwrap().to_str(), name);
    }
    assert_eq!(AssetType::parse_str("stock"), Err(ParseError::UnknownAssetType));
}

#[test]
fn api_provider_names_round_trip() {
    assert_eq!(ApiProvider::parse_str("Alpha Vantage"), Ok(ApiProvider::AlphaVantage));
    assert_eq!(ApiProvider::parse_str("Financial Modeling Prep"), Ok(ApiProvider::Fmp));
    assert_eq!(ApiProvider::Marketstack.to_str(), "Marketstack");
    assert_eq!(ApiProvider::parse_str("Yahoo"), Err(ParseError::UnknownApiProvider));
}

#[test]
fn transaction_type_names_round_trip() {
    assert_eq!(TransactionType::parse_str("Buy"), Ok(TransactionType::Buy));
    assert_eq!(TransactionType::parse_str("Sell"), Ok(TransactionType::Sell));
    assert_eq!(TransactionType::parse_str("Div"), Ok(TransactionType::Div));
    assert_eq!(TransactionType::Div.to_str(), "Div");
    assert_eq!(TransactionType::parse_str("Dividend"), Err(ParseError::UnknownTransactionType));
}

#[test]
fn update_price_sets_price_and_time_together() {
    let mut t = Ticker {
        symbol: "ACME".to_string(),
        name: "Acme".to_string(),
        currency: "USD".to_string(),
        exchange: None,
        last_price: None,
        last_price_updated_at: None,
        last_api: ApiProvider::Fmp,
    };
    t.update_price(Dec::parse("12.5").unwrap(), 1_700_000_000);
    assert!(t.last_price.unwrap().same_value(&Dec::parse("12.5").unwrap()));
    assert_eq!(t.last_price_updated_at, Some(1_700_000_000));
    assert_eq!(t.symbol, "ACME");
}

#[test]
fn same_currency_rate_is_one() {
    let r = get_exchange_rate("EUR", "EUR", None).unwrap();
    assert!(r.same_value(&Dec::parse("1").unwrap()));
    let r = get_exchange_rate("EUR", "EUR", Some(Dec::parse("3").unwrap())).unwrap();
    assert!(r.same_value(&Dec::parse("1").unwrap()));
    assert!(!needs_rate_lookup("EUR", "EUR"));
}

#[test]
fn other_currency_rate_needs_lookup() {
    assert!(needs_rate_lookup("EUR", "USD"));
    assert_eq!(get_exchange_rate("EUR", "USD", None).unwrap_err(), RateUnavailable);
    let r = get_exchange_rate("EUR", "USD", Some(Dec::parse("0.92").unwrap())).unwrap();
    assert!(r.same_value(&Dec::parse("0.92").unwrap()));
}

#[test]
fn rate_table_lookup() {
    let table = vec![
        ("USD".to_string(), Dec::parse("1.08").unwrap()),
        ("GBP".to_string(), Dec::parse("0.85").unwrap()),
    ];
    assert!(rate_from_table(&table, "GBP").unwrap().same_value(&Dec::parse("0.85").unwrap()));
    assert!(rate_from_table(&table, "JPY").is_none());
}

#[test]
fn rate_cache_keeps_one_rate_per_currency() {
    let mut cache = RateCache::new();
    assert!(cache.get("USD").is_none());
    cache.insert("USD".to_string(), Dec::parse("1.08").unwrap());
    cache.insert("GBP".to_string(), Dec::parse("0.85").unwrap());
    cache.insert("USD".to_string(), Dec::parse("1.09").unwrap());
    assert!(cache.get("USD").unwrap().same_value(&Dec::parse("1.09").unwrap()));
    assert!(cache.get("GBP").unwrap().same_value(&Dec::parse("0.85").unwrap()));
    assert_eq!(cache.entries.len(), 2);
}
