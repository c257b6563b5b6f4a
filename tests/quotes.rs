use portfolio_tracker::decimal::Dec;
use portfolio_tracker::models::{ApiProvider, ParseError, Quote, Ticker};
use portfolio_tracker::quotes::{
    first_resolved, get_currency_from_country_code, next_provider, price_from_av_quote, price_from_fmp_quotes,
    provider_order, ticker_from_av_matches, AvGlobalQuoteDto, AvSymbolSearchDto, DateInfo,
    FmpSearchSymbolDto, MarketstackSearchSymbolDto, StockExchange, TickerNotFound,
};

#[test]
fn country_codes_map_to_currencies() {
    assert_eq!(get_currency_from_country_code("US").unwrap(), "USD");
    assert_eq!(get_currency_from_country_code("DE").unwrap(), "EUR");
    assert_eq!(get_currency_from_country_code("IE").unwrap(), "EUR");
    assert_eq!(get_currency_from_country_code("NZ").unwrap(), "NZD");
    assert_eq!(get_currency_from_country_code("XX"), Err(ParseError::UnknownCountryCode));
}

fn date_info() -> DateInfo {
    DateInfo { date: "2020-01-01".to_string(), timezone_type: 3, timezone: "UTC".to_string() }
}

fn exchange(country_code: &str) -> StockExchange {
    StockExchange {
        name: "Xetra".to_string(),
        acronym: "XETR".to_string(),
        mic: "XETR".to_string(),
        country: Some("Germany".to_string()),
        country_code: country_code.to_string(),
        city: "Frankfurt".to_string(),
        website: String::new(),
        operating_mic: String::new(),
        oprt_sgmt: String::new(),
        legal_entity_name: String::new(),
        exchange_lei: String::new(),
        market_category_code: String::new(),
        exchange_status: String::new(),
        date_creation: date_info(),
        date_last_update: date_info(),
        date_last_validation: date_info(),
        date_expiry: None,
        comments: String::new(),
    }
}

fn marketstack(country_code: &str) -> MarketstackSearchSymbolDto {
    MarketstackSearchSymbolDto {
        name: "SAP SE".to_string(),
        symbol: "SAP.XETRA".to_string(),
        cik: String::new(),
        isin: String::new(),
        ein_employer_id: String::new(),
        lei: String::new(),
        series_id: String::new(),
        item_type: String::new(),
        sector: String::new(),
        industry: String::new(),
        sic_code: String::new(),
        sic_name: String::new(),
        stock_exchange: exchange(country_code),
    }
}

#[test]
fn marketstack_ticker_takes_country_currency() {
    let t = marketstack("DE").to_ticker().unwrap();
    assert_eq!(t.currency, "EUR");
    assert_eq!(t.exchange, Some("XETR".to_string()));
    assert_eq!(t.last_api, ApiProvider::Marketstack);
    assert_eq!(marketstack("ZZ").to_ticker().unwrap_err(), ParseError::UnknownCountryCode);
}

#[test]
fn av_and_fmp_matches_become_tickers() {
    let av = AvSymbolSearchDto {
        symbol: "IBM".to_string(),
        name: "IBM".to_string(),
        asset_type: "Equity".to_string(),
        region: "United States".to_string(),
        market_open: "09:30".to_string(),
        market_close: "16:00".to_string(),
        timezone: "UTC-04".to_string(),
        currency: "USD".to_string(),
        match_score: "1.0000".to_string(),
    };
    let t = ticker_from_av_matches(&vec![av]).unwrap();
    assert_eq!(t.symbol, "IBM");
    assert_eq!(t.exchange, Some(String::new()));
    assert_eq!(t.last_api, ApiProvider::AlphaVantage);
    assert!(ticker_from_av_matches(&Vec::new()).is_none());
    let fmp = FmpSearchSymbolDto {
        symbol: "AAPL".to_string(),
        name: "Apple".to_string(),
        currency: "USD".to_string(),
        exchange_full_name: "NASDAQ Global Select".to_string(),
        exchange: "NASDAQ".to_string(),
    };
    let t = fmp.to_ticker();
    assert_eq!(t.exchange, Some("NASDAQ".to_string()));
    assert_eq!(t.last_api, ApiProvider::Fmp);
}

#[test]
fn av_price_is_parsed_from_text() {
    let q = AvGlobalQuoteDto {
        symbol: "IBM".to_string(),
        open: "1".to_string(),
        high: "1".to_string(),
        low: "1".to_string(),
        price: "187.4300".to_string(),
        volume: "100".to_string(),
        latest_trading_day: "2024-01-02".to_string(),
        previous_close: "1".to_string(),
        change: "0".to_string(),
        change_percent: "0%".to_string(),
    };
    assert!(price_from_av_quote(&q).unwrap().same_value(&Dec::parse("187.43").unwrap()));
    assert!(price_from_fmp_quotes(&Vec::new()).is_none());
}

#[test]
fn preferred_provider_is_tried_first() {
    assert_eq!(provider_order(ApiProvider::Fmp), vec![ApiProvider::Fmp, ApiProvider::AlphaVantage, ApiProvider::Marketstack]);
    assert_eq!(provider_order(ApiProvider::Marketstack), vec![ApiProvider::Marketstack, ApiProvider::AlphaVantage, ApiProvider::Fmp]);
    assert_eq!(provider_order(ApiProvider::AlphaVantage), vec![ApiProvider::AlphaVantage, ApiProvider::Fmp, ApiProvider::Marketstack]);
}

fn ticker(symbol: &str) -> Ticker {
    Ticker {
        symbol: symbol.to_string(),
        name: symbol.to_string(),
        currency: "USD".to_string(),
        exchange: None,
        last_price: None,
        last_price_updated_at: None,
        last_api: ApiProvider::Fmp,
    }
}

#[test]
fn first_successful_provider_wins() {
    let r = first_resolved(vec![None, Some(ticker("B")), Some(ticker("C"))]).unwrap();
    assert_eq!(r.symbol, "B");
    assert_eq!(first_resolved(vec![None, None]).unwrap_err(), TickerNotFound);
}

fn av_quote(change_percent: &str) -> AvGlobalQuoteDto {
    AvGlobalQuoteDto {
        symbol: "IBM".to_string(),
        open: "186.0".to_string(),
        high: "188.1".to_string(),
        low: "185.2".to_string(),
        price: "187.43".to_string(),
        volume: "3500100".to_string(),
        latest_trading_day: "2024-01-02".to_string(),
        previous_close: "186.5".to_string(),
        change: "0.93".to_string(),
        change_percent: change_percent.to_string(),
    }
}

#[test]
fn quote_from_alpha_vantage_fields() {
    let q = Quote::from_av_quote(&av_quote("0.4987")).unwrap();
    assert_eq!(q.volume, 3500100);
    assert_eq!(q.date, "2024-01-02");
    assert!(q.price.same_value(&Dec::parse("187.43").unwrap()));
    assert!(q.change_percent.same_value(&Dec::parse("0.4987").unwrap()));
    assert!(Quote::from_av_quote(&av_quote("0.4987%")).is_none());
}

#[test]
fn providers_are_asked_until_one_answers() {
    let order = provider_order(ApiProvider::Fmp);
    assert_eq!(next_provider(&order, &Vec::new()), Some(ApiProvider::Fmp));
    assert_eq!(next_provider(&order, &vec![None]), Some(ApiProvider::AlphaVantage));
    assert_eq!(next_provider(&order, &vec![None, Some(ticker("X"))]), None);
    assert_eq!(next_provider(&order, &vec![None, None, None]), None);
}
