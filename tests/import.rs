use portfolio_tracker::calc::AccountingError;
use portfolio_tracker::decimal::Dec;
use portfolio_tracker::import::{
    already_imported, check_header, collect_symbols, parse_datetime, parse_decimal, parse_record, plan_import,
    has_distinct_keys, has_distinct_numbers, rate_requests, symbols_to_resolve, CsvRow, FxQuote, ImportContext, ImportError, KnownTicker,
};
use portfolio_tracker::models::{ApiProvider, Date, Ticker, TransactionType};

fn dec(s: &str) -> Dec {
    Dec::parse(s).unwrap()
}

fn record(fields: &[&str]) -> Vec<String> {
    fields.iter().map(|s| s.to_string()).collect()
}

fn rows_of(records: &[Vec<String>]) -> Vec<CsvRow> {
    records.iter().enumerate().map(|(i, r)| parse_record(r, i + 1).unwrap()).collect()
}

fn ticker(symbol: &str, currency: &str) -> Ticker {
    Ticker {
        symbol: symbol.to_string(),
        name: symbol.to_string(),
        currency: currency.to_string(),
        exchange: None,
        last_price: None,
        last_price_updated_at: None,
        last_api: ApiProvider::Fmp,
    }
}

fn context(watermark: Option<i64>) -> ImportContext {
    ImportContext {
        known: vec![
            KnownTicker { key: "ACME".to_string(), ticker: ticker("ACME", "EUR"), id: 1 },
            KnownTicker { key: "USCO".to_string(), ticker: ticker("USCO", "USD"), id: 2 },
        ],
        stored_rates: Vec::new(),
        watermark,
        base_currency: "EUR".to_string(),
        quotes: vec![FxQuote {
            base: "USD".to_string(),
            quote: "EUR".to_string(),
            date: Date { year: 2024, month: 1, day: 3 },
            rate: dec("2"),
        }],
        history: Vec::new(),
    }
}

fn ledger() -> Vec<Vec<String>> {
    vec![
        record(&["1", "2024-01-02", "Buy", "ACME", "10", "100", "0", "B1", "", ""]),
        record(&["2", "2024-01-02", "Buy", "ACME", "10", "300", "0", "B1", "", ""]),
        record(&["3", "2024-01-03", "Sell", "ACME", "5", "400", "0", "B1", "", ""]),
        record(&["4", "2024-01-03", "Div", "OLD", "1", "2", "0", "B1", "ACME", "EUR"]),
    ]
}

#[test]
fn header_needs_ten_columns() {
    assert!(check_header(10).is_ok());
    assert_eq!(check_header(9), Err(ImportError::TooFewColumns { found: 9 }));
}

#[test]
fn record_fields_are_parsed() {
    let r = parse_record(&record(&["7", "2024-02-29", "Sell", "X", "1.5", "10", "0.5", "B", "", "USD"]), 3).unwrap();
    assert_eq!(r.transaction_no, 7);
    assert_eq!(r.date, Date { year: 2024, month: 2, day: 29 });
    assert_eq!(r.transaction_type, TransactionType::Sell);
    assert!(r.quantity.same_value(&dec("1.5")));
    assert_eq!(r.transaction_currency, "USD");
}

#[test]
fn malformed_records_are_refused() {
    let bad_no = record(&["x", "2024-01-02", "Buy", "A", "1", "1", "0", "B", "", ""]);
    assert_eq!(parse_record(&bad_no, 1).unwrap_err(), ImportError::InvalidField { row: 1, column: 0 });
    let bad_date = record(&["1", "2024-13-02", "Buy", "A", "1", "1", "0", "B", "", ""]);
    assert_eq!(parse_record(&bad_date, 2).unwrap_err(), ImportError::InvalidField { row: 2, column: 1 });
    let bad_type = record(&["1", "2024-01-02", "Hold", "A", "1", "1", "0", "B", "", ""]);
    assert_eq!(parse_record(&bad_type, 3).unwrap_err(), ImportError::InvalidField { row: 3, column: 2 });
    let bad_price = record(&["1", "2024-01-02", "Buy", "A", "1", "one", "0", "B", "", ""]);
    assert_eq!(parse_record(&bad_price, 4).unwrap_err(), ImportError::InvalidField { row: 4, column: 5 });
    let short = record(&["1", "2024-01-02", "Buy", "A", "1", "1", "0", "B"]);
    assert_eq!(parse_record(&short, 5).unwrap_err(), ImportError::MissingColumn { row: 5, column: 8 });
}

#[test]
fn dates_are_read_as_year_month_day() {
    assert_eq!(parse_datetime("2023-12-31"), Some(Date { year: 2023, month: 12, day: 31 }));
    assert_eq!(parse_datetime("31/12/2023"), None);
}

#[test]
fn symbols_are_collected_once() {
    let symbols = collect_symbols(&ledger());
    assert_eq!(symbols, vec!["ACME".to_string(), "OLD".to_string()]);
    let ctx = context(None);
    assert_eq!(symbols_to_resolve(&symbols, &ctx.known), vec!["OLD".to_string()]);
}

#[test]
fn watermark_skips_rows() {
    assert!(!already_imported(5, None));
    assert!(already_imported(5, Some(5)));
    assert!(!already_imported(6, Some(5)));
}

#[test]
fn import_replays_fifo_per_group() {
    let plan = plan_import(&context(None), &rows_of(&ledger())).unwrap();
    assert_eq!(plan.len(), 4);
    let sell = plan[2].position_state.unwrap();
    assert!(sell.cost_of_units_sold.same_value(&dec("500")));
    assert!(sell.cumulative_units.same_value(&dec("15")));
    assert!(sell.cumulative_cost.same_value(&dec("3500")));
    assert!(plan[2].transaction_gains.unwrap().realized_gains.same_value(&dec("1500")));
    assert_eq!(plan[3].ticker.symbol, "ACME");
    assert!(plan[3].transaction_gains.unwrap().dividends_collected.same_value(&dec("2")));
}

#[test]
fn reimport_above_watermark_adds_nothing() {
    let rows = rows_of(&ledger());
    let first = plan_import(&context(None), &rows).unwrap();
    let highest = first.iter().map(|t| t.transaction_no).max().unwrap();
    let second = plan_import(&context(Some(highest)), &rows).unwrap();
    assert!(second.is_empty());
}

#[test]
fn foreign_ticker_uses_provider_rate() {
    let rows = rows_of(&[record(&["1", "2024-01-03", "Buy", "USCO", "2", "10", "0", "B1", "", ""])]);
    let plan = plan_import(&context(None), &rows).unwrap();
    assert!(plan[0].exchange_rate.same_value(&dec("2")));
    assert!(plan[0].get_amount().unwrap().same_value(&dec("-10")));
}

#[test]
fn missing_rate_and_symbol_fail_the_import() {
    let rows = rows_of(&[record(&["1", "2024-05-03", "Buy", "USCO", "2", "10", "0", "B1", "", ""])]);
    assert_eq!(plan_import(&context(None), &rows).unwrap_err(), ImportError::RateUnavailable { row: 1 });
    let rows = rows_of(&[record(&["1", "2024-05-03", "Buy", "NOPE", "2", "10", "0", "B1", "", ""])]);
    assert_eq!(plan_import(&context(None), &rows).unwrap_err(), ImportError::UnknownSymbol { row: 1 });
    let rows = rows_of(&[record(&["1", "2024-05-03", "Buy", "ACME", "0", "10", "0", "B1", "", ""])]);
    assert_eq!(
        plan_import(&context(None), &rows).unwrap_err(),
        ImportError::Accounting { row: 1, error: AccountingError::ZeroQuantity { index: 0 } }
    );
}

#[test]
fn rate_requests_name_the_rates_a_plan_needs() {
    let rows = rows_of(&[
        record(&["1", "2024-01-03", "Buy", "USCO", "2", "10", "0", "B1", "", ""]),
        record(&["2", "2024-01-04", "Buy", "ACME", "2", "10", "0", "B1", "", "USD"]),
        record(&["3", "2024-01-04", "Buy", "ACME", "2", "10", "0", "B1", "", ""]),
    ]);
    let requests = rate_requests(&context(None), &rows);
    let seen: Vec<(String, String, u32)> = requests.iter().map(|r| (r.base.clone(), r.quote.clone(), r.date.day)).collect();
    assert_eq!(seen, vec![("USD".to_string(), "EUR".to_string(), 3), ("EUR".to_string(), "USD".to_string(), 4)]);
    assert!(rate_requests(&context(Some(3)), &rows).is_empty());
}

#[test]
fn decimal_fields() {
    assert!(parse_decimal("12.50").unwrap().same_value(&dec("12.5")));
    assert!(parse_decimal("12,50").is_none());
}

#[test]
fn overflowing_price_conversion_fails_the_import() {
    let mut ctx = context(None);
    ctx.quotes.push(FxQuote {
        base: "EUR".to_string(),
        quote: "USD".to_string(),
        date: Date { year: 2024, month: 1, day: 5 },
        rate: dec("2"),
    });
    let rows = rows_of(&[record(&["1", "2024-01-05", "Buy", "ACME", "1", "79228162514264337593543950335", "0", "B1", "", "USD"])]);
    assert_eq!(plan_import(&ctx, &rows).unwrap_err(), ImportError::AmountOverflow { row: 1 });
}

#[test]
fn transaction_numbers_parse_like_i64() {
    let row = |no: &str| record(&[no, "2024-01-02", "Buy", "A", "1", "1", "0", "B", "", ""]);
    assert_eq!(parse_record(&row("+7"), 1).unwrap().transaction_no, 7);
    assert_eq!(parse_record(&row("-3"), 1).unwrap().transaction_no, -3);
    assert!(parse_record(&row("-"), 1).is_err());
    assert!(parse_record(&row(""), 1).is_err());
    assert!(parse_record(&row("9223372036854775808"), 1).is_err());
}

#[test]
fn duplicate_keys_are_detected() {
    let ctx = context(None);
    assert!(has_distinct_keys(&ctx.known));
    let mut twice = context(None).known;
    twice.push(KnownTicker { key: "ACME".to_string(), ticker: ticker("ACME", "EUR"), id: 3 });
    assert!(!has_distinct_keys(&twice));
    assert!(has_distinct_numbers(&vec![(1, dec("1")), (2, dec("1"))]));
    assert!(!has_distinct_numbers(&vec![(1, dec("1")), (1, dec("2"))]));
}

#[test]
fn a_number_repeated_in_one_file_is_planned_once() {
    let rows = rows_of(&[
        record(&["1", "2024-01-02", "Buy", "ACME", "10", "100", "0", "B1", "", ""]),
        record(&["1", "2024-01-02", "Buy", "ACME", "10", "300", "0", "B1", "", ""]),
        record(&["2", "2024-01-03", "Sell", "ACME", "5", "400", "0", "B1", "", ""]),
    ]);
    let plan = plan_import(&context(None), &rows).unwrap();
    assert_eq!(plan.iter().map(|t| t.transaction_no).collect::<Vec<_>>(), vec![1, 2]);
    assert!(plan[1].position_state.unwrap().cumulative_units.same_value(&dec("5")));
}
