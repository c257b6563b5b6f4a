use portfolio_tracker::decimal::Dec;
use portfolio_tracker::holdings::{project_holdings, summarize_position, GainsOverflow, Holding, PositionInput};
use portfolio_tracker::models::{ApiProvider, Date, PositionState, Position, Ticker, Transaction, TransactionGains, TransactionType};
use portfolio_tracker::models::{Asset, AssetType};

fn dec(s: &str) -> Dec {
    Dec::parse(s).unwrap()
}

fn asset() -> Asset {
    Asset { name: "Acme".to_string(), asset_type: AssetType::Stock, isin: None, sector: None, industry: None }
}

#[test]
fn holding_figures_from_position() {
    let h = Holding::project(asset(), dec("80"), dec("125"), dec("1.25"), dec("7229.43"), dec("498.62"), dec("12.5")).unwrap();
    assert!(h.price.same_value(&dec("100")));
    assert!(h.market_value.same_value(&dec("8000")));
    assert!(h.cost_per_share.same_value(&dec("90.3679")));
    assert!(h.unrealized_gain.same_value(&dec("770.57")));
    assert!(h.unrealized_gain_percent.same_value(&dec("10.66")));
    assert!(h.total_gain.same_value(&dec("1281.69")));
}

#[test]
fn holding_with_zero_cost_and_units() {
    let h = Holding::project(asset(), dec("0"), dec("5"), dec("1"), dec("0"), dec("3"), dec("0")).unwrap();
    assert!(h.cost_per_share.is_zero());
    assert!(h.unrealized_gain_percent.is_zero());
    assert!(h.total_gain.same_value(&dec("3")));
    assert!(Holding::project(asset(), dec("1"), dec("5"), dec("0"), dec("1"), dec("0"), dec("0")).is_none());
}

fn stored(no: i64, kind: TransactionType, broker: &str, units: &str, cost: &str, realized: &str, dividends: &str) -> Transaction {
    Transaction {
        transaction_no: no,
        date: Date { year: 2024, month: 1, day: 1 },
        transaction_type: kind,
        ticker: Ticker {
            symbol: "ACME".to_string(),
            name: "Acme".to_string(),
            currency: "EUR".to_string(),
            exchange: None,
            last_price: None,
            last_price_updated_at: None,
            last_api: ApiProvider::Fmp,
        },
        broker: broker.to_string(),
        currency: "EUR".to_string(),
        exchange_rate: dec("1"),
        quantity: dec("1"),
        price: dec("1"),
        fees: dec("0"),
        position_state: Some(PositionState { cumulative_units: dec(units), cumulative_cost: dec(cost), cost_of_units_sold: dec("0") }),
        transaction_gains: Some(TransactionGains { realized_gains: dec(realized), dividends_collected: dec(dividends) }),
    }
}

#[test]
fn summary_takes_latest_trade_and_sums_gains() {
    let history = vec![
        stored(1, TransactionType::Buy, "B1", "10", "100", "0", "0"),
        stored(2, TransactionType::Sell, "B1", "6", "60", "15", "0"),
        stored(3, TransactionType::Buy, "B2", "99", "990", "0", "0"),
        stored(4, TransactionType::Div, "B1", "0", "0", "0", "3.5"),
    ];
    let s = summarize_position(&history, "ACME", "B1").unwrap().unwrap();
    assert!(s.cumulative_units.same_value(&dec("6")));
    assert!(s.cumulative_cost.same_value(&dec("60")));
    assert!(s.realized_gains.same_value(&dec("15")));
    assert!(s.dividends_collected.same_value(&dec("3.5")));
    assert!(summarize_position(&history, "ACME", "B3").unwrap().is_none());
}

#[test]
fn position_keeps_its_figures() {
    let p = Position::new(asset(), dec("1"), dec("2"), dec("3"), dec("4"), dec("5"), dec("6"), dec("7"), dec("8"), dec("9"), dec("10"));
    assert!(p.total_gain.same_value(&dec("10")));
    assert!(p.cost_per_share.same_value(&dec("4")));
}

#[test]
fn overflowing_gains_are_reported() {
    let big = "79228162514264337593543950335";
    let history = vec![
        stored(1, TransactionType::Sell, "B1", "1", "1", big, "0"),
        stored(2, TransactionType::Sell, "B1", "1", "1", big, "0"),
    ];
    assert_eq!(summarize_position(&history, "ACME", "B1").unwrap_err(), GainsOverflow);
    let positions = vec![PositionInput {
        symbol: "ACME".to_string(),
        broker: "B1".to_string(),
        asset: asset(),
        last_price: dec("1"),
        exchange_rate: dec("1"),
    }];
    let projection = project_holdings(&history, &positions);
    assert!(projection.holdings.is_empty());
    assert_eq!(projection.failures, vec![("ACME".to_string(), "B1".to_string())]);
}

#[test]
fn holdings_projected_for_held_positions_only() {
    let history = vec![
        stored(1, TransactionType::Buy, "B1", "10", "100", "0", "0"),
        stored(2, TransactionType::Buy, "B2", "5", "50", "0", "0"),
        stored(3, TransactionType::Sell, "B2", "0", "0", "7", "0"),
    ];
    let position = |broker: &str| PositionInput {
        symbol: "ACME".to_string(),
        broker: broker.to_string(),
        asset: asset(),
        last_price: dec("12"),
        exchange_rate: dec("2"),
    };
    let projection = project_holdings(&history, &vec![position("B1"), position("B2")]);
    assert_eq!(projection.holdings.len(), 1);
    assert!(projection.failures.is_empty());
    let h = &projection.holdings[0];
    assert!(h.quantity.same_value(&dec("10")));
    assert!(h.price.same_value(&dec("6")));
    assert!(h.market_value.same_value(&dec("60")));
    assert!(h.unrealized_gain.same_value(&dec("-40")));
}
