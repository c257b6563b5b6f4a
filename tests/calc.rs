use portfolio_tracker::calc::{calculate_position_state, calculate_transaction_gains, AccountingError, FifoLedger};
use portfolio_tracker::decimal::Dec;
use rust_decimal::Decimal;
use portfolio_tracker::models::{
    ApiProvider, Date, PositionState, Ticker, Transaction, TransactionType,
};

fn dec(s: &str) -> Dec {
    Dec::parse(s).unwrap()
}

fn decs(values: &[&str]) -> Vec<Dec> {
    values.iter().map(|s| dec(s)).collect()
}

fn same(a: Dec, b: &str) -> bool {
    a.same_value(&dec(b))
}

/// Equal to within `10^-20`, for sums that rust_decimal rounds.
fn close(a: Dec, b: &str) -> bool {
    let x = Decimal::from_i128_with_scale(a.mantissa, a.scale);
    let y: Decimal = b.parse().unwrap();
    (x - y).abs() < Decimal::new(1, 20)
}

fn set_sample_data() -> (Vec<Dec>, Vec<Dec>) {
    let amounts = decs(&["-1777.02", "-1659.08", "-2190.06", "-1768.21", "-1612.08", "2275.64"]);
    let quantities = decs(&["20.00", "20.00", "20.00", "20.00", "20.00", "-20.00"]);
    (amounts, quantities)
}

#[test]
fn fifo_works() {
    let (amounts, quantities) = set_sample_data();
    let result = calculate_position_state(amounts, quantities).unwrap();

    println!("Result: {:#?}", result);

    assert!(same(result.cumulative_units, "80.0"));
    assert!(same(result.cumulative_cost, "7229.43"));
    assert!(same(result.cost_of_units_sold, "1777.02"));
}

#[test]
fn buys_only_sum_quantities_and_costs() {
    let amounts = decs(&["-100.50", "-250", "-30.25"]);
    let quantities = decs(&["10", "5", "1"]);
    let result = calculate_position_state(amounts, quantities).unwrap();
    assert!(same(result.cumulative_units, "16"));
    assert!(same(result.cumulative_cost, "380.75"));
    assert!(same(result.cost_of_units_sold, "0"));
}

#[test]
fn buy_then_full_sell_drains_queue() {
    let amounts = decs(&["-1000", "1200"]);
    let quantities = decs(&["10", "-10"]);
    let result = calculate_position_state(amounts, quantities).unwrap();
    assert!(same(result.cumulative_units, "0"));
    assert!(same(result.cumulative_cost, "0"));
    assert!(same(result.cost_of_units_sold, "1000"));
}

#[test]
fn fractional_residue_is_drained() {
    let amounts = decs(&["-105", "120"]);
    let quantities = decs(&["10.5", "-10.5"]);
    let result = calculate_position_state(amounts, quantities).unwrap();
    assert!(same(result.cumulative_units, "0"));
    assert!(same(result.cumulative_cost, "0"));
    assert!(same(result.cost_of_units_sold, "100"));
}

#[test]
fn swapping_buys_changes_cost_sold() {
    let first = calculate_position_state(decs(&["-100", "-300", "50"]), decs(&["10", "10", "-2"])).unwrap();
    let second = calculate_position_state(decs(&["-300", "-100", "50"]), decs(&["10", "10", "-2"])).unwrap();
    assert!(same(first.cost_of_units_sold, "20"));
    assert!(same(second.cost_of_units_sold, "60"));
    assert!(!first.cost_of_units_sold.same_value(&second.cost_of_units_sold));
}

#[test]
fn selling_more_than_held_empties_the_queue() {
    let result = calculate_position_state(decs(&["-100", "500"]), decs(&["10", "-15"])).unwrap();
    assert!(same(result.cost_of_units_sold, "100"));
    assert!(same(result.cumulative_cost, "0"));
    assert!(same(result.cumulative_units, "5"));
}

#[test]
fn mismatched_lengths_are_refused() {
    let r = calculate_position_state(decs(&["-100", "50"]), decs(&["10"]));
    assert_eq!(r.unwrap_err(), AccountingError::LengthMismatch { amounts: 2, quantities: 1 });
}

#[test]
fn empty_history_is_refused() {
    let r = calculate_position_state(Vec::new(), Vec::new());
    assert_eq!(r.unwrap_err(), AccountingError::Empty);
}

#[test]
fn zero_quantity_is_refused_with_its_index() {
    let r = calculate_position_state(decs(&["-100", "-5"]), decs(&["10", "0"]));
    assert_eq!(r.unwrap_err(), AccountingError::ZeroQuantity { index: 1 });
}

#[test]
fn overflowing_units_are_refused() {
    let huge = Dec::from_parts(79228162514264337593543950335, 0).unwrap();
    let r = calculate_position_state(vec![dec("-1"), dec("-1")], vec![huge, huge]);
    assert_eq!(r.unwrap_err(), AccountingError::Overflow);
}

fn ticker() -> Ticker {
    Ticker {
        symbol: "ACME".to_string(),
        name: "Acme Corp".to_string(),
        currency: "USD".to_string(),
        exchange: None,
        last_price: None,
        last_price_updated_at: None,
        last_api: ApiProvider::Fmp,
    }
}

fn transaction(kind: TransactionType, quantity: &str, price: &str, fees: &str, rate: &str) -> Transaction {
    Transaction {
        transaction_no: 1,
        date: Date { year: 2024, month: 1, day: 2 },
        transaction_type: kind,
        ticker: ticker(),
        broker: "Broker".to_string(),
        currency: "USD".to_string(),
        exchange_rate: dec(rate),
        quantity: dec(quantity),
        price: dec(price),
        fees: dec(fees),
        position_state: None,
        transaction_gains: None,
    }
}

#[test]
fn amount_of_buy_is_negative_and_includes_fees() {
    let t = transaction(TransactionType::Buy, "10", "20", "1.5", "2");
    assert!(same(t.get_amount().unwrap(), "-101.5"));
    assert!(same(t.get_quantity(), "10"));
}

#[test]
fn amount_of_sell_is_positive() {
    let t = transaction(TransactionType::Sell, "4", "25", "0", "1");
    assert!(same(t.get_amount().unwrap(), "100"));
    assert!(same(t.get_quantity(), "-4"));
}

#[test]
fn amount_with_zero_rate_is_none() {
    let t = transaction(TransactionType::Sell, "4", "25", "0", "0");
    assert!(t.get_amount().is_none());
}

#[test]
fn realized_gain_of_sell() {
    let t = transaction(TransactionType::Sell, "10", "12", "0", "1");
    let state = PositionState { cumulative_units: dec("0"), cumulative_cost: dec("0"), cost_of_units_sold: dec("100") };
    let g = calculate_transaction_gains(&t, &state).unwrap();
    assert!(same(g.realized_gains, "20"));
    assert!(same(g.dividends_collected, "0"));
}

#[test]
fn dividends_of_dividend() {
    let t = transaction(TransactionType::Div, "1", "7.5", "0", "1");
    let state = PositionState { cumulative_units: dec("0"), cumulative_cost: dec("0"), cost_of_units_sold: dec("0") };
    let g = calculate_transaction_gains(&t, &state).unwrap();
    assert!(same(g.realized_gains, "0"));
    assert!(same(g.dividends_collected, "7.5"));
}

#[test]
fn buy_has_no_gains() {
    let t = transaction(TransactionType::Buy, "1", "7.5", "0", "1");
    let state = PositionState { cumulative_units: dec("1"), cumulative_cost: dec("7.5"), cost_of_units_sold: dec("0") };
    let g = calculate_transaction_gains(&t, &state).unwrap();
    assert!(same(g.realized_gains, "0"));
    assert!(same(g.dividends_collected, "0"));
}

#[test]
fn ledger_records_with_a_given_unit_cost() {
    let mut ledger = FifoLedger::new();
    let sold = ledger.record(dec("-100"), dec("10"), dec("-10")).unwrap();
    assert!(same(sold, "0"));
    assert_eq!(ledger.queue.len() - ledger.head, 10);
    let sold = ledger.record(dec("50"), dec("-2"), dec("-25")).unwrap();
    assert!(same(sold, "-20"));
    assert_eq!(ledger.queue.len() - ledger.head, 8);
    assert!(same(ledger.units, "8"));
    assert!(same(ledger.cumulative_cost().unwrap(), "-80"));
}

#[test]
fn lot_with_repeating_unit_cost_gives_a_position() {
    let result = calculate_position_state(decs(&["-10000"]), decs(&["3"])).unwrap();
    assert!(same(result.cumulative_units, "3"));
    // three lots of 3333.3333333333333333333333333, summed by rust_decimal
    assert!(close(result.cumulative_cost, "10000"));
}

#[test]
fn selling_a_lot_with_repeating_unit_cost() {
    let result = calculate_position_state(decs(&["-10000", "12000"]), decs(&["3", "-3"])).unwrap();
    assert!(same(result.cumulative_units, "0"));
    assert!(same(result.cumulative_cost, "0"));
    assert!(close(result.cost_of_units_sold, "10000"));
}

#[test]
fn swapping_buys_with_repeating_costs_changes_cost_sold() {
    let first = calculate_position_state(decs(&["-10000", "-300", "5000"]), decs(&["3", "3", "-3"])).unwrap();
    let second = calculate_position_state(decs(&["-300", "-10000", "5000"]), decs(&["3", "3", "-3"])).unwrap();
    assert!(same(second.cost_of_units_sold, "300"));
    assert!(!first.cost_of_units_sold.same_value(&second.cost_of_units_sold));
}

#[test]
fn queue_is_drained_when_a_buy_brings_units_back_to_zero() {
    // sell 5 with nothing held, buy 5 (units back to zero), then sell 2
    let result = calculate_position_state(decs(&["500", "-400", "300"]), decs(&["-5", "5", "-2"])).unwrap();
    assert!(same(result.cost_of_units_sold, "0"));
    assert!(same(result.cumulative_cost, "0"));
    assert!(same(result.cumulative_units, "2"));
}

#[test]
fn realized_gain_against_a_repeating_lot_cost() {
    let t = transaction(TransactionType::Sell, "6", "100", "0", "6");
    let state = PositionState {
        cumulative_units: dec("0"),
        cumulative_cost: dec("0"),
        cost_of_units_sold: dec("16.666666666666666666666666667"),
    };
    let g = calculate_transaction_gains(&t, &state).unwrap();
    assert!(close(g.realized_gains, "83.333333333333333333333333333"));
}
