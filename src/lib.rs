//! Position-state accounting for a ledger of buy, sell and dividend
//! transactions: fixed-point decimals, FIFO lot replay, realized gains, the plan of
//! a CSV import, price refresh outcomes and holding projections.
pub mod decimal;
pub mod models;
pub mod calc;
pub mod fifo_laws;
pub mod quotes;
pub mod fx;
pub mod refresh;
pub mod import;
pub mod holdings;
pub mod ui_state;
