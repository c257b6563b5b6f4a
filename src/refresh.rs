//! Applying the outcome of a price refresh: each ticker independently.
use vstd::prelude::*;
use crate::decimal::Dec;
use crate::models::Ticker;

verus! {

/// The tickers whose price could not be fetched, with the cause of each.
#[derive(Clone, Debug)]
pub struct PartialRefreshFailure {
    pub failures: Vec<(String, String)>,
}

/// The symbol and cause of every failed lookup, in the tickers' order.
pub open spec fn failures_of(tickers: Seq<Ticker>, outcomes: Seq<Result<Dec, String>>) -> Seq<
    (String, String),
>
    decreases outcomes.len(),
{
    if outcomes.len() == 0 {
        Seq::empty()
    } else {
        let n = outcomes.len() - 1;
        let before = failures_of(tickers, outcomes.drop_last());
        match outcomes[n] {
            Ok(_) => before,
            Err(e) => before.push((tickers[n].symbol, e)),
        }
    }
}

/// A ticker whose price and update time were set together, to `price` and
/// `now`, its identity unchanged.
pub open spec fn price_updated(before: Ticker, after: Ticker, price: Dec, now: i64) -> bool {
    &&& after.last_price == Some(price)
    &&& after.last_price_updated_at == Some(now)
    &&& after.symbol == before.symbol
    &&& after.name == before.name
    &&& after.currency == before.currency
    &&& after.exchange == before.exchange
    &&& after.last_api == before.last_api
}

/// Writes each fetched price to its ticker, with the time of the write
/// (`now`); a failed lookup leaves its ticker as it was and does not stop the
/// others. Reports every failure.
pub fn apply_price_outcomes(tickers: &mut Vec<Ticker>, outcomes: &Vec<Result<Dec, String>>, now: i64) -> (r:
    Result<(), PartialRefreshFailure>)
    requires
        old(tickers)@.len() == outcomes@.len(),
    ensures
        final(tickers)@.len() == old(tickers)@.len(),
        forall|i: int|
            0 <= i < outcomes@.len() ==> match #[trigger] outcomes@[i] {
                Ok(p) => price_updated(old(tickers)@[i], final(tickers)@[i], p, now),
                Err(_) => final(tickers)@[i] == old(tickers)@[i],
            },
        r is Ok <==> failures_of(old(tickers)@, outcomes@).len() == 0,
        r matches Err(f) ==> f.failures@ == failures_of(old(tickers)@, outcomes@),
{
    let ghost start = tickers@;
    let mut failures: Vec<(String, String)> = Vec::new();
    let mut i: usize = 0;
    while i < outcomes.len()
        invariant
            start == old(tickers)@,
            tickers@.len() == start.len() == outcomes@.len(),
            0 <= i <= outcomes@.len(),
            forall|j: int|
                0 <= j < i ==> match #[trigger] outcomes@[j] {
                    Ok(p) => price_updated(start[j], tickers@[j], p, now),
                    Err(_) => tickers@[j] == start[j],
                },
            forall|j: int| i <= j < tickers@.len() ==> tickers@[j] == start[j],
            failures@ == failures_of(start, outcomes@.take(i as int)),
        decreases outcomes.len() - i,
    {
        proof {
            assert(outcomes@.take(i + 1).drop_last() =~= outcomes@.take(i as int));
        }
        match &outcomes[i] {
            Ok(p) => {
                tickers[i].update_price(*p, now);
            },
            Err(e) => {
                let symbol = tickers[i].symbol.clone();
                failures.push((symbol, e.clone()));
            },
        }
        i = i + 1;
    }
    proof {
        assert(outcomes@.take(outcomes@.len() as int) =~= outcomes@);
    }
    if failures.len() == 0 {
        Ok(())
    } else {
        Err(PartialRefreshFailure { failures })
    }
}

} // verus!
